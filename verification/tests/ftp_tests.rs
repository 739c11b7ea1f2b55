//! The FTP proxy: construction, cloning, addresses and placeholder transfers.

use kairos_rs::models::router::Backend;
use kairos_rs::routes::ftp::{
    default_path, handle_ftp_download, handle_ftp_list, handle_ftp_upload, FtpRequest,
    FtpUploadError, FtpUploadRequest,
};
use kairos_rs::services::ftp::FtpHandler;

#[test]
fn test_ftp_handler_creation() {
    let _handler = FtpHandler::new(30);
    assert!(true);
}

#[test]
fn test_ftp_handler_with_different_timeouts() {
    let _handler1 = FtpHandler::new(30);
    let _handler2 = FtpHandler::new(60);
    let _handler3 = FtpHandler::new(120);
    assert!(true);
}

#[test]
fn test_ftp_handler_clone() {
    let handler = FtpHandler::new(30);
    let _cloned = handler.clone();
    assert!(true);
}

#[test]
fn test_ftp_handler_multiple_instances() {
    let _handler1 = FtpHandler::new(30);
    let _handler2 = FtpHandler::new(60);
    assert!(true);
}

#[test]
fn test_ftp_handler_zero_timeout() {
    let _handler = FtpHandler::new(0);
    assert!(true);
}

#[test]
fn test_ftp_handler_large_timeout() {
    let _handler = FtpHandler::new(3600);
    assert!(true);
}

#[test]
fn test_standard_ftp_configuration() {
    let _handler = FtpHandler::new(30);
    assert!(true);
}

#[test]
fn ftp_tests_test_handler_lifecycle() {
    let handler = FtpHandler::new(30);
    let cloned = handler.clone();
    drop(handler);
    drop(cloned);
    assert!(true);
}

#[test]
fn test_multiple_clones() {
    let handler = FtpHandler::new(30);
    let _clone1 = handler.clone();
    let _clone2 = handler.clone();
    let _clone3 = handler.clone();
    assert!(true);
}

fn ftp_backend(host: &str) -> Backend {
    Backend { host: host.to_string(), port: 21, weight: 1, health_check_path: None }
}

#[test]
fn ftp_clone_keeps_timeout() {
    let handler = FtpHandler::new(45);
    assert_eq!(handler.clone().timeout_seconds(), 45);
}

#[test]
fn ftp_host_strips_scheme() {
    let handler = FtpHandler::new(30);
    assert_eq!(handler.extract_host("ftp://files.example.com").unwrap(), "files.example.com");
    assert_eq!(handler.extract_host("ftps://secure.example.com").unwrap(), "secure.example.com");
    assert_eq!(handler.extract_host("plain.example.com").unwrap(), "plain.example.com");
    assert_eq!(handler.address(&ftp_backend("ftp://files.example.com")).unwrap(), "files.example.com:21");
}

#[test]
fn ftp_listing_and_download_placeholders() {
    let handler = FtpHandler::new(30);
    let backend = ftp_backend("ftp://files.example.com");
    let request = FtpRequest {
        username: "user".to_string(),
        password: "pass".to_string(),
        path: default_path(),
    };
    assert_eq!(request.path, "/");
    let listing = handle_ftp_list(&handler, &backend, &request).unwrap();
    assert_eq!(listing.count, 4);
    assert_eq!(listing.files[2], "-rw-r--r-- 1 user group 1024 Jan 01 12:00 README.txt");
    let download = handle_ftp_download(&handler, &backend, &request).unwrap();
    assert_eq!(download.file_path, "/");
    assert_eq!(download.size, 52);
    assert_eq!(
        download.content,
        "RmlsZSBjb250ZW50IGZyb20gRlRQIHNlcnZlcgpUaGlzIGlzIGEgcGxhY2Vob2xkZXIuCg=="
    );
}

#[test]
fn ftp_upload_checks_base64() {
    let handler = FtpHandler::new(30);
    let backend = ftp_backend("ftp://files.example.com");
    let good = FtpUploadRequest {
        username: "user".to_string(),
        password: "pass".to_string(),
        file_path: "/up.txt".to_string(),
        content: "aGVsbG8=".to_string(),
    };
    assert!(handle_ftp_upload(&handler, &backend, &good).is_ok());
    let bad = FtpUploadRequest { content: "not base64!".to_string(), ..good };
    match handle_ftp_upload(&handler, &backend, &bad) {
        Err(FtpUploadError::BadContent(m)) => assert!(m.starts_with("Invalid base64 content: ")),
        other => panic!("unexpected: {:?}", other),
    }
}

#[test]
fn ftp_upload_takes_only_canonical_base64() {
    let handler = FtpHandler::new(30);
    let backend = ftp_backend("ftp://files.example.com");
    let upload = |content: &str| FtpUploadRequest {
        username: "user".to_string(),
        password: "pass".to_string(),
        file_path: "/up.txt".to_string(),
        content: content.to_string(),
    };
    assert!(handle_ftp_upload(&handler, &backend, &upload("QQ==")).is_ok());
    assert!(handle_ftp_upload(&handler, &backend, &upload("")).is_ok());
    assert!(handle_ftp_upload(&handler, &backend, &upload("QR==")).is_err());
    assert!(handle_ftp_upload(&handler, &backend, &upload("QQ")).is_err());
    assert!(handle_ftp_upload(&handler, &backend, &upload("QQ=")).is_err());
}
