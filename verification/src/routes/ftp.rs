//! The FTP endpoints' bodies: listings, base64-encoded downloads and uploads.
use vstd::prelude::*;
use vstd::string::*;
use crate::encoding::{base64_bytes, base64_decode, base64_encode, base64_text};
use crate::models::error::GatewayError;
use crate::models::router::Backend;
use crate::services::ftp::{FtpHandler, placeholder_content, placeholder_listing};
use crate::text::{concat2, owned};

verus! {

/// An upload: credentials, target path and base64 content.
#[derive(Debug)]
pub struct FtpUploadRequest {
    pub username: String,
    pub password: String,
    pub file_path: String,
    pub content: String,
}

/// A listing or download: credentials and path.
#[derive(Debug)]
pub struct FtpRequest {
    pub username: String,
    pub password: String,
    pub path: String,
}

/// The path used when a request names none: the root.
pub fn default_path() -> (r: String)
    ensures
        r@ == "/"@,
{
    owned("/")
}

/// A directory listing.
#[derive(Debug)]
pub struct FtpListResponse {
    pub files: Vec<String>,
    pub count: usize,
}

/// A downloaded file, base64-encoded, with its size in bytes.
#[derive(Debug)]
pub struct FtpDownloadResponse {
    pub file_path: String,
    pub content: String,
    pub size: usize,
}

/// Why an upload failed.
#[derive(Debug)]
pub enum FtpUploadError {
    /// The content is not valid base64 (answered with 400).
    BadContent(String),
    /// The transfer failed (answered with 500).
    Transfer(GatewayError),
}

/// The listing of the requested path, with its entry count.
pub fn handle_ftp_list(handler: &FtpHandler, backend: &Backend, request: &FtpRequest) -> (r: Result<
    FtpListResponse,
    GatewayError,
>)
    ensures
        r matches Ok(l) && l.files@.map_values(|s: String| s@) == placeholder_listing()
            && l.count == l.files@.len(),
{
    match handler.list_directory(
        backend,
        request.username.as_str(),
        request.password.as_str(),
        request.path.as_str(),
    ) {
        Ok(files) => {
            let count = files.len();
            Ok(FtpListResponse { files, count })
        },
        Err(e) => Err(e),
    }
}

/// The requested file, base64-encoded, with its size in bytes.
pub fn handle_ftp_download(handler: &FtpHandler, backend: &Backend, request: &FtpRequest) -> (r:
    Result<FtpDownloadResponse, GatewayError>)
    ensures
        r matches Ok(d) && d.file_path@ == request.path@ && d.content@ == base64_text(
            vstd::utf8::encode_utf8(placeholder_content()),
        ) && d.size == vstd::utf8::encode_utf8(placeholder_content()).len(),
{
    match handler.retrieve_file(
        backend,
        request.username.as_str(),
        request.password.as_str(),
        request.path.as_str(),
    ) {
        Ok(content) => {
            let size = content.len();
            let encoded = base64_encode(content.as_slice());
            Ok(FtpDownloadResponse { file_path: request.path.clone(), content: encoded, size })
        },
        Err(e) => Err(e),
    }
}

/// Stores the decoded content at the requested path; content that is not
/// base64 is refused with the decoder's reason.
pub fn handle_ftp_upload(handler: &FtpHandler, backend: &Backend, request: &FtpUploadRequest) -> (r:
    Result<(), FtpUploadError>)
    ensures
        r is Ok <==> exists|b: Seq<u8>| base64_text(b) == request.content@,
        match base64_bytes(request.content@) {
            Ok(_) => r is Ok,
            Err(e) => r matches Err(FtpUploadError::BadContent(m)) && m@ == "Invalid base64 content: "@
                + e,
        },
{
    let content = match base64_decode(request.content.as_str()) {
        Ok(c) => c,
        Err(e) => {
            return Err(FtpUploadError::BadContent(concat2("Invalid base64 content: ", e.as_str())));
        },
    };
    match handler.store_file(
        backend,
        request.username.as_str(),
        request.password.as_str(),
        request.file_path.as_str(),
        content.as_slice(),
    ) {
        Ok(()) => Ok(()),
        Err(e) => Err(FtpUploadError::Transfer(e)),
    }
}

} // verus!
