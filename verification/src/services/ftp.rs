//! FTP proxying. Transfers are not performed yet: listing, download and
//! upload answer with fixed placeholder results for the backend's address.
use vstd::prelude::*;
use vstd::string::*;
use crate::models::error::GatewayError;
use crate::models::router::{Backend, BackendView};
use crate::text::{concat3, dec, owned, starts_with, str_strip_prefix, u64_to_decimal};

verus! {

/// A backend URL without its `ftp://` or `ftps://` scheme.
pub open spec fn ftp_host(url: Seq<char>) -> Seq<char> {
    if starts_with(url, "ftp://"@) {
        url.subrange(6, url.len() as int)
    } else if starts_with(url, "ftps://"@) {
        url.subrange(7, url.len() as int)
    } else {
        url
    }
}

/// The `host:port` address of an FTP backend.
pub open spec fn ftp_address(b: BackendView) -> Seq<char> {
    ftp_host(b.host) + ":"@ + dec(b.port as nat)
}

/// The placeholder directory listing.
pub open spec fn placeholder_listing() -> Seq<Seq<char>> {
    seq![
        "drwxr-xr-x 2 user group 4096 Jan 01 12:00 ."@,
        "drwxr-xr-x 3 user group 4096 Jan 01 12:00 .."@,
        "-rw-r--r-- 1 user group 1024 Jan 01 12:00 README.txt"@,
        "-rw-r--r-- 1 user group 2048 Jan 01 12:00 file.pdf"@,
    ]
}

/// The placeholder file content, as text.
pub open spec fn placeholder_content() -> Seq<char> {
    "File content from FTP server\nThis is a placeholder.\n"@
}

/// The FTP proxy.
#[derive(Debug)]
pub struct FtpHandler {
    timeout_seconds: u64,
}

impl Clone for FtpHandler {
    fn clone(&self) -> (r: Self)
        ensures
            r.spec_timeout() == self.spec_timeout(),
    {
        FtpHandler { timeout_seconds: self.timeout_seconds }
    }
}

impl FtpHandler {
    /// The transfer timeout in seconds.
    pub closed spec fn spec_timeout(&self) -> u64 {
        self.timeout_seconds
    }

    /// A proxy with the given transfer timeout.
    pub fn new(timeout_seconds: u64) -> (r: Self)
        ensures
            r.spec_timeout() == timeout_seconds,
    {
        FtpHandler { timeout_seconds }
    }

    /// The transfer timeout in seconds.
    pub fn timeout_seconds(&self) -> (r: u64)
        ensures
            r == self.spec_timeout(),
    {
        self.timeout_seconds
    }

    /// The FTP server named by a backend host: without an `ftp://` or
    /// `ftps://` scheme.
    pub fn extract_host(&self, url: &str) -> (r: Result<String, GatewayError>)
        ensures
            r matches Ok(h) && h@ == ftp_host(url@),
    {
        match str_strip_prefix(url, "ftp://") {
            Some(h) => {
                assert("ftp://"@.len() == 6) by {
                    reveal_strlit("ftp://");
                }
                Ok(h)
            },
            None => match str_strip_prefix(url, "ftps://") {
                Some(h) => {
                    assert("ftps://"@.len() == 7) by {
                        reveal_strlit("ftps://");
                    }
                    Ok(h)
                },
                None => Ok(owned(url)),
            },
        }
    }

    /// The `host:port` address of `backend`.
    pub fn address(&self, backend: &Backend) -> (r: Result<String, GatewayError>)
        ensures
            r matches Ok(a) && a@ == ftp_address(backend@),
    {
        let host = match self.extract_host(backend.host.as_str()) {
            Ok(h) => h,
            Err(e) => {
                return Err(e);
            },
        };
        let port = u64_to_decimal(backend.port as u64);
        Ok(concat3(host.as_str(), ":", port.as_str()))
    }

    /// The listing of `path` on the backend: the placeholder listing.
    pub fn list_directory(
        &self,
        backend: &Backend,
        username: &str,
        password: &str,
        path: &str,
    ) -> (r: Result<Vec<String>, GatewayError>)
        ensures
            r matches Ok(v) && v@.map_values(|s: String| s@) == placeholder_listing(),
    {
        let mut v: Vec<String> = Vec::new();
        v.push(owned("drwxr-xr-x 2 user group 4096 Jan 01 12:00 ."));
        v.push(owned("drwxr-xr-x 3 user group 4096 Jan 01 12:00 .."));
        v.push(owned("-rw-r--r-- 1 user group 1024 Jan 01 12:00 README.txt"));
        v.push(owned("-rw-r--r-- 1 user group 2048 Jan 01 12:00 file.pdf"));
        assert(v@.map_values(|s: String| s@) =~= placeholder_listing());
        Ok(v)
    }

    /// The content of `file_path` on the backend: the placeholder content.
    pub fn retrieve_file(
        &self,
        backend: &Backend,
        username: &str,
        password: &str,
        file_path: &str,
    ) -> (r: Result<Vec<u8>, GatewayError>)
        ensures
            r matches Ok(v) && v@ == vstd::utf8::encode_utf8(placeholder_content()),
    {
        let text = "File content from FTP server\nThis is a placeholder.\n";
        Ok(text.as_bytes_vec())
    }

    /// Stores `content` at `file_path` on the backend: accepted without
    /// transfer.
    pub fn store_file(
        &self,
        backend: &Backend,
        username: &str,
        password: &str,
        file_path: &str,
        content: &[u8],
    ) -> (r: Result<(), GatewayError>)
        ensures
            r is Ok,
    {
        Ok(())
    }
}

} // verus!
