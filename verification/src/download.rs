//! What a download hands back to the interface: the body in Base64 and the
//! file name its headers give, or the HTTP failure.

use vstd::prelude::*;

use crate::disposition::{disposition_name, extract_filename_from_disposition, split_parts};
use crate::fmt::{decimal, decimal_string, push_str};
use crate::primitives::{base64_encode, base64_encode_spec};

verus! {

/// A downloaded file: its bytes in standard Base64 and the name from its
/// `Content-Disposition` header, if any.
pub struct DownloadResult {
    pub data: String,
    pub filename: Option<String>,
}

/// The message of a failed request: `HTTP`, the status code and its reason
/// (`Unknown` when the code has none).
pub open spec fn http_error_text(status: u16, reason: Option<Seq<char>>) -> Seq<char> {
    "HTTP "@ + decimal(status as nat) + " "@ + match reason {
        Some(r) => r,
        None => "Unknown"@,
    }
}

/// The outcome of a download whose response had the status `status`
/// (`success` when it is 2xx) with the reason `reason`, the
/// `Content-Disposition` header `disposition` (when present and readable as
/// text) and the body `body` (small enough for its Base64 text to be sized).
pub fn download_outcome(success: bool, status: u16, reason: Option<&str>, disposition: Option<&str>, body: &[u8])
    -> (r: Result<DownloadResult, String>)
    requires
        body@.len() * 4 <= usize::MAX,
    ensures
        !success ==> (r matches Err(m) && m@ == http_error_text(status, match reason {
            Some(x) => Some(x@),
            None => None,
        })),
        success ==> (r matches Ok(d) && d.data@ == base64_encode_spec(body@) && match disposition {
            Some(v) => match disposition_name(split_parts(v@, 0), None) {
                Some(n) => d.filename matches Some(f) && f@ == n,
                None => d.filename is None,
            },
            None => d.filename is None,
        }),
{
    if !success {
        let mut m = "HTTP ".to_owned();
        push_str(&mut m, decimal_string(status as u64).as_str());
        push_str(&mut m, " ");
        match reason {
            Some(x) => push_str(&mut m, x),
            None => push_str(&mut m, "Unknown"),
        }
        return Err(m);
    }
    let filename = match disposition {
        Some(v) => extract_filename_from_disposition(v),
        None => None,
    };
    Ok(DownloadResult { data: base64_encode(body), filename })
}

} // verus!
