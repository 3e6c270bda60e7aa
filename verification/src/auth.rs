use vstd::prelude::*;
use vstd::utf8::encode_utf8;

verus! {

/// Grants a request exactly when it presents the admin key. The key
/// comparison runs in constant time, so response timing leaks nothing
/// about the key.
pub struct AuthGuard(pub String);

/// Relies on consistenttime::ct_u8_slice_eq: returns whether the two byte
/// slices are equal, walking all of them whatever the outcome.
#[verifier::external_body]
fn ct_bytes_eq(a: &[u8], b: &[u8]) -> (r: bool)
    ensures
        r == (a@ == b@),
{
    consistenttime::ct_u8_slice_eq(a, b)
}

impl AuthGuard {
    /// Whether the presented header value, if any, is byte for byte the
    /// UTF-8 form of the admin key.
    pub fn check(&self, header: Option<&[u8]>) -> (r: bool)
        ensures
            r == match header {
                Some(h) => h@ == encode_utf8(self.0@),
                None => false,
            },
    {
        match header {
            Some(h) => ct_bytes_eq(h, self.0.as_str().as_bytes()),
            None => false,
        }
    }
}

} // verus!
