//! What the single-user edition's pages know about their request.

use crate::text::text_of;
use crate::web::request_context::{is_alphanumeric, is_nonce};
use vstd::prelude::*;

verus! {

/// The context every page is rendered with.
#[derive(Debug, Clone)]
pub struct RequestContext {
    /// The request came from client-side rendering (it carried an `x-nonce` header).
    pub csr: bool,
    /// The nonce of the page's inline scripts.
    pub nonce: String,
}

/// The letters and digits a nonce is drawn from.
pub const NONCE_CHARSET: &'static str = "ABCDEFGHIJKLMNOPQRSTUVWXYZabcdefghijklmnopqrstuvwxyz0123456789";

/// A random index below `n` (`rand::Rng::random_range(0..n)` on the thread's generator);
/// which one comes back is left open.
#[verifier::external_body]
fn random_index(n: usize) -> (i: usize)
    requires
        n > 0,
    ensures
        i < n,
{
    rand::Rng::random_range(&mut rand::rng(), 0..n)
}

/// The characters of `NONCE_CHARSET` at the positions `indices`, in order.
pub open spec fn charset_chars(indices: Seq<usize>) -> Seq<char> {
    indices.map_values(|i: usize| NONCE_CHARSET@[i as int])
}

/// The nonce made of the characters of `NONCE_CHARSET` at the drawn positions `indices`.
pub fn nonce_from_indices(indices: &Vec<usize>) -> (r: String)
    requires
        forall|k: int| 0 <= k < indices@.len() ==> #[trigger] indices@[k] < 62,
    ensures
        r@ == charset_chars(indices@),
        indices@.len() == 16 ==> is_nonce(r@),
{
    let charset = crate::text::chars_of(NONCE_CHARSET);
    proof {
        reveal_strlit("ABCDEFGHIJKLMNOPQRSTUVWXYZabcdefghijklmnopqrstuvwxyz0123456789");
    }
    assert(charset@.len() == 62);
    assert forall|k: int| 0 <= k < charset@.len() implies is_alphanumeric(#[trigger] charset@[k]) by {
        reveal_strlit("ABCDEFGHIJKLMNOPQRSTUVWXYZabcdefghijklmnopqrstuvwxyz0123456789");
    }
    let mut out: Vec<char> = Vec::new();
    let mut i: usize = 0;
    while i < indices.len()
        invariant
            i <= indices@.len(),
            charset@ == NONCE_CHARSET@,
            charset@.len() == 62,
            forall|k: int| 0 <= k < indices@.len() ==> #[trigger] indices@[k] < 62,
            out@ == charset_chars(indices@.subrange(0, i as int)),
        decreases indices@.len() - i,
    {
        out.push(charset[indices[i]]);
        i = i + 1;
        assert(out@ =~= charset_chars(indices@.subrange(0, i as int)));
    }
    assert(indices@.subrange(0, indices@.len() as int) =~= indices@);
    assert forall|k: int| 0 <= k < out@.len() implies is_alphanumeric(#[trigger] out@[k]) by {
        assert(out@[k] == charset@[indices@[k] as int]);
    }
    text_of(out.as_slice())
}

impl RequestContext {
    /// A fresh random nonce: sixteen positions of `NONCE_CHARSET` drawn at random, made into
    /// a nonce by `nonce_from_indices`.
    pub fn generate_nonce() -> (r: String)
        ensures
            is_nonce(r@),
    {
        let mut indices: Vec<usize> = Vec::new();
        let mut i: usize = 0;
        while i < 16
            invariant
                i <= 16,
                indices@.len() == i,
                forall|k: int| 0 <= k < i ==> #[trigger] indices@[k] < 62,
            decreases 16 - i,
        {
            let idx = random_index(62);
            indices.push(idx);
            i = i + 1;
        }
        nonce_from_indices(&indices)
    }

    /// The context of a request whose `x-nonce` header is `header`: absent (`None`), present
    /// but not text (`Some(None)`), or present with its text.
    pub fn from_nonce_header(header: Option<Option<String>>) -> (r: RequestContext)
        ensures
            r.csr == header is Some,
            match header {
                Some(Some(h)) => r.nonce == h,
                _ => is_nonce(r.nonce@),
            },
    {
        let csr = header.is_some();
        let nonce = match header {
            Some(Some(h)) => h,
            _ => Self::generate_nonce(),
        };
        RequestContext { csr, nonce }
    }
}

} // verus!
