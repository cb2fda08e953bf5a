//! What every page knows about its request: whether it was rendered for client-side
//! navigation and the nonce its inline scripts carry.

use crate::text::text_of;
use vstd::prelude::*;

verus! {

/// The context every page is rendered with.
#[derive(Debug, Clone)]
pub struct RequestContext {
    /// The request came from client-side rendering (it carried an `x-nonce` header).
    pub csr: bool,
    /// The nonce of the page's inline scripts.
    pub nonce: String,
    /// The page uses the full width of the window.
    pub fluid: bool,
}

/// An ASCII letter or digit.
pub open spec fn is_alphanumeric(c: char) -> bool {
    ('0' <= c <= '9') || ('A' <= c <= 'Z') || ('a' <= c <= 'z')
}

/// A nonce: sixteen ASCII letters and digits.
pub open spec fn is_nonce(s: Seq<char>) -> bool {
    s.len() == 16 && forall|i: int| 0 <= i < s.len() ==> is_alphanumeric(#[trigger] s[i])
}

/// One random ASCII letter or digit (`rand::distr::Alphanumeric` sampled from the thread's
/// generator); which one comes back is left open.
#[verifier::external_body]
fn random_alphanumeric() -> (b: u8)
    ensures
        is_alphanumeric_code(b),
{
    rand::Rng::sample(&mut rand::rng(), rand::distr::Alphanumeric)
}

/// An ASCII code of a letter or digit.
pub open spec fn is_alphanumeric_code(b: u8) -> bool {
    (48 <= b <= 57) || (65 <= b <= 90) || (97 <= b <= 122)
}

/// The characters of the ASCII codes `codes`, in order.
pub open spec fn code_chars(codes: Seq<u8>) -> Seq<char> {
    codes.map_values(|b: u8| b as char)
}

/// The nonce made of the drawn ASCII codes `draws`, in order; sixteen codes of letters and
/// digits make a nonce.
pub fn nonce_of(draws: &Vec<u8>) -> (r: String)
    ensures
        r@ == code_chars(draws@),
        draws@.len() == 16 && (forall|k: int| 0 <= k < draws@.len() ==> is_alphanumeric_code(#[trigger] draws@[k]))
            ==> is_nonce(r@),
{
    let mut out: Vec<char> = Vec::new();
    let mut i: usize = 0;
    while i < draws.len()
        invariant
            i <= draws@.len(),
            out@ == code_chars(draws@.subrange(0, i as int)),
        decreases draws@.len() - i,
    {
        out.push(draws[i] as char);
        i = i + 1;
        assert(out@ =~= code_chars(draws@.subrange(0, i as int)));
    }
    assert(draws@.subrange(0, draws@.len() as int) =~= draws@);
    text_of(out.as_slice())
}

impl RequestContext {
    /// A fresh random nonce: sixteen codes drawn at random, made into a nonce by `nonce_of`.
    pub fn generate_nonce() -> (r: String)
        ensures
            is_nonce(r@),
    {
        let mut draws: Vec<u8> = Vec::new();
        let mut i: usize = 0;
        while i < 16
            invariant
                i <= 16,
                draws@.len() == i,
                forall|k: int| 0 <= k < i ==> is_alphanumeric_code(#[trigger] draws@[k]),
            decreases 16 - i,
        {
            let b = random_alphanumeric();
            draws.push(b);
            i = i + 1;
        }
        nonce_of(&draws)
    }

    /// The nonce the request's `x-nonce` header gives, or a fresh one where it gives none.
    pub fn extract_nonce(header: Option<String>) -> (r: String)
        ensures
            match header {
                Some(h) => r == h,
                None => is_nonce(r@),
            },
    {
        match header {
            Some(h) => h,
            None => Self::generate_nonce(),
        }
    }

    /// The context of a request whose `x-nonce` header is `header`: absent (`None`), present
    /// but not text (`Some(None)`), or present with its text.
    pub fn from_nonce_header(header: Option<Option<String>>) -> (r: RequestContext)
        ensures
            r.csr == header is Some,
            !r.fluid,
            match header {
                Some(Some(h)) => r.nonce == h,
                _ => is_nonce(r.nonce@),
            },
    {
        let csr = header.is_some();
        let text = match header {
            Some(t) => t,
            None => None,
        };
        let nonce = Self::extract_nonce(text);
        RequestContext { csr, nonce, fluid: false }
    }
}

} // verus!
