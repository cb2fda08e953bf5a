//! Helpers the single-user edition's page templates call.

use crate::single_user::columns::{split_chars, split_on};
use crate::text::{push_all, text_of};
use vstd::prelude::*;

verus! {

/// The colors given in turn to chart series that have none.
pub const PALETTE: [&'static str; 11] = [
    "oklch(65% 0.20 250)",
    "oklch(70% 0.19 145)",
    "oklch(75% 0.20 50)",
    "oklch(68% 0.20 320)",
    "oklch(72% 0.18 180)",
    "oklch(70% 0.20 25)",
    "oklch(65% 0.15 280)",
    "oklch(73% 0.17 85)",
    "oklch(68% 0.18 350)",
    "oklch(70% 0.16 200)",
    "oklch(60% 0.10 270)",
];

/// The month of a `YYYY-MM-DD` date: its first two `'-'`-separated pieces; any value that
/// does not have exactly three pieces is kept whole.
pub open spec fn month_of(value: Seq<char>) -> Seq<char> {
    let parts = split_on(value, '-');
    if parts.len() == 3 {
        parts[0] + seq!['-'] + parts[1]
    } else {
        value
    }
}

/// The month of a date (see `month_of`).
pub fn extract_month(value: &str) -> (r: String)
    ensures
        r@ == month_of(value@),
{
    let cs = crate::text::chars_of(value);
    let parts = split_chars(cs.as_slice(), '-');
    let ghost sp = split_on(cs@, '-');
    assert(parts@.len() == sp.len());
    if parts.len() == 3 {
        assert(parts@[0]@ == sp[0] && parts@[1]@ == sp[1]);
        let mut out: Vec<char> = Vec::new();
        push_all(&mut out, parts[0].as_slice());
        out.push('-');
        push_all(&mut out, parts[1].as_slice());
        assert(out@ =~= sp[0] + seq!['-'] + sp[1]);
        text_of(out.as_slice())
    } else {
        text_of(cs.as_slice())
    }
}

} // verus!
