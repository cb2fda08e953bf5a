//! Reading the dates of bank statements into ISO `YYYY-MM-DD` form.

use crate::text::{
    all_digits, char_runs, chars_eq, chars_of, digit_char, digit_value, digits_value, is_digit,
    is_white, parse_u32, parsed_u32, push_all, text_of, trim_chars, trim_end, trim_start, trimmed,
    without_plus,
};
use vstd::prelude::*;

verus! {

/// A leap year of the proleptic Gregorian calendar.
pub open spec fn is_leap_year(y: int) -> bool {
    y % 4 == 0 && (y % 100 != 0 || y % 400 == 0)
}

/// The number of days of month `m` (1 to 12) in year `y`.
pub open spec fn days_in_month(y: int, m: int) -> int {
    if m == 2 {
        if is_leap_year(y) {
            29
        } else {
            28
        }
    } else if m == 4 || m == 6 || m == 9 || m == 11 {
        30
    } else {
        31
    }
}

/// A day of the proleptic Gregorian calendar within chrono's range of years.
pub open spec fn is_calendar_date(y: int, m: int, d: int) -> bool {
    &&& -262143 <= y <= 262142
    &&& 1 <= m <= 12
    &&& 1 <= d <= days_in_month(y, m)
}

/// Two decimal digits of `n < 100`.
pub open spec fn two_digits(n: nat) -> Seq<char> {
    seq![digit_char(n / 10), digit_char(n % 10)]
}

/// A date written `YYYY-MM-DD` for a year from 0 to 9999.
pub open spec fn iso_date_text(y: nat, m: nat, d: nat) -> Seq<char> {
    two_digits(y / 100) + two_digits(y % 100) + seq!['-'] + two_digits(m) + seq!['-'] + two_digits(
        d,
    )
}

/// What chrono writes for `NaiveDate::from_ymd_opt(year, month, day)` formatted with
/// `"%Y-%m-%d"`, or `None` when that date does not exist.
pub uninterp spec fn chrono_date_text(year: i32, month: u32, day: u32) -> Option<Seq<char>>;

/// `chrono::NaiveDate::from_ymd_opt(year, month, day)`, formatted with `"%Y-%m-%d"`.
/// chrono returns a date exactly for the days of the proleptic Gregorian calendar from year
/// -262143 to 262142, and `%Y` writes years from 0 to 9999 as four zero-padded digits.
/// Other years get a sign and are left to `chrono_date_text`.
#[verifier::external_body]
fn format_calendar_date(year: i32, month: u32, day: u32) -> (r: Option<String>)
    ensures
        r.deep_view() == chrono_date_text(year, month, day),
        r is Some <==> is_calendar_date(year as int, month as int, day as int),
        r is Some && 0 <= year <= 9999 ==> r->0@ == iso_date_text(
            year as nat,
            month as nat,
            day as nat,
        ),
{
    chrono::NaiveDate::from_ymd_opt(year, month, day).map(|date| date.format("%Y-%m-%d").to_string())
}

/// `s` with `'年'` and `'月'` replaced by `'-'` and `'日'` removed.
pub open spec fn kanji_marks_replaced(s: Seq<char>) -> Seq<char>
    decreases s.len(),
{
    if s.len() == 0 {
        s
    } else {
        let r = kanji_marks_replaced(s.drop_last());
        let c = s.last();
        if c == '日' {
            r
        } else if c == '年' || c == '月' {
            r.push('-')
        } else {
            r.push(c)
        }
    }
}

/// The text of a date cell as the date reader sees it: trimmed, with Japanese year, month and
/// day marks turned into `'-'` separators, and trimmed again.
pub open spec fn date_cell_text(value: Seq<char>) -> Seq<char> {
    trimmed(kanji_marks_replaced(trimmed(value)))
}

/// A separator between the numbers of a date.
pub open spec fn is_date_mark(c: char) -> bool {
    c == '.' || c == '/' || c == '-'
}

/// `s` cut at every date mark, as `str::split` cuts it: one more piece than there are marks,
/// empty pieces included.
pub open spec fn date_pieces(s: Seq<char>) -> Seq<Seq<char>>
    decreases s.len(),
{
    if s.len() == 0 {
        seq![Seq::empty()]
    } else {
        let init = date_pieces(s.drop_last());
        if is_date_mark(s.last()) {
            init.push(Seq::empty())
        } else {
            init.update(init.len() - 1, init.last().push(s.last()))
        }
    }
}

proof fn lemma_date_pieces_nonempty(s: Seq<char>)
    ensures
        date_pieces(s).len() >= 1,
    decreases s.len(),
{
    if s.len() > 0 {
        lemma_date_pieces_nonempty(s.drop_last());
    }
}

/// Year, month and day chosen from the three numbers of a date.
pub open spec fn chosen_ymd(
    n0: u32,
    n1: u32,
    n2: u32,
    year_first: bool,
    format: Option<Seq<char>>,
) -> Result<(u32, u32, u32), Seq<char>> {
    match format {
        Some(f) => if f == "ymd"@ {
            Ok((n0, n1, n2))
        } else if f == "ydm"@ {
            Ok((n0, n2, n1))
        } else if f == "dmy"@ {
            Ok((n2, n1, n0))
        } else if f == "mdy"@ {
            Ok((n2, n0, n1))
        } else {
            Err("Unknown date format: "@ + f)
        },
        None => if year_first {
            if 12 < n1 <= 31 {
                Ok((n0, n2, n1))
            } else {
                Ok((n0, n1, n2))
            }
        } else {
            if 12 < n1 <= 31 {
                Ok((n2, n0, n1))
            } else {
                Ok((n2, n1, n0))
            }
        },
    }
}

/// What reading the date cell `value` gives, with an optional explicit order of its numbers
/// (`ymd`, `ydm`, `dmy` or `mdy`).
///
/// The cell must hold three numbers separated by `.`, `/` or `-`, one of which, the first or
/// the last, is written with four characters: that one is the year. Without an explicit
/// order, year-first dates are read year-month-day and other dates day-month-year, unless the
/// middle number can only be a day (13 to 31), in which case it is taken as the day.
pub open spec fn normalized_date(value: Seq<char>, format: Option<Seq<char>>) -> Result<
    Seq<char>,
    Seq<char>,
> {
    let v = date_cell_text(value);
    let pieces = date_pieces(v);
    let bad = "Invalid date format: "@ + v;
    if pieces.len() != 3 {
        Err(bad)
    } else {
        let (p0, p1, p2) = (parsed_u32(pieces[0]), parsed_u32(pieces[1]), parsed_u32(pieces[2]));
        if p0 is None || p1 is None || p2 is None {
            Err(bad)
        } else if pieces[0].len() != 4 && pieces[2].len() != 4 {
            Err(bad)
        } else {
            match chosen_ymd(p0->0, p1->0, p2->0, pieces[0].len() == 4, format) {
                Err(e) => Err(e),
                Ok((y, m, d)) => match chrono_date_text(y as i32, m, d) {
                    Some(t) => Ok(t),
                    None => Err("Invalid date value: "@ + v),
                },
            }
        }
    }
}

/// The texts that a `Result<String, String>` holds.
pub open spec fn result_text(r: Result<String, String>) -> Result<Seq<char>, Seq<char>> {
    match r {
        Ok(t) => Ok(t@),
        Err(e) => Err(e@),
    }
}

fn replace_kanji_marks(s: &[char]) -> (r: Vec<char>)
    ensures
        r@ == kanji_marks_replaced(s@),
{
    let mut r: Vec<char> = Vec::new();
    let mut i: usize = 0;
    while i < s.len()
        invariant
            i <= s@.len(),
            r@ == kanji_marks_replaced(s@.subrange(0, i as int)),
        decreases s@.len() - i,
    {
        let c = s[i];
        let ghost pre = s@.subrange(0, i as int);
        assert(s@.subrange(0, i + 1).drop_last() =~= pre);
        if c == '日' {
        } else if c == '年' || c == '月' {
            r.push('-');
        } else {
            r.push(c);
        }
        i = i + 1;
    }
    assert(s@.subrange(0, s@.len() as int) =~= s@);
    r
}

fn split_date_marks(s: &[char]) -> (r: Vec<Vec<char>>)
    ensures
        char_runs(r@) == date_pieces(s@),
{
    let mut parts: Vec<Vec<char>> = Vec::new();
    let mut cur: Vec<char> = Vec::new();
    let mut i: usize = 0;
    while i < s.len()
        invariant
            i <= s@.len(),
            char_runs(parts@).push(cur@) == date_pieces(s@.subrange(0, i as int)),
        decreases s@.len() - i,
    {
        let c = s[i];
        let ghost pre = s@.subrange(0, i as int);
        let ghost prev_parts = parts@;
        let ghost prev_cur = cur@;
        assert(s@.subrange(0, i + 1).drop_last() =~= pre);
        proof {
            lemma_date_pieces_nonempty(pre);
        }
        if c == '.' || c == '/' || c == '-' {
            let done = cur;
            parts.push(done);
            cur = Vec::new();
            assert(char_runs(parts@) =~= char_runs(prev_parts).push(prev_cur));
            assert(char_runs(parts@).push(cur@) =~= date_pieces(pre).push(Seq::empty()));
        } else {
            cur.push(c);
            assert(char_runs(parts@).push(cur@) =~= date_pieces(pre).update(
                date_pieces(pre).len() - 1,
                date_pieces(pre).last().push(c),
            ));
        }
        i = i + 1;
    }
    assert(s@.subrange(0, s@.len() as int) =~= s@);
    let ghost prev_parts = parts@;
    parts.push(cur);
    assert(char_runs(parts@) =~= char_runs(prev_parts).push(cur@));
    parts
}

fn message(prefix: &str, detail: &[char]) -> (r: String)
    ensures
        r@ == prefix@ + detail@,
{
    let mut v = chars_of(prefix);
    push_all(&mut v, detail);
    text_of(v.as_slice())
}

/// `s` is a calendar date written `YYYY-MM-DD`, with a year from 0 to 9999.
pub open spec fn is_iso_calendar_date(s: Seq<char>) -> bool {
    exists|y: nat, m: nat, d: nat|
        y <= 9999 && is_calendar_date(y as int, m as int, d as int) && s == #[trigger] iso_date_text(y, m, d)
}

proof fn lemma_digit_char(k: nat)
    requires
        k < 10,
    ensures
        is_digit(digit_char(k)),
        digit_value(digit_char(k)) == k,
        !is_date_mark(digit_char(k)),
        !is_white(digit_char(k)),
        digit_char(k) != '日' && digit_char(k) != '年' && digit_char(k) != '月',
        digit_char(k) != '+',
{
    assert((digit_char(k) as u32) == 48 + k);
}

proof fn lemma_two_digits(n: nat)
    requires
        n < 100,
    ensures
        two_digits(n).len() == 2,
        all_digits(two_digits(n)),
        digits_value(two_digits(n)) == n,
        forall|i: int| 0 <= i < 2 ==> {
            &&& !is_date_mark(#[trigger] two_digits(n)[i])
            &&& !is_white(two_digits(n)[i])
            &&& two_digits(n)[i] != '日' && two_digits(n)[i] != '年' && two_digits(n)[i] != '月'
            &&& two_digits(n)[i] != '+'
        },
{
    lemma_digit_char(n / 10);
    lemma_digit_char(n % 10);
    let t = two_digits(n);
    assert(t.drop_last() =~= seq![digit_char(n / 10)]);
    assert(t.drop_last().drop_last() =~= Seq::<char>::empty());
    assert(digits_value(Seq::<char>::empty()) == 0);
    assert(digits_value(t.drop_last()) == n / 10);
    assert(digits_value(t) == (n / 10) * 10 + n % 10);
}

proof fn lemma_digits_value_append_two(a: Seq<char>, b: Seq<char>)
    requires
        b.len() == 2,
    ensures
        digits_value(a + b) == digits_value(a) * 100 + digits_value(b),
{
    let ab = a + b;
    assert(ab.drop_last() =~= a.push(b[0]));
    assert(ab.drop_last().drop_last() =~= a);
    assert(a.push(b[0]).drop_last() =~= a);
    assert(b.drop_last() =~= seq![b[0]]);
    assert(b.drop_last().drop_last() =~= Seq::<char>::empty());
    let va = digits_value(a);
    let v0 = digit_value(b[0]);
    let v1 = digit_value(b[1]);
    assert(digits_value(Seq::<char>::empty()) == 0);
    assert(digits_value(b.drop_last()) == v0);
    assert(digits_value(b) == v0 * 10 + v1);
    assert(digits_value(a.push(b[0])) == va * 10 + v0);
    assert(digits_value(ab) == (va * 10 + v0) * 10 + v1);
    assert((va * 10 + v0) * 10 + v1 == va * 100 + (v0 * 10 + v1)) by (nonlinear_arith);
}

proof fn lemma_date_pieces_plain(a: Seq<char>, b: Seq<char>)
    requires
        forall|i: int| 0 <= i < b.len() ==> !is_date_mark(#[trigger] b[i]),
    ensures
        date_pieces(a + b) == date_pieces(a).update(date_pieces(a).len() - 1, date_pieces(a).last() + b),
    decreases b.len(),
{
    lemma_date_pieces_nonempty(a);
    let p = date_pieces(a);
    if b.len() == 0 {
        assert(a + b =~= a);
        assert(p.last() + b =~= p.last());
        assert(p.update(p.len() - 1, p.last()) =~= p);
    } else {
        lemma_date_pieces_plain(a, b.drop_last());
        assert((a + b).drop_last() =~= a + b.drop_last());
        assert((a + b).last() == b.last());
        assert(!is_date_mark(b[b.len() - 1]));
        assert((p.last() + b.drop_last()).push(b.last()) =~= p.last() + b);
        assert(date_pieces(a + b) =~= p.update(p.len() - 1, p.last() + b));
    }
}

proof fn lemma_date_pieces_mark(a: Seq<char>)
    ensures
        date_pieces(a + seq!['-']) == date_pieces(a).push(Seq::empty()),
{
    assert((a + seq!['-']).drop_last() =~= a);
    assert((a + seq!['-']).last() == '-');
}

proof fn lemma_no_kanji_marks(s: Seq<char>)
    requires
        forall|i: int| 0 <= i < s.len() ==> #[trigger] s[i] != '日' && s[i] != '年' && s[i] != '月',
    ensures
        kanji_marks_replaced(s) == s,
    decreases s.len(),
{
    if s.len() > 0 {
        lemma_no_kanji_marks(s.drop_last());
        assert(s.drop_last().push(s.last()) =~= s);
    }
}

/// How the date reader sees an ISO calendar date: as itself, cut into the year, month and
/// day, which read back as their numbers.
proof fn lemma_iso_date_read(y: nat, m: nat, d: nat)
    requires
        y <= 9999,
        m < 100,
        d < 100,
    ensures
        date_cell_text(iso_date_text(y, m, d)) == iso_date_text(y, m, d),
        date_pieces(iso_date_text(y, m, d)).len() == 3,
        date_pieces(iso_date_text(y, m, d))[0].len() == 4,
        parsed_u32(date_pieces(iso_date_text(y, m, d))[0]) == Some(y as u32),
        parsed_u32(date_pieces(iso_date_text(y, m, d))[1]) == Some(m as u32),
        parsed_u32(date_pieces(iso_date_text(y, m, d))[2]) == Some(d as u32),
{
    let hi = two_digits(y / 100);
    let lo = two_digits(y % 100);
    let tm = two_digits(m);
    let td = two_digits(d);
    lemma_two_digits(y / 100);
    lemma_two_digits(y % 100);
    lemma_two_digits(m);
    lemma_two_digits(d);
    let four = hi + lo;
    let s = iso_date_text(y, m, d);
    assert(s == four + seq!['-'] + tm + seq!['-'] + td);
    assert(s.len() == 10);
    // The characters of the text.
    assert forall|i: int| 0 <= i < 4 implies {
        &&& !is_date_mark(#[trigger] four[i])
        &&& four[i] != '+'
        &&& is_digit(four[i])
    } by {
        if i < 2 {
            assert(four[i] == hi[i]);
        } else {
            assert(four[i] == lo[i - 2]);
        }
    }
    assert forall|i: int| 0 <= i < s.len() implies #[trigger] s[i] != '日' && s[i] != '年' && s[i] != '月' by {
        if i < 2 {
            assert(s[i] == hi[i]);
        } else if i < 4 {
            assert(s[i] == lo[i - 2]);
        } else if i == 4 || i == 7 {
        } else if i < 7 {
            assert(s[i] == tm[i - 5]);
        } else {
            assert(s[i] == td[i - 8]);
        }
    }
    // Trimming and the Japanese marks leave it unchanged.
    assert(s[0] == hi[0]);
    assert(s[9] == td[1]);
    assert(trim_start(s) == s);
    assert(trim_end(s) == s);
    lemma_no_kanji_marks(s);
    assert(date_cell_text(s) == s);
    // The pieces.
    let e = Seq::<char>::empty();
    assert(date_pieces(e) == seq![e]);
    lemma_date_pieces_plain(e, four);
    assert(e + four =~= four);
    assert(date_pieces(four) =~= seq![four]);
    lemma_date_pieces_mark(four);
    let a1 = four + seq!['-'];
    assert(date_pieces(a1) =~= seq![four, e]);
    lemma_date_pieces_plain(a1, tm);
    let a2 = a1 + tm;
    assert(e + tm =~= tm);
    assert(date_pieces(a2) =~= seq![four, tm]);
    lemma_date_pieces_mark(a2);
    let a3 = a2 + seq!['-'];
    assert(date_pieces(a3) =~= seq![four, tm, e]);
    lemma_date_pieces_plain(a3, td);
    assert(a3 + td == s);
    assert(date_pieces(s) =~= seq![four, tm, td]);
    // The numbers.
    assert(all_digits(four));
    assert(without_plus(four) == four);
    lemma_digits_value_append_two(hi, lo);
    assert(digits_value(four) == y);
    assert(without_plus(tm) == tm);
    assert(without_plus(td) == td);
}

proof fn lemma_date_pieces_mark_char(a: Seq<char>, c: char)
    requires
        is_date_mark(c),
    ensures
        date_pieces(a + seq![c]) == date_pieces(a).push(Seq::empty()),
{
    assert((a + seq![c]).drop_last() =~= a);
    assert((a + seq![c]).last() == c);
}

proof fn lemma_short_number(a: Seq<char>)
    requires
        1 <= a.len() <= 4,
        all_digits(a),
    ensures
        parsed_u32(a) == Some(digits_value(a) as u32),
        digits_value(a) < 10000,
{
    crate::text::lemma_digits_value_below(a);
    assert(crate::text::pow10(0) == 1);
    assert(crate::text::pow10(1) == 10);
    assert(crate::text::pow10(2) == 100);
    assert(crate::text::pow10(3) == 1000);
    assert(crate::text::pow10(4) == 10000);
    assert(is_digit(a[0]));
    assert(without_plus(a) == a);
}

proof fn lemma_digit_is_plain(c: char)
    requires
        is_digit(c),
    ensures
        !is_date_mark(c),
        !is_white(c),
        c != '日' && c != '年' && c != '月',
{
}

/// How the date reader sees three numbers of at most four digits joined by one date mark.
proof fn lemma_three_numbers_read(a: Seq<char>, b: Seq<char>, c: Seq<char>, sep: char)
    requires
        1 <= a.len() <= 4 && 1 <= b.len() <= 4 && 1 <= c.len() <= 4,
        all_digits(a) && all_digits(b) && all_digits(c),
        is_date_mark(sep),
    ensures
        date_cell_text(a + seq![sep] + b + seq![sep] + c) == a + seq![sep] + b + seq![sep] + c,
        date_pieces(a + seq![sep] + b + seq![sep] + c) == seq![a, b, c],
        parsed_u32(a) == Some(digits_value(a) as u32),
        parsed_u32(b) == Some(digits_value(b) as u32),
        parsed_u32(c) == Some(digits_value(c) as u32),
{
    lemma_short_number(a);
    lemma_short_number(b);
    lemma_short_number(c);
    let s = a + seq![sep] + b + seq![sep] + c;
    assert forall|i: int| 0 <= i < a.len() implies !is_date_mark(#[trigger] a[i]) by {
        lemma_digit_is_plain(a[i]);
    }
    assert forall|i: int| 0 <= i < b.len() implies !is_date_mark(#[trigger] b[i]) by {
        lemma_digit_is_plain(b[i]);
    }
    assert forall|i: int| 0 <= i < c.len() implies !is_date_mark(#[trigger] c[i]) by {
        lemma_digit_is_plain(c[i]);
    }
    assert forall|i: int| 0 <= i < s.len() implies #[trigger] s[i] != '日' && s[i] != '年' && s[i] != '月' by {
        let la = a.len() as int;
        let lb = b.len() as int;
        if i < la {
            assert(s[i] == a[i]);
            lemma_digit_is_plain(a[i]);
        } else if i == la || i == la + 1 + lb {
        } else if i < la + 1 + lb {
            assert(s[i] == b[i - la - 1]);
            lemma_digit_is_plain(b[i - la - 1]);
        } else {
            assert(s[i] == c[i - la - 2 - lb]);
            lemma_digit_is_plain(c[i - la - 2 - lb]);
        }
    }
    assert(s[0] == a[0]);
    lemma_digit_is_plain(a[0]);
    assert(s[s.len() - 1] == c[c.len() - 1]);
    lemma_digit_is_plain(c[c.len() - 1]);
    assert(trim_start(s) == s);
    assert(trim_end(s) == s);
    lemma_no_kanji_marks(s);
    let e = Seq::<char>::empty();
    assert(date_pieces(e) == seq![e]);
    lemma_date_pieces_plain(e, a);
    assert(e + a =~= a);
    assert(date_pieces(a) =~= seq![a]);
    lemma_date_pieces_mark_char(a, sep);
    let a1 = a + seq![sep];
    assert(date_pieces(a1) =~= seq![a, e]);
    lemma_date_pieces_plain(a1, b);
    assert(e + b =~= b);
    let a2 = a1 + b;
    assert(date_pieces(a2) =~= seq![a, b]);
    lemma_date_pieces_mark_char(a2, sep);
    let a3 = a2 + seq![sep];
    assert(date_pieces(a3) =~= seq![a, b, e]);
    lemma_date_pieces_plain(a3, c);
    assert(e + c =~= c);
    assert(date_pieces(a3 + c) =~= seq![a, b, c]);
}

/// The four digits of a year from 0 to 9999.
pub open spec fn year_text(y: nat) -> Seq<char> {
    two_digits(y / 100) + two_digits(y % 100)
}

proof fn lemma_year_text(y: nat)
    requires
        y <= 9999,
    ensures
        year_text(y).len() == 4,
        all_digits(year_text(y)),
        digits_value(year_text(y)) == y,
{
    lemma_two_digits(y / 100);
    lemma_two_digits(y % 100);
    let hi = two_digits(y / 100);
    let lo = two_digits(y % 100);
    assert forall|i: int| 0 <= i < 4 implies is_digit(#[trigger] year_text(y)[i]) by {
        if i < 2 {
            assert(year_text(y)[i] == hi[i]);
        } else {
            assert(year_text(y)[i] == lo[i - 2]);
        }
    }
    lemma_digits_value_append_two(hi, lo);
}

/// Two readings of a date cell agree: the same text, or both refused.
pub open spec fn same_reading(a: Result<Seq<char>, Seq<char>>, b: Result<Seq<char>, Seq<char>>) -> bool {
    match (a, b) {
        (Ok(x), Ok(y)) => x == y,
        (Err(_), Err(_)) => true,
        _ => false,
    }
}

/// An explicit order reads its numbers in that order: a calendar date written day, month,
/// year with `dmy`, month, day, year with `mdy`, year, month, day with `ymd` or year, day,
/// month with `ydm` (two-digit day and month, four-digit year, joined by one of `.`, `/`,
/// `-`) reads as the same date as its `YYYY-MM-DD` text.
pub proof fn lemma_explicit_orders_read_the_same_date(y: nat, m: nat, d: nat, sep: char)
    requires
        y <= 9999,
        is_calendar_date(y as int, m as int, d as int),
        is_date_mark(sep),
    ensures
        same_reading(
            normalized_date(two_digits(d) + seq![sep] + two_digits(m) + seq![sep] + year_text(y), Some("dmy"@)),
            normalized_date(iso_date_text(y, m, d), None),
        ),
        same_reading(
            normalized_date(two_digits(m) + seq![sep] + two_digits(d) + seq![sep] + year_text(y), Some("mdy"@)),
            normalized_date(iso_date_text(y, m, d), None),
        ),
        same_reading(
            normalized_date(year_text(y) + seq![sep] + two_digits(m) + seq![sep] + two_digits(d), Some("ymd"@)),
            normalized_date(iso_date_text(y, m, d), None),
        ),
        same_reading(
            normalized_date(year_text(y) + seq![sep] + two_digits(d) + seq![sep] + two_digits(m), Some("ydm"@)),
            normalized_date(iso_date_text(y, m, d), None),
        ),
{
    reveal_strlit("dmy");
    reveal_strlit("mdy");
    reveal_strlit("ymd");
    reveal_strlit("ydm");
    assert("dmy"@[0] != "ymd"@[0] && "dmy"@[0] != "ydm"@[0]);
    assert("mdy"@[0] != "ymd"@[0] && "mdy"@[0] != "ydm"@[0] && "mdy"@[0] != "dmy"@[0]);
    assert("ydm"@[1] != "ymd"@[1]);
    lemma_year_text(y);
    lemma_two_digits(m);
    lemma_two_digits(d);
    lemma_iso_date_read(y, m, d);
    let yt = year_text(y);
    let mt = two_digits(m);
    let dt = two_digits(d);
    lemma_three_numbers_read(dt, mt, yt, sep);
    lemma_three_numbers_read(mt, dt, yt, sep);
    lemma_three_numbers_read(yt, mt, dt, sep);
    lemma_three_numbers_read(yt, dt, mt, sep);
}

/// Reads the date cell `value` into `YYYY-MM-DD` form (see `normalized_date`).
pub fn normalize_date(value: &str, format: Option<&str>) -> (r: Result<String, String>)
    ensures
        result_text(r) == normalized_date(value@, format.deep_view()),
        format is None && r is Ok ==> exists|y: int, m: int, d: int|
            0 <= y <= 9999 && is_calendar_date(y, m, d) && r->Ok_0@ == #[trigger] iso_date_text(
                y as nat,
                m as nat,
                d as nat,
            ),
        format is None && is_iso_calendar_date(value@) ==> (r matches Ok(t) && t@ == value@),
{
    proof {
        if format is None && is_iso_calendar_date(value@) {
            let (y, m, d) = choose|y: nat, m: nat, d: nat|
                y <= 9999 && is_calendar_date(y as int, m as int, d as int) && value@ == #[trigger] iso_date_text(y, m, d);
            lemma_iso_date_read(y, m, d);
        }
    }
    let raw = chars_of(value);
    let first = trim_chars(raw.as_slice());
    let marked = replace_kanji_marks(first.as_slice());
    let v = trim_chars(marked.as_slice());
    let pieces = split_date_marks(v.as_slice());
    let ghost spec_pieces = date_pieces(v@);
    assert(pieces@.len() == spec_pieces.len());
    if pieces.len() != 3 {
        return Err(message("Invalid date format: ", v.as_slice()));
    }
    assert(pieces@[0]@ == spec_pieces[0]);
    assert(pieces@[1]@ == spec_pieces[1]);
    assert(pieces@[2]@ == spec_pieces[2]);
    let p0 = parse_u32(pieces[0].as_slice());
    let p1 = parse_u32(pieces[1].as_slice());
    let p2 = parse_u32(pieces[2].as_slice());
    let (n0, n1, n2) = match (p0, p1, p2) {
        (Some(a), Some(b), Some(c)) => (a, b, c),
        _ => {
            return Err(message("Invalid date format: ", v.as_slice()));
        },
    };
    let year_first = pieces[0].len() == 4;
    if !year_first && pieces[2].len() != 4 {
        return Err(message("Invalid date format: ", v.as_slice()));
    }
    let (year, month, day) = match format {
        Some(f) => {
            let fc = chars_of(f);
            let ymd = chars_of("ymd");
            let ydm = chars_of("ydm");
            let dmy = chars_of("dmy");
            let mdy = chars_of("mdy");
            if chars_eq(fc.as_slice(), ymd.as_slice()) {
                (n0, n1, n2)
            } else if chars_eq(fc.as_slice(), ydm.as_slice()) {
                (n0, n2, n1)
            } else if chars_eq(fc.as_slice(), dmy.as_slice()) {
                (n2, n1, n0)
            } else if chars_eq(fc.as_slice(), mdy.as_slice()) {
                (n2, n0, n1)
            } else {
                return Err(message("Unknown date format: ", fc.as_slice()));
            }
        },
        None => {
            if year_first {
                if 12 < n1 && n1 <= 31 {
                    (n0, n2, n1)
                } else {
                    (n0, n1, n2)
                }
            } else {
                if 12 < n1 && n1 <= 31 {
                    (n2, n0, n1)
                } else {
                    (n2, n1, n0)
                }
            }
        },
    };
    proof {
        if format is None {
            if year_first {
                crate::text::lemma_four_characters_below_10000(pieces@[0]@);
            } else {
                crate::text::lemma_four_characters_below_10000(pieces@[2]@);
            }
            assert(year < 10000);
        }
    }
    match format_calendar_date(year as i32, month, day) {
        Some(t) => Ok(t),
        None => Err(message("Invalid date value: ", v.as_slice())),
    }
}

/// Reads a date cell the way the column suggestions test it (see `normalize_date`).
pub fn parse_date(value: &str, format: Option<&str>) -> (r: Result<String, String>)
    ensures
        result_text(r) == normalized_date(value@, format.deep_view()),
{
    normalize_date(value, format)
}

/// The date `delta` months after `y-m-d` (before it for a negative `delta`), on the same day
/// or the last day of a shorter month; `None` outside chrono's range of years.
pub open spec fn month_shifted(y: int, m: int, d: int, delta: int) -> Option<(int, int, int)> {
    let total = y * 12 + (m - 1) + delta;
    let ny = total / 12;
    let nm = total % 12 + 1;
    let nd = if d <= days_in_month(ny, nm) {
        d
    } else {
        days_in_month(ny, nm)
    };
    if -262143 <= ny <= 262142 {
        Some((ny, nm, nd))
    } else {
        None
    }
}

/// The calendar date after `y-m-d`; `None` after chrono's last date.
pub open spec fn day_after(y: int, m: int, d: int) -> Option<(int, int, int)> {
    if d < days_in_month(y, m) {
        Some((y, m, d + 1))
    } else if m < 12 {
        Some((y, m + 1, 1))
    } else if y < 262142 {
        Some((y + 1, 1, 1))
    } else {
        None
    }
}

/// A date as plain values, `None` kept as `None`.
pub open spec fn ymd_view(d: Option<(i32, u32, u32)>) -> Option<(int, int, int)> {
    match d {
        Some((y, m, dd)) => Some((y as int, m as int, dd as int)),
        None => None,
    }
}

/// What `chrono::NaiveDate::parse_from_str(text, format)` reads, as year, month and day.
pub uninterp spec fn chrono_parsed_date(text: Seq<char>, format: Seq<char>) -> Option<(i32, u32, u32)>;

/// `chrono::NaiveDate::parse_from_str`: the date that `text` holds in `format`, as its year,
/// month and day; a date chrono gives back is always a calendar date. Which texts a format
/// accepts is left to `chrono_parsed_date`.
#[verifier::external_body]
fn parse_date_text(text: &str, format: &str) -> (r: Option<(i32, u32, u32)>)
    ensures
        r == chrono_parsed_date(text@, format@),
        r matches Some((y, m, d)) ==> is_calendar_date(y as int, m as int, d as int),
{
    chrono::NaiveDate::parse_from_str(text, format).ok().map(
        |date| (chrono::Datelike::year(&date), chrono::Datelike::month(&date), chrono::Datelike::day(&date)),
    )
}

/// `chrono::NaiveDate::checked_add_months`: the date `months` months after `y-m-d`, on the
/// same day or the last day of a shorter month, `None` when it is out of range.
#[verifier::external_body]
fn add_months(year: i32, month: u32, day: u32, months: u32) -> (r: Option<(i32, u32, u32)>)
    requires
        is_calendar_date(year as int, month as int, day as int),
    ensures
        ymd_view(r) == month_shifted(year as int, month as int, day as int, months as int),
{
    chrono::NaiveDate::from_ymd_opt(year, month, day)
        .and_then(|date| date.checked_add_months(chrono::Months::new(months)))
        .map(|date| (chrono::Datelike::year(&date), chrono::Datelike::month(&date), chrono::Datelike::day(&date)))
}

/// `chrono::NaiveDate::checked_sub_months`: the date `months` months before `y-m-d`, on the
/// same day or the last day of a shorter month, `None` when it is out of range.
#[verifier::external_body]
fn sub_months(year: i32, month: u32, day: u32, months: u32) -> (r: Option<(i32, u32, u32)>)
    requires
        is_calendar_date(year as int, month as int, day as int),
    ensures
        ymd_view(r) == month_shifted(year as int, month as int, day as int, -(months as int)),
{
    chrono::NaiveDate::from_ymd_opt(year, month, day)
        .and_then(|date| date.checked_sub_months(chrono::Months::new(months)))
        .map(|date| (chrono::Datelike::year(&date), chrono::Datelike::month(&date), chrono::Datelike::day(&date)))
}

/// `chrono::NaiveDate::succ_opt`: the next calendar date, `None` after the last one.
#[verifier::external_body]
fn next_day(year: i32, month: u32, day: u32) -> (r: Option<(i32, u32, u32)>)
    requires
        is_calendar_date(year as int, month as int, day as int),
    ensures
        ymd_view(r) == day_after(year as int, month as int, day as int),
{
    chrono::NaiveDate::from_ymd_opt(year, month, day)
        .and_then(|date| date.succ_opt())
        .map(|date| (chrono::Datelike::year(&date), chrono::Datelike::month(&date), chrono::Datelike::day(&date)))
}

/// The date `y-m-d` as chrono writes it (`Display`, the same as `"%Y-%m-%d"`).
pub open spec fn date_text(d: (i32, u32, u32)) -> Seq<char> {
    match chrono_date_text(d.0, d.1, d.2) {
        Some(t) => t,
        None => Seq::empty(),
    }
}

fn write_date(d: (i32, u32, u32)) -> (r: String)
    ensures
        r@ == date_text(d),
{
    match format_calendar_date(d.0, d.1, d.2) {
        Some(t) => t,
        None => String::new(),
    }
}

/// The date `delta` months after `d` (before it when `delta` is negative).
pub open spec fn shifted(d: (i32, u32, u32), delta: int) -> Option<(int, int, int)> {
    month_shifted(d.0 as int, d.1 as int, d.2 as int, delta)
}

/// A date of plain values back to the form chrono's values take.
pub open spec fn as_ymd(d: (int, int, int)) -> (i32, u32, u32) {
    (d.0 as i32, d.1 as u32, d.2 as u32)
}

/// The days a date filter makes the chart cover, from the first day to the day after the
/// last: a month (`YYYY-MM`) covers that month, a day (`YYYY-MM-DD`) the twelve months up to
/// that day; `None` for any other filter or where those dates do not exist.
pub open spec fn filter_interval(date: Seq<char>) -> Option<(Seq<char>, Seq<char>)> {
    let fmt = "%Y-%m-%d"@;
    if crate::text::utf8_len(date) == 7 {
        match chrono_parsed_date(date + "-01"@, fmt) {
            Some(start) => match shifted(start, 1) {
                Some(end) => Some((date_text(start), date_text(as_ymd(end)))),
                None => None,
            },
            None => None,
        }
    } else if crate::text::utf8_len(date) == 10 {
        match chrono_parsed_date(date, fmt) {
            Some(end) => match (shifted(end, -12), day_after(end.0 as int, end.1 as int, end.2 as int)) {
                (Some(start), Some(after)) => Some((date_text(as_ymd(start)), date_text(as_ymd(after)))),
                _ => None,
            },
            None => None,
        }
    } else {
        None
    }
}

/// The days the chart covers without a usable filter: the twelve months up to the report
/// month (`YYYY-MM`), or two empty texts where those dates do not exist.
pub open spec fn report_interval(report_month: Seq<char>) -> (Seq<char>, Seq<char>) {
    match chrono_parsed_date(report_month + "-01"@, "%Y-%m-%d"@) {
        Some(start) => match (shifted(start, -11), shifted(start, 1)) {
            (Some(from), Some(to)) => (date_text(as_ymd(from)), date_text(as_ymd(to))),
            _ => (Seq::empty(), Seq::empty()),
        },
        None => (Seq::empty(), Seq::empty()),
    }
}

/// The days the dashboard chart covers: those of the date filter where it gives some,
/// else those of the report month.
pub open spec fn chart_interval_of(report_month: Seq<char>, date_filter: Option<Seq<char>>) -> (Seq<char>, Seq<char>) {
    match date_filter {
        Some(date) => match filter_interval(date) {
            Some(r) => r,
            None => report_interval(report_month),
        },
        None => report_interval(report_month),
    }
}

fn month_start(month: &str) -> (r: Option<(i32, u32, u32)>)
    ensures
        r == chrono_parsed_date(month@ + "-01"@, "%Y-%m-%d"@),
        r matches Some((y, m, d)) ==> is_calendar_date(y as int, m as int, d as int),
{
    let text = crate::text::concat(month, "-01");
    parse_date_text(text.as_str(), "%Y-%m-%d")
}

fn interval_from_filter(date: &str) -> (r: Option<(String, String)>)
    ensures
        match filter_interval(date@) {
            Some((a, b)) => r matches Some((x, y)) && x@ == a && y@ == b,
            None => r is None,
        },
{
    let n = crate::text::byte_len(date);
    if n == 7 {
        match month_start(date) {
            Some(start) => match add_months(start.0, start.1, start.2, 1) {
                Some(end) => Some((write_date(start), write_date(end))),
                None => None,
            },
            None => None,
        }
    } else if n == 10 {
        match parse_date_text(date, "%Y-%m-%d") {
            Some(end) => {
                let start = sub_months(end.0, end.1, end.2, 12);
                let after = next_day(end.0, end.1, end.2);
                match (start, after) {
                    (Some(s), Some(a)) => Some((write_date(s), write_date(a))),
                    _ => None,
                }
            },
            None => None,
        }
    } else {
        None
    }
}

fn interval_from_report(report_month: &str) -> (r: (String, String))
    ensures
        r.0@ == report_interval(report_month@).0,
        r.1@ == report_interval(report_month@).1,
{
    match month_start(report_month) {
        Some(start) => {
            let from = sub_months(start.0, start.1, start.2, 11);
            let to = add_months(start.0, start.1, start.2, 1);
            match (from, to) {
                (Some(f), Some(t)) => (write_date(f), write_date(t)),
                _ => (String::new(), String::new()),
            }
        },
        None => (String::new(), String::new()),
    }
}

/// The first day the dashboard chart covers and the day after its last (see
/// `chart_interval_of`).
pub fn chart_interval(report_month: &str, date_filter: Option<&str>) -> (r: (String, String))
    ensures
        r.0@ == chart_interval_of(report_month@, date_filter.deep_view()).0,
        r.1@ == chart_interval_of(report_month@, date_filter.deep_view()).1,
{
    match date_filter {
        Some(date) => match interval_from_filter(date) {
            Some(r) => r,
            None => interval_from_report(report_month),
        },
        None => interval_from_report(report_month),
    }
}

} // verus!
