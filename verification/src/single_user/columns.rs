//! Column lookup and date reading shared by the single-user statement importers.

use crate::model::csv::{find_last, last_index_of};
use crate::model::dates::result_text;
use crate::text::{
    char_runs, chars_of, owned, push_all, push_str, text_of, texts, trim_chars, trimmed, utf8_len,
};
use vstd::prelude::*;

verus! {

/// The value of the column named `column` in `record`: the column is the last one headed
/// exactly `column`; the value is the field at its index, untrimmed.
pub open spec fn lookup_value(headers: Seq<Seq<char>>, record: Seq<Seq<char>>, column: Option<Seq<char>>) -> Result<
    Seq<char>,
    Seq<char>,
> {
    match column {
        None => Err("Can't lookup value without column name"@),
        Some(c) => match last_index_of(headers, c) {
            Some(i) => if i < record.len() {
                Ok(record[i])
            } else {
                Err("Column "@ + c + " not found"@)
            },
            None => Err("Column "@ + c + " not found"@),
        },
    }
}

/// The trimmed value of the column named `column` in `record`, which must not be blank.
pub open spec fn lookup_non_empty(headers: Seq<Seq<char>>, record: Seq<Seq<char>>, column: Option<Seq<char>>) -> Result<
    Seq<char>,
    Seq<char>,
> {
    match lookup_value(headers, record, column) {
        Ok(v) => if trimmed(v).len() == 0 {
            Err("Column "@ + column->0 + " is empty"@)
        } else {
            Ok(trimmed(v))
        },
        Err(e) => Err(e),
    }
}

proof fn lemma_last_index_in_range(headers: Seq<Seq<char>>, name: Seq<char>)
    ensures
        last_index_of(headers, name) matches Some(i) ==> 0 <= i < headers.len(),
    decreases headers.len(),
{
    if headers.len() > 0 {
        lemma_last_index_in_range(headers.drop_last(), name);
    }
}

fn missing_column(column: &str, tail: &str) -> (r: String)
    ensures
        r@ == "Column "@ + column@ + tail@,
{
    let mut m = chars_of("Column ");
    push_str(&mut m, column);
    push_str(&mut m, tail);
    text_of(m.as_slice())
}

/// The value of `column` in `record` (see `lookup_value`).
pub fn column_value(headers: &Vec<String>, record: &Vec<String>, column: Option<&str>) -> (r: Result<String, String>)
    ensures
        result_text(r) == lookup_value(texts(headers@), texts(record@), column.deep_view()),
{
    let c = match column {
        Some(c) => c,
        None => {
            return Err(owned("Can't lookup value without column name"));
        },
    };
    let name = chars_of(c);
    match find_last(headers, name.as_slice()) {
        Some(i) => {
            proof {
                lemma_last_index_in_range(texts(headers@), c@);
            }
            if i < record.len() {
                return Ok(record[i].clone());
            }
        },
        None => {},
    }
    Err(missing_column(c, " not found"))
}

/// The trimmed, non-blank value of `column` in `record` (see `lookup_non_empty`).
pub fn non_empty_column_value(headers: &Vec<String>, record: &Vec<String>, column: Option<&str>) -> (r: Result<String, String>)
    ensures
        result_text(r) == lookup_non_empty(texts(headers@), texts(record@), column.deep_view()),
{
    let v = column_value(headers, record, column)?;
    let t = crate::text::trimmed_text(&v);
    if t.as_str().is_empty() {
        match column {
            Some(c) => Err(missing_column(c, " is empty")),
            None => Err(owned("Can't lookup value without column name")),
        }
    } else {
        Ok(t)
    }
}

/// The pieces of `s` between the occurrences of `sep`, as `str::split` gives them.
pub open spec fn split_on(s: Seq<char>, sep: char) -> Seq<Seq<char>>
    decreases s.len(),
{
    if s.len() == 0 {
        seq![Seq::empty()]
    } else {
        let init = split_on(s.drop_last(), sep);
        if s.last() == sep {
            init.push(Seq::empty())
        } else {
            init.update(init.len() - 1, init.last().push(s.last()))
        }
    }
}

proof fn lemma_split_on_nonempty(s: Seq<char>, sep: char)
    ensures
        split_on(s, sep).len() >= 1,
    decreases s.len(),
{
    if s.len() > 0 {
        lemma_split_on_nonempty(s.drop_last(), sep);
    }
}

/// The pieces of `s` between the occurrences of `sep`.
pub fn split_chars(s: &[char], sep: char) -> (r: Vec<Vec<char>>)
    ensures
        char_runs(r@) == split_on(s@, sep),
{
    let mut parts: Vec<Vec<char>> = Vec::new();
    let mut cur: Vec<char> = Vec::new();
    let mut i: usize = 0;
    while i < s.len()
        invariant
            i <= s@.len(),
            char_runs(parts@).push(cur@) == split_on(s@.subrange(0, i as int), sep),
        decreases s@.len() - i,
    {
        let c = s[i];
        let ghost pre = s@.subrange(0, i as int);
        let ghost prev_parts = parts@;
        let ghost prev_cur = cur@;
        assert(s@.subrange(0, i + 1).drop_last() =~= pre);
        proof {
            lemma_split_on_nonempty(pre, sep);
        }
        if c == sep {
            let done = cur;
            parts.push(done);
            cur = Vec::new();
            assert(char_runs(parts@) =~= char_runs(prev_parts).push(prev_cur));
            assert(char_runs(parts@).push(cur@) =~= split_on(pre, sep).push(Seq::empty()));
        } else {
            cur.push(c);
            assert(char_runs(parts@).push(cur@) =~= split_on(pre, sep).update(
                split_on(pre, sep).len() - 1,
                split_on(pre, sep).last().push(c),
            ));
        }
        i = i + 1;
    }
    assert(s@.subrange(0, s@.len() as int) =~= s@);
    let ghost prev_parts = parts@;
    parts.push(cur);
    assert(char_runs(parts@) =~= char_runs(prev_parts).push(cur@));
    parts
}

/// `s` padded on the left with `'0'` to two characters (`format!("{:0>2}", s)`).
pub open spec fn zero_padded(s: Seq<char>) -> Seq<char> {
    if s.len() >= 2 {
        s
    } else if s.len() == 1 {
        seq!['0'] + s
    } else {
        seq!['0', '0']
    }
}

/// A statement date as the single-user importers read it: `YYYY/M/D` becomes `YYYY-MM-DD`, a ten-byte text with
/// a `'-'` is kept, anything else is refused.
pub open spec fn slash_date(value: Seq<char>) -> Result<Seq<char>, Seq<char>> {
    let t = trimmed(value);
    let parts = split_on(t, '/');
    if t.contains('/') && parts.len() == 3 {
        Ok(parts[0] + seq!['-'] + zero_padded(parts[1]) + seq!['-'] + zero_padded(parts[2]))
    } else if t.contains('-') && utf8_len(t) == 10 {
        Ok(t)
    } else {
        Err("Invalid date format: '"@ + t + "'. Expected YYYY-MM-DD or YYYY/MM/DD"@)
    }
}

fn push_zero_padded(out: &mut Vec<char>, s: &[char])
    ensures
        final(out)@ == old(out)@ + zero_padded(s@),
{
    if s.len() == 0 {
        out.push('0');
        out.push('0');
    } else if s.len() == 1 {
        out.push('0');
        out.push(s[0]);
        assert(s@ =~= seq![s@[0]]);
    } else {
        push_all(out, s);
    }
}

fn has_char(s: &[char], c: char) -> (b: bool)
    ensures
        b == s@.contains(c),
{
    let mut i: usize = 0;
    while i < s.len()
        invariant
            i <= s@.len(),
            forall|k: int| 0 <= k < i ==> s@[k] != c,
        decreases s@.len() - i,
    {
        if s[i] == c {
            return true;
        }
        i = i + 1;
    }
    false
}

/// Reads a statement date as the single-user importers do (see `slash_date`).
pub fn normalize_date(value: &str) -> (r: Result<String, String>)
    ensures
        result_text(r) == slash_date(value@),
{
    let raw = chars_of(value);
    let t = trim_chars(raw.as_slice());
    let parts = split_chars(t.as_slice(), '/');
    let ghost sp = split_on(t@, '/');
    assert(parts@.len() == sp.len());
    if has_char(t.as_slice(), '/') && parts.len() == 3 {
        assert(parts@[0]@ == sp[0] && parts@[1]@ == sp[1] && parts@[2]@ == sp[2]);
        let mut out: Vec<char> = Vec::new();
        push_all(&mut out, parts[0].as_slice());
        out.push('-');
        push_zero_padded(&mut out, parts[1].as_slice());
        out.push('-');
        push_zero_padded(&mut out, parts[2].as_slice());
        assert(out@ =~= sp[0] + seq!['-'] + zero_padded(sp[1]) + seq!['-'] + zero_padded(sp[2]));
        return Ok(text_of(out.as_slice()));
    }
    let text = text_of(t.as_slice());
    if has_char(t.as_slice(), '-') && crate::text::byte_len(text.as_str()) == 10 {
        return Ok(text);
    }
    let mut m = chars_of("Invalid date format: '");
    push_all(&mut m, t.as_slice());
    push_str(&mut m, "'. Expected YYYY-MM-DD or YYYY/MM/DD");
    Err(text_of(m.as_slice()))
}

} // verus!
