//! The textual form of a date: canonical `YYYY-MM-DD` output, template
//! formatting, and strict parsing, with the round trip between them.

use vstd::prelude::*;

use crate::date::Date;
use crate::month::{lemma_month_ordinal_round_trip, Month};
use crate::text::{
    all_digits, append_padded, char_digit, dec_val, is_digit, lemma_dec_val_of_padded,
    lemma_dec_val_take_le, lemma_padded_dec_digits, padded_dec, push_char,
};
use crate::year::Year;

verus! {

/// The error of parsing a malformed textual date.
#[derive(Debug, Clone, PartialEq, Eq)]
pub struct ParseDateError {
    pub string: String,
}

/// The canonical text of a date: zero-padded `YYYY-MM-DD`.
pub open spec fn date_text(d: Date) -> Seq<char> {
    padded_dec(d.year.value as nat, 4) + seq!['-'] + padded_dec(d.month.ordinal_spec() as nat, 2)
        + seq!['-'] + padded_dec(d.day as nat, 2)
}

/// The characters of the `{year}` placeholder.
pub open spec fn year_ph() -> Seq<char> {
    seq!['{', 'y', 'e', 'a', 'r', '}']
}

/// The characters of the `{month}` placeholder.
pub open spec fn month_ph() -> Seq<char> {
    seq!['{', 'm', 'o', 'n', 't', 'h', '}']
}

/// The characters of the `{day}` placeholder.
pub open spec fn day_ph() -> Seq<char> {
    seq!['{', 'd', 'a', 'y', '}']
}

/// The template text with every `{year}`, `{month}` and `{day}` placeholder
/// replaced by the zero-padded value; all other text passes through.
pub open spec fn format_spec(t: Seq<char>, d: Date) -> Seq<char>
    decreases t.len(),
{
    if t.len() == 0 {
        Seq::<char>::empty()
    } else if t.len() >= 6 && t.take(6) == year_ph() {
        padded_dec(d.year.value as nat, 4) + format_spec(t.skip(6), d)
    } else if t.len() >= 7 && t.take(7) == month_ph() {
        padded_dec(d.month.ordinal_spec() as nat, 2) + format_spec(t.skip(7), d)
    } else if t.len() >= 5 && t.take(5) == day_ph() {
        padded_dec(d.day as nat, 2) + format_spec(t.skip(5), d)
    } else {
        seq![t[0]] + format_spec(t.skip(1), d)
    }
}

/// The index of the first `'-'` in `s`, or `s.len()` if there is none.
pub open spec fn find_dash(s: Seq<char>) -> int
    decreases s.len(),
{
    if s.len() == 0 {
        0
    } else if s[0] == '-' {
        0
    } else {
        1 + find_dash(s.skip(1))
    }
}

/// The three hyphen-separated fields of `s`, or `None` unless `s` consists of
/// exactly three fields.
pub open spec fn split3(s: Seq<char>) -> Option<(Seq<char>, Seq<char>, Seq<char>)> {
    let i = find_dash(s);
    if i == s.len() {
        None
    } else {
        let rest = s.skip(i + 1);
        let j = find_dash(rest);
        if j == rest.len() {
            None
        } else {
            let p3 = rest.skip(j + 1);
            if find_dash(p3) != p3.len() {
                None
            } else {
                Some((s.take(i), rest.take(j), p3))
            }
        }
    }
}

/// What parsing accepts: exactly three hyphen-separated all-digit fields
/// whose values name a valid calendar date. Anything else is rejected.
pub open spec fn parse_spec(s: Seq<char>) -> Option<Date> {
    match split3(s) {
        None => None,
        Some((p1, p2, p3)) => {
            if all_digits(p1) && all_digits(p2) && all_digits(p3) && dec_val(p1) <= usize::MAX
                && 1 <= dec_val(p2) <= 12 && dec_val(p3) <= usize::MAX {
                let d = Date {
                    year: Year { value: dec_val(p1) as usize },
                    month: Month::from_ordinal_spec(dec_val(p2) as int),
                    day: dec_val(p3) as usize,
                };
                if d.valid_spec() {
                    Some(d)
                } else {
                    None
                }
            } else {
                None
            }
        },
    }
}

impl crate::date::InvalidDate {
    /// The error's text: the rejected date in canonical form, marked invalid.
    pub fn message(&self) -> (r: String)
        ensures
            r@ == date_text(Date { year: self.year, month: self.month, day: self.day })
                + ": not a valid date"@,
    {
        let d = Date { year: self.year, month: self.month, day: self.day };
        let mut out = d.display();
        out.append(": not a valid date");
        out
    }
}

impl ParseDateError {
    /// The error's text: the rejected input and the expected shape.
    pub fn message(&self) -> (r: String)
        ensures
            r@ == "`"@ + self.string@ + "`: not a valid date, format must be `YYYY-MM-DD`"@,
    {
        let mut out = String::from_str("`");
        out.append(self.string.as_str());
        out.append("`: not a valid date, format must be `YYYY-MM-DD`");
        out
    }
}

/// Taking `n` characters after skipping `i` is the subrange from `i` of
/// length `n`, and skipping twice adds the skips up.
pub proof fn lemma_skip_take_subrange(s: Seq<char>, i: int, n: int)
    requires
        0 <= i,
        0 <= n,
        i + n <= s.len(),
    ensures
        s.skip(i).take(n) == s.subrange(i, i + n),
        s.skip(i).skip(n) == s.skip(i + n),
{
    assert(s.skip(i).take(n) =~= s.subrange(i, i + n)) by {
        assert(forall|k: int| 0 <= k < n ==> #[trigger] s.skip(i).take(n)[k] == s[i + k]);
        assert(forall|k: int| 0 <= k < n ==> #[trigger] s.subrange(i, i + n)[k] == s[i + k]);
    }
    assert(s.skip(i).skip(n) =~= s.skip(i + n)) by {
        assert(forall|k: int|
            0 <= k < s.len() - i - n ==> #[trigger] s.skip(i).skip(n)[k] == s[i + n + k]);
    }
}

/// If the first `i` characters of `s` are not dashes, and the character at
/// `i` is a dash or the end, then `i` is where the first dash is found.
pub proof fn lemma_find_dash_is(s: Seq<char>, i: int)
    requires
        0 <= i <= s.len(),
        forall|k: int| 0 <= k < i ==> s[k] != '-',
        i < s.len() ==> s[i] == '-',
    ensures
        find_dash(s) == i,
    decreases i,
{
    if s.len() == 0 || i == 0 {
    } else {
        assert(forall|k: int| 0 <= k < i - 1 ==> s.skip(1)[k] == s[k + 1]);
        lemma_find_dash_is(s.skip(1), i - 1);
    }
}

impl Date {
    /// The canonical display text of this date: zero-padded `YYYY-MM-DD`.
    pub fn display(&self) -> (r: String)
        ensures
            r@ == date_text(*self),
    {
        let mut out = String::new();
        append_padded(&mut out, self.year.as_usize(), 4);
        push_char(&mut out, '-');
        append_padded(&mut out, self.month.as_usize(), 2);
        push_char(&mut out, '-');
        append_padded(&mut out, self.day, 2);
        proof {
            assert(out@ =~= date_text(*self));
        }
        out
    }

    /// The template with `{year}`, `{month}` and `{day}` replaced by this
    /// date's zero-padded 4/2/2-digit values; unknown placeholders and all
    /// other text pass through unchanged.
    pub fn formatted(&self, f: &str) -> (r: String)
        ensures
            r@ == format_spec(f@, *self),
    {
        let len = f.unicode_len();
        let mut out = String::new();
        let mut i: usize = 0;
        proof {
            assert(f@.skip(0) =~= f@);
            assert(out@ + format_spec(f@, *self) =~= format_spec(f@, *self));
        }
        while i < len
            invariant
                i <= len == f@.len(),
                format_spec(f@, *self) == out@ + format_spec(f@.skip(i as int), *self),
            decreases len - i,
        {
            let ghost t = f@.skip(i as int);
            proof {
                reveal_strlit("{year}");
                reveal_strlit("{month}");
                reveal_strlit("{day}");
                assert("{year}"@ =~= year_ph());
                assert("{month}"@ =~= month_ph());
                assert("{day}"@ =~= day_ph());
                assert(t.len() == len - i);
            }
            if matches_at(f, i, "{year}") {
                proof {
                    lemma_skip_take_subrange(f@, i as int, 6);
                }
                append_padded(&mut out, self.year.as_usize(), 4);
                i = i + 6;
            } else if matches_at(f, i, "{month}") {
                proof {
                    lemma_skip_take_subrange(f@, i as int, 6);
                    lemma_skip_take_subrange(f@, i as int, 7);
                }
                append_padded(&mut out, self.month.as_usize(), 2);
                i = i + 7;
            } else if matches_at(f, i, "{day}") {
                proof {
                    if i + 6 <= len {
                        lemma_skip_take_subrange(f@, i as int, 6);
                    }
                    if i + 7 <= len {
                        lemma_skip_take_subrange(f@, i as int, 7);
                    }
                    lemma_skip_take_subrange(f@, i as int, 5);
                }
                append_padded(&mut out, self.day, 2);
                i = i + 5;
            } else {
                proof {
                    if i + 6 <= len {
                        lemma_skip_take_subrange(f@, i as int, 6);
                    }
                    if i + 7 <= len {
                        lemma_skip_take_subrange(f@, i as int, 7);
                    }
                    if i + 5 <= len {
                        lemma_skip_take_subrange(f@, i as int, 5);
                    }
                    assert(t[0] == f@[i as int]);
                    lemma_skip_take_subrange(f@, i as int, 1);
                    assert(seq![t[0]] =~= f@.subrange(i as int, i as int + 1));
                }
                let c = f.get_char(i);
                push_char(&mut out, c);
                i = i + 1;
            }
        }
        proof {
            assert(f@.skip(len as int) =~= Seq::<char>::empty());
        }
        out
    }

    /// Parses strict `YYYY-MM-DD` text: exactly three hyphen-separated
    /// all-digit fields naming a valid calendar date. Any other shape, any
    /// non-digit field, and any calendrically invalid date is rejected with
    /// `ParseDateError` carrying the offending text.
    #[verifier::rlimit(60)]
    pub fn parse(s: &str) -> (r: Result<Date, ParseDateError>)
        ensures
            r is Ok <==> parse_spec(s@) is Some,
            r is Ok ==> parse_spec(s@) == Some(r->Ok_0) && r->Ok_0.valid_spec(),
            r is Err ==> r->Err_0.string@ == s@,
    {
        proof {
            assert(s@.skip(0) =~= s@);
        }
        let len = s.unicode_len();
        let i1 = find_dash_from(s, 0);
        if i1 == len {
            return Err(ParseDateError { string: s.to_owned() });
        }
        let ghost rest = s@.skip(i1 + 1);
        let i2 = find_dash_from(s, i1 + 1);
        proof {
            assert(find_dash(rest) == i2 - (i1 + 1));
            if i2 == len {
                assert(find_dash(rest) == rest.len());
            }
        }
        if i2 == len {
            return Err(ParseDateError { string: s.to_owned() });
        }
        let ghost p3 = rest.skip(i2 - i1);
        let i3 = find_dash_from(s, i2 + 1);
        proof {
            assert(p3 =~= s@.skip(i2 + 1));
            assert(find_dash(p3) == i3 - (i2 + 1));
            assert(p3.len() == len - (i2 + 1));
        }
        if i3 != len {
            return Err(ParseDateError { string: s.to_owned() });
        }
        proof {
            assert(s@.take(i1 as int) =~= s@.subrange(0, i1 as int));
            assert(rest.take(i2 - (i1 + 1)) =~= s@.subrange(i1 as int + 1, i2 as int));
            assert(p3 =~= s@.subrange(i2 as int + 1, len as int));
        }
        let v1 = match parse_field(s, 0, i1) {
            Some(v) => v,
            None => {
                return Err(ParseDateError { string: s.to_owned() });
            },
        };
        let v2 = match parse_field(s, i1 + 1, i2) {
            Some(v) => v,
            None => {
                return Err(ParseDateError { string: s.to_owned() });
            },
        };
        let v3 = match parse_field(s, i2 + 1, len) {
            Some(v) => v,
            None => {
                return Err(ParseDateError { string: s.to_owned() });
            },
        };
        let month = match Month::from_ordinal(v2) {
            Some(m) => m,
            None => {
                return Err(ParseDateError { string: s.to_owned() });
            },
        };
        match Date::new(Year::new(v1), month, v3) {
            Ok(d) => Ok(d),
            Err(_) => Err(ParseDateError { string: s.to_owned() }),
        }
    }
}

/// The index of the first `'-'` at or after `start`, or the text's length if
/// there is none.
fn find_dash_from(s: &str, start: usize) -> (r: usize)
    requires
        start <= s@.len(),
    ensures
        start <= r <= s@.len(),
        r - start == find_dash(s@.skip(start as int)),
        r < s@.len() ==> s@[r as int] == '-',
        forall|k: int| start <= k < r ==> s@[k] != '-',
{
    let len = s.unicode_len();
    let mut i = start;
    while i < len
        invariant
            start <= i <= len == s@.len(),
            forall|k: int| start <= k < i ==> s@[k] != '-',
        decreases len - i,
    {
        let c = s.get_char(i);
        if c == '-' {
            proof {
                assert(forall|k: int| 0 <= k < i - start ==> s@.skip(start as int)[k] == s@[k
                    + start]);
                lemma_find_dash_is(s@.skip(start as int), i - start);
            }
            return i;
        }
        i = i + 1;
    }
    proof {
        assert(forall|k: int| 0 <= k < len - start ==> s@.skip(start as int)[k] == s@[k + start]);
        lemma_find_dash_is(s@.skip(start as int), len - start);
    }
    len
}

/// Whether the text at position `i` of `s` begins with the pattern.
fn matches_at(s: &str, i: usize, pat: &str) -> (r: bool)
    requires
        i <= s@.len(),
    ensures
        r == (i + pat@.len() <= s@.len() && s@.subrange(i as int, i as int + pat@.len() as int)
            == pat@),
{
    let len = s.unicode_len();
    let plen = pat.unicode_len();
    if plen > len - i {
        return false;
    }
    let mut j: usize = 0;
    while j < plen
        invariant
            j <= plen,
            i + plen <= len,
            len == s@.len(),
            plen == pat@.len(),
            forall|k: int| 0 <= k < j ==> s@[i + k] == pat@[k],
        decreases plen - j,
    {
        let a = s.get_char(i + j);
        let b = pat.get_char(j);
        if a != b {
            proof {
                assert(s@.subrange(i as int, i as int + pat@.len() as int)[j as int] != pat@[
                    j as int]);
            }
            return false;
        }
        j = j + 1;
    }
    proof {
        assert(s@.subrange(i as int, i as int + pat@.len() as int) =~= pat@);
    }
    true
}

/// The digit value of a character, or `None` if it is not a digit.
fn char_to_digit(c: char) -> (r: Option<usize>)
    ensures
        r is Some <==> is_digit(c),
        r is Some ==> r->0 == char_digit(c),
{
    match c {
        '0' => Some(0),
        '1' => Some(1),
        '2' => Some(2),
        '3' => Some(3),
        '4' => Some(4),
        '5' => Some(5),
        '6' => Some(6),
        '7' => Some(7),
        '8' => Some(8),
        '9' => Some(9),
        _ => None,
    }
}

/// The numeric value of the text between `start` and `end`, or `None` where
/// the range is empty, holds a non-digit, or names a value too large for
/// `usize`.
fn parse_field(s: &str, start: usize, end: usize) -> (r: Option<usize>)
    requires
        start <= end <= s@.len(),
    ensures
        r is Some <==> (all_digits(s@.subrange(start as int, end as int)) && dec_val(
            s@.subrange(start as int, end as int),
        ) <= usize::MAX),
        r is Some ==> r->0 == dec_val(s@.subrange(start as int, end as int)),
{
    let ghost sub = s@.subrange(start as int, end as int);
    if start == end {
        return None;
    }
    let mut acc: usize = 0;
    let mut k = start;
    while k < end
        invariant
            start <= k <= end <= s@.len(),
            sub == s@.subrange(start as int, end as int),
            forall|j: int| start <= j < k ==> is_digit(#[trigger] s@[j]),
            acc == dec_val(s@.subrange(start as int, k as int)),
        decreases end - k,
    {
        let ghost prefix = s@.subrange(start as int, k as int);
        let ghost next = s@.subrange(start as int, k as int + 1);
        proof {
            assert(next.drop_last() =~= prefix);
            assert(next.last() == s@[k as int]);
            assert(sub.take(k - start + 1) =~= next);
        }
        let c = s.get_char(k);
        let d = match char_to_digit(c) {
            Some(d) => d,
            None => {
                proof {
                    assert(sub[k - start] == s@[k as int]);
                    assert(!all_digits(sub));
                }
                return None;
            },
        };
        let m = match acc.checked_mul(10) {
            Some(m) => m,
            None => {
                proof {
                    lemma_dec_val_take_le(sub, k - start + 1);
                    assert(dec_val(next) > usize::MAX);
                }
                return None;
            },
        };
        let a2 = match m.checked_add(d) {
            Some(a2) => a2,
            None => {
                proof {
                    lemma_dec_val_take_le(sub, k - start + 1);
                    assert(dec_val(next) > usize::MAX);
                }
                return None;
            },
        };
        acc = a2;
        k = k + 1;
    }
    proof {
        assert(sub =~= s@.subrange(start as int, k as int));
        assert(forall|j: int| 0 <= j < sub.len() ==> sub[j] == s@[j + start]);
    }
    Some(acc)
}

/// Parsing the canonical text of a valid date yields the date back: the
/// parse/format round trip.
pub proof fn lemma_parse_of_display(d: Date)
    requires
        d.valid_spec(),
    ensures
        parse_spec(date_text(d)) == Some(d),
{
    let a = padded_dec(d.year.value as nat, 4);
    let b = padded_dec(d.month.ordinal_spec() as nat, 2);
    let c = padded_dec(d.day as nat, 2);
    let s = date_text(d);
    lemma_padded_dec_digits(d.year.value as nat, 4);
    lemma_padded_dec_digits(d.month.ordinal_spec() as nat, 2);
    lemma_padded_dec_digits(d.day as nat, 2);
    assert(forall|k: int| 0 <= k < a.len() ==> s[k] == a[k]);
    assert(s[a.len() as int] == '-');
    assert(forall|k: int| 0 <= k < a.len() ==> s[k] != '-');
    lemma_find_dash_is(s, a.len() as int);
    let rest = s.skip(a.len() as int + 1);
    assert(rest =~= b + seq!['-'] + c);
    assert(forall|k: int| 0 <= k < b.len() ==> rest[k] == b[k] && rest[k] != '-');
    assert(rest[b.len() as int] == '-');
    lemma_find_dash_is(rest, b.len() as int);
    let p3 = rest.skip(b.len() as int + 1);
    assert(p3 =~= c);
    assert(forall|k: int| 0 <= k < c.len() ==> c[k] != '-');
    lemma_find_dash_is(c, c.len() as int);
    assert(s.take(a.len() as int) =~= a);
    assert(rest.take(b.len() as int) =~= b);
    lemma_dec_val_of_padded(d.year.value as nat, 4);
    lemma_dec_val_of_padded(d.month.ordinal_spec() as nat, 2);
    lemma_dec_val_of_padded(d.day as nat, 2);
    lemma_month_ordinal_round_trip(d.month, d.month.ordinal_spec());
}

} // verus!
