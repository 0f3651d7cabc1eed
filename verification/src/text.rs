//! Decimal text: the digit characters of a number, zero-padding, and the
//! lemmas connecting a digit string back to its value.

use vstd::prelude::*;

verus! {

/// The digit character of a value below ten.
pub open spec fn digit_char(v: int) -> char {
    if v == 0 {
        '0'
    } else if v == 1 {
        '1'
    } else if v == 2 {
        '2'
    } else if v == 3 {
        '3'
    } else if v == 4 {
        '4'
    } else if v == 5 {
        '5'
    } else if v == 6 {
        '6'
    } else if v == 7 {
        '7'
    } else if v == 8 {
        '8'
    } else {
        '9'
    }
}

/// Whether a character is an ASCII decimal digit.
pub open spec fn is_digit(c: char) -> bool {
    c == '0' || c == '1' || c == '2' || c == '3' || c == '4' || c == '5' || c == '6' || c == '7'
        || c == '8' || c == '9'
}

/// The value of a digit character.
pub open spec fn char_digit(c: char) -> int {
    if c == '0' {
        0
    } else if c == '1' {
        1
    } else if c == '2' {
        2
    } else if c == '3' {
        3
    } else if c == '4' {
        4
    } else if c == '5' {
        5
    } else if c == '6' {
        6
    } else if c == '7' {
        7
    } else if c == '8' {
        8
    } else {
        9
    }
}

/// The decimal digit string of `n`, most significant digit first.
pub open spec fn dec_str(n: nat) -> Seq<char>
    decreases n,
{
    if n < 10 {
        seq![digit_char(n as int)]
    } else {
        dec_str(n / 10) + seq![digit_char((n % 10) as int)]
    }
}

/// `k` zero characters.
pub open spec fn zeros(k: nat) -> Seq<char> {
    Seq::new(k, |i: int| '0')
}

/// The decimal digit string of `n`, left-padded with zeros to at least
/// `w` characters.
pub open spec fn padded_dec(n: nat, w: nat) -> Seq<char> {
    if dec_str(n).len() >= w {
        dec_str(n)
    } else {
        zeros((w - dec_str(n).len()) as nat) + dec_str(n)
    }
}

/// Whether a sequence is a non-empty run of digit characters.
pub open spec fn all_digits(s: Seq<char>) -> bool {
    s.len() >= 1 && forall|i: int| 0 <= i < s.len() ==> is_digit(#[trigger] s[i])
}

/// The numeric value of a digit string.
pub open spec fn dec_val(s: Seq<char>) -> nat
    decreases s.len(),
{
    if s.len() == 0 {
        0
    } else {
        dec_val(s.drop_last()) * 10 + char_digit(s.last()) as nat
    }
}

/// Every character of a decimal digit string is a digit, and the string is
/// never empty.
pub proof fn lemma_dec_str_digits(n: nat)
    ensures
        all_digits(dec_str(n)),
    decreases n,
{
    if n >= 10 {
        lemma_dec_str_digits(n / 10);
    }
}

/// A padded decimal string consists of digits only.
pub proof fn lemma_padded_dec_digits(n: nat, w: nat)
    ensures
        all_digits(padded_dec(n, w)),
        padded_dec(n, w).len() >= w,
        padded_dec(n, w).len() >= 1,
{
    lemma_dec_str_digits(n);
}

/// A digit's character carries the digit's value.
pub proof fn lemma_char_digit_of_digit(v: int)
    requires
        0 <= v < 10,
    ensures
        char_digit(digit_char(v)) == v,
        is_digit(digit_char(v)),
{
}

/// The value of a number's digit string is the number itself.
pub proof fn lemma_dec_val_of_dec_str(n: nat)
    ensures
        dec_val(dec_str(n)) == n,
    decreases n,
{
    assert(dec_val(Seq::<char>::empty()) == 0);
    if n < 10 {
        assert(dec_str(n).drop_last() =~= Seq::<char>::empty());
        lemma_char_digit_of_digit(n as int);
        assert(dec_str(n).last() == digit_char(n as int));
        assert(dec_val(dec_str(n)) == dec_val(dec_str(n).drop_last()) * 10 + char_digit(
            dec_str(n).last(),
        ) as nat);
    } else {
        lemma_dec_val_of_dec_str(n / 10);
        vstd::arithmetic::div_mod::lemma_fundamental_div_mod(n as int, 10);
        lemma_char_digit_of_digit((n % 10) as int);
        assert(dec_str(n).drop_last() =~= dec_str(n / 10));
        assert(dec_str(n).last() == digit_char((n % 10) as int));
        assert(dec_val(dec_str(n)) == dec_val(dec_str(n).drop_last()) * 10 + char_digit(
            dec_str(n).last(),
        ) as nat);
    }
}

/// Leading zeros do not change a digit string's value.
pub proof fn lemma_dec_val_zeros_prefix(k: nat, t: Seq<char>)
    ensures
        dec_val(zeros(k) + t) == dec_val(t),
    decreases t.len(),
{
    if t.len() == 0 {
        assert(zeros(k) + t =~= zeros(k));
        lemma_dec_val_zeros(k);
    } else {
        assert((zeros(k) + t).drop_last() =~= zeros(k) + t.drop_last());
        lemma_dec_val_zeros_prefix(k, t.drop_last());
        assert((zeros(k) + t).last() == t.last());
    }
}

/// A run of zero characters has value zero.
pub proof fn lemma_dec_val_zeros(k: nat)
    ensures
        dec_val(zeros(k)) == 0,
    decreases k,
{
    if k > 0 {
        assert(zeros(k).drop_last() =~= zeros((k - 1) as nat));
        lemma_dec_val_zeros((k - 1) as nat);
    }
}

/// The value of a padded decimal string is the number itself.
pub proof fn lemma_dec_val_of_padded(n: nat, w: nat)
    ensures
        dec_val(padded_dec(n, w)) == n,
{
    lemma_dec_val_of_dec_str(n);
    if dec_str(n).len() < w {
        lemma_dec_val_zeros_prefix((w - dec_str(n).len()) as nat, dec_str(n));
    }
}

/// A digit string's value never shrinks when more digits follow it.
pub proof fn lemma_dec_val_take_le(s: Seq<char>, k: int)
    requires
        0 <= k <= s.len(),
    ensures
        dec_val(s.take(k)) <= dec_val(s),
    decreases s.len() - k,
{
    if k < s.len() {
        lemma_dec_val_take_le(s, k + 1);
        assert(s.take(k + 1).drop_last() =~= s.take(k));
        assert(dec_val(s.take(k)) <= dec_val(s.take(k + 1)));
    } else {
        assert(s.take(k) =~= s);
    }
}

/// Relies on `alloc::string::String::push`: appends one character to the
/// string, leaving the rest unchanged.
#[verifier::external_body]
pub fn push_char(s: &mut String, c: char)
    ensures
        final(s)@ == old(s)@ + seq![c],
{
    s.push(c);
}

/// The digit character of a value below ten.
pub fn digit_to_char(v: usize) -> (r: char)
    requires
        v < 10,
    ensures
        r == digit_char(v as int),
{
    match v {
        0 => '0',
        1 => '1',
        2 => '2',
        3 => '3',
        4 => '4',
        5 => '5',
        6 => '6',
        7 => '7',
        8 => '8',
        _ => '9',
    }
}

/// Appends the decimal digits of `n` to `s`.
pub fn append_dec(s: &mut String, n: usize)
    ensures
        final(s)@ == old(s)@ + dec_str(n as nat),
    decreases n,
{
    if n >= 10 {
        append_dec(s, n / 10);
    }
    push_char(s, digit_to_char(n % 10));
    proof {
        assert(old(s)@ + dec_str(n as nat) =~= s@);
    }
}

/// Appends the decimal digits of `n`, left-padded with zeros to at least
/// `width` characters.
pub fn append_padded(s: &mut String, n: usize, width: usize)
    requires
        width <= 8,
    ensures
        final(s)@ == old(s)@ + padded_dec(n as nat, width as nat),
{
    let mut t = String::new();
    append_dec(&mut t, n);
    proof {
        assert(t@ =~= dec_str(n as nat));
    }
    let len = t.as_str().unicode_len();
    let mut i = len;
    while i < width
        invariant
            len <= i,
            len >= width ==> i == len,
            len < width ==> i <= width,
            len == dec_str(n as nat).len(),
            t@ == dec_str(n as nat),
            s@ == old(s)@ + zeros((i - len) as nat),
        decreases width - i,
    {
        push_char(s, '0');
        proof {
            assert(zeros((i + 1 - len) as nat) =~= zeros((i - len) as nat) + seq!['0']);
        }
        i = i + 1;
    }
    s.append(t.as_str());
    proof {
        if len >= width {
            assert(zeros((i - len) as nat) =~= Seq::<char>::empty());
            assert(s@ =~= old(s)@ + padded_dec(n as nat, width as nat));
        } else {
            assert(s@ =~= old(s)@ + padded_dec(n as nat, width as nat));
        }
    }
}

} // verus!
