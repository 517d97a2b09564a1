//! Text helpers: decimal numerals, character replacement, comparison.

use vstd::prelude::*;

verus! {

/// The character of a decimal digit `d < 10`.
pub open spec fn digit_char(d: nat) -> char {
    if d == 0 {
        '0'
    } else if d == 1 {
        '1'
    } else if d == 2 {
        '2'
    } else if d == 3 {
        '3'
    } else if d == 4 {
        '4'
    } else if d == 5 {
        '5'
    } else if d == 6 {
        '6'
    } else if d == 7 {
        '7'
    } else if d == 8 {
        '8'
    } else {
        '9'
    }
}

/// The decimal numeral of `n`, without leading zeros.
pub open spec fn decimal(n: nat) -> Seq<char>
    decreases n,
{
    if n < 10 {
        seq![digit_char(n)]
    } else {
        decimal(n / 10).push(digit_char(n % 10))
    }
}

/// Relies on `String::push`: appends one character.
#[verifier::external_body]
pub(crate) fn push_char(s: &mut String, c: char)
    ensures
        final(s)@ == old(s)@.push(c),
{
    s.push(c);
}

fn digit_to_char(d: u64) -> (c: char)
    requires
        d < 10,
    ensures
        c == digit_char(d as nat),
{
    match d {
        0 => '0',
        1 => '1',
        2 => '2',
        3 => '3',
        4 => '4',
        5 => '5',
        6 => '6',
        7 => '7',
        8 => '8',
        _ => '9',
    }
}

/// Writes `n` in decimal.
pub fn decimal_string(n: u64) -> (r: String)
    ensures
        r@ == decimal(n as nat),
    decreases n,
{
    if n < 10 {
        let mut s = String::new();
        push_char(&mut s, digit_to_char(n));
        s
    } else {
        let mut s = decimal_string(n / 10);
        push_char(&mut s, digit_to_char(n % 10));
        s
    }
}

/// Whether `c` is one of the ASCII digits.
pub open spec fn is_digit(c: char) -> bool {
    '0' <= c && c <= '9'
}

/// Whether `s` is a non-empty run of ASCII digits.
pub open spec fn is_numeral(s: Seq<char>) -> bool {
    s.len() > 0 && forall|i: int| 0 <= i < s.len() ==> is_digit(#[trigger] s[i])
}

/// The value of the digits of `s`, read in base ten.
pub open spec fn numeral_value(s: Seq<char>) -> nat
    decreases s.len(),
{
    if s.len() == 0 {
        0
    } else {
        numeral_value(s.drop_last()) * 10 + (s.last() as int - '0' as int) as nat
    }
}

proof fn lemma_numeral_value_grows(s: Seq<char>, i: int)
    requires
        0 <= i <= s.len(),
    ensures
        numeral_value(s.subrange(0, i)) <= numeral_value(s),
    decreases s.len() - i,
{
    if i < s.len() {
        lemma_numeral_value_grows(s, i + 1);
        assert(s.subrange(0, i + 1).drop_last() =~= s.subrange(0, i));
    } else {
        assert(s.subrange(0, i) =~= s);
    }
}

/// Reads `s` as a decimal numeral of a `u32`: `None` where `s` is no numeral
/// or its value exceeds `u32::MAX`.
pub fn parse_u32(s: &str) -> (r: Option<u32>)
    ensures
        r matches Some(v) ==> is_numeral(s@) && v as nat == numeral_value(s@),
        r is None ==> !is_numeral(s@) || numeral_value(s@) > u32::MAX,
{
    let n = s.unicode_len();
    if n == 0 {
        return None;
    }
    let mut acc: u64 = 0;
    let mut i: usize = 0;
    while i < n
        invariant
            n == s@.len(),
            0 <= i <= n,
            forall|j: int| 0 <= j < i ==> is_digit(#[trigger] s@[j]),
            acc as nat == numeral_value(s@.subrange(0, i as int)),
            acc <= u32::MAX,
        decreases n - i,
    {
        let c = s.get_char(i);
        if !('0' <= c && c <= '9') {
            return None;
        }
        let d = (c as u32 - '0' as u32) as u64;
        assert(s@.subrange(0, i + 1).drop_last() =~= s@.subrange(0, i as int));
        acc = acc * 10 + d;
        i = i + 1;
        if acc > u32::MAX as u64 {
            proof {
                lemma_numeral_value_grows(s@, i as int);
            }
            return None;
        }
    }
    assert(s@.subrange(0, n as int) =~= s@);
    Some(acc as u32)
}

/// Whether `s` writes an integer: a numeral, with a leading `-` or without.
pub open spec fn is_integer_text(s: Seq<char>) -> bool {
    is_numeral(s) || (s.len() > 1 && s[0] == '-' && is_numeral(s.drop_first()))
}

/// Whether the characters of `s` from position `from` on are all digits.
fn digits_from(s: &str, from: usize) -> (r: bool)
    requires
        from <= s@.len(),
    ensures
        r == (forall|i: int| from <= i < s@.len() ==> is_digit(#[trigger] s@[i])),
{
    let n = s.unicode_len();
    let mut i = from;
    while i < n
        invariant
            n == s@.len(),
            from <= i <= n,
            forall|j: int| from <= j < i ==> is_digit(#[trigger] s@[j]),
        decreases n - i,
    {
        let c = s.get_char(i);
        if !('0' <= c && c <= '9') {
            return false;
        }
        i = i + 1;
    }
    true
}

/// Whether `s` is a numeral.
pub fn all_digits(s: &str) -> (r: bool)
    ensures
        r == is_numeral(s@),
{
    s.unicode_len() > 0 && digits_from(s, 0)
}

/// Whether `s` writes an integer.
pub fn is_integer(s: &str) -> (r: bool)
    ensures
        r == is_integer_text(s@),
{
    let n = s.unicode_len();
    if n == 0 {
        return false;
    }
    if digits_from(s, 0) {
        return true;
    }
    if n > 1 && s.get_char(0) == '-' {
        let r = digits_from(s, 1);
        assert(r == is_numeral(s@.drop_first())) by {
            if !r {
                let i = choose|i: int| 1 <= i < s@.len() && !is_digit(s@[i]);
                assert(s@.drop_first()[i - 1] == s@[i]);
            }
        }
        return r;
    }
    false
}

/// `s` with each space replaced by an underscore.
pub open spec fn underscored(s: Seq<char>) -> Seq<char> {
    s.map_values(|c: char| if c == ' ' { '_' } else { c })
}

/// Replaces each space of `s` by an underscore.
pub fn underscore_spaces(s: &str) -> (r: String)
    ensures
        r@ == underscored(s@),
{
    let n = s.unicode_len();
    let mut r = String::new();
    let mut i: usize = 0;
    while i < n
        invariant
            n == s@.len(),
            i <= n,
            r@ =~= underscored(s@.subrange(0, i as int)),
        decreases n - i,
    {
        let c = s.get_char(i);
        if c == ' ' {
            push_char(&mut r, '_');
        } else {
            push_char(&mut r, c);
        }
        i = i + 1;
        assert(r@ =~= underscored(s@.subrange(0, i as int)));
    }
    assert(s@.subrange(0, n as int) =~= s@);
    r
}

/// What `str::to_lowercase` gives for a text.
pub uninterp spec fn lower_of(s: Seq<char>) -> Seq<char>;

/// Relies on `str::to_lowercase`: the lowercase form of a text, which
/// depends on its characters alone.
#[verifier::external_body]
pub(crate) fn lowercase(s: &str) -> (r: String)
    ensures
        r@ == lower_of(s@),
{
    s.to_lowercase()
}

/// Relies on `str`'s `==`: two texts are equal when their characters are.
#[verifier::external_body]
pub(crate) fn str_eq(a: &str, b: &str) -> (r: bool)
    ensures
        r == (a@ == b@),
{
    a == b
}

} // verus!
