//! Unsigned decimal numerals, as bytes (frame headers) and as characters
//! (virtual paths and links).
use vstd::prelude::*;

verus! {

/// An ASCII digit byte.
pub open spec fn is_digit_byte(b: u8) -> bool {
    48 <= b && b <= 57
}

pub open spec fn all_digit_bytes(s: Seq<u8>) -> bool {
    forall|i: int| 0 <= i < s.len() ==> is_digit_byte(#[trigger] s[i])
}

/// The number that a sequence of digit bytes spells, most significant first.
pub open spec fn byte_digits_value(s: Seq<u8>) -> nat
    decreases s.len(),
{
    if s.len() == 0 {
        0
    } else {
        byte_digits_value(s.drop_last()) * 10 + (s.last() - 48) as nat
    }
}

/// A non-empty run of digits whose value fits a `usize`.
pub open spec fn parse_byte_digits(s: Seq<u8>) -> Option<usize> {
    if s.len() > 0 && all_digit_bytes(s) && byte_digits_value(s) <= usize::MAX {
        Some(byte_digits_value(s) as usize)
    } else {
        None
    }
}

/// What reading a `usize` from a numeral gives, as Rust's integer parsing
/// reads it: an optional `+`, then a non-empty run of digits whose value fits.
pub open spec fn parse_byte_numeral(s: Seq<u8>) -> Option<usize> {
    if s.len() > 0 && s[0] == 43 {
        parse_byte_digits(s.subrange(1, s.len() as int))
    } else {
        parse_byte_digits(s)
    }
}

/// The shortest numeral of `n`, as bytes.
pub open spec fn decimal_bytes_of(n: nat) -> Seq<u8>
    decreases n,
{
    if n < 10 {
        seq![(48 + n) as u8]
    } else {
        decimal_bytes_of(n / 10).push((48 + n % 10) as u8)
    }
}

/// A digit character.
pub open spec fn is_digit_char(c: char) -> bool {
    '0' <= c && c <= '9'
}

pub open spec fn all_digit_chars(s: Seq<char>) -> bool {
    forall|i: int| 0 <= i < s.len() ==> is_digit_char(#[trigger] s[i])
}

pub open spec fn char_digits_value(s: Seq<char>) -> nat
    decreases s.len(),
{
    if s.len() == 0 {
        0
    } else {
        char_digits_value(s.drop_last()) * 10 + (s.last() as u32 - 48) as nat
    }
}

/// What reading a `usize` from a textual numeral gives.
pub open spec fn parse_char_numeral(s: Seq<char>) -> Option<usize> {
    if s.len() > 0 && all_digit_chars(s) && char_digits_value(s) <= usize::MAX {
        Some(char_digits_value(s) as usize)
    } else {
        None
    }
}

pub open spec fn digit_char(d: nat) -> char {
    ((48 + d) as u8) as char
}

/// The shortest numeral of `n`, as text.
pub open spec fn decimal_text_of(n: nat) -> Seq<char>
    decreases n,
{
    if n < 10 {
        seq![digit_char(n)]
    } else {
        decimal_text_of(n / 10).push(digit_char(n % 10))
    }
}

proof fn lemma_byte_value_grows(s: Seq<u8>, i: int)
    requires
        0 <= i <= s.len(),
        all_digit_bytes(s),
    ensures
        byte_digits_value(s.subrange(0, i)) <= byte_digits_value(s),
    decreases s.len(),
{
    if i < s.len() {
        let t = s.drop_last();
        assert(t.subrange(0, i) =~= s.subrange(0, i));
        lemma_byte_value_grows(t, i);
    } else {
        assert(s.subrange(0, i) =~= s);
    }
}

proof fn lemma_char_value_grows(s: Seq<char>, i: int)
    requires
        0 <= i <= s.len(),
        all_digit_chars(s),
    ensures
        char_digits_value(s.subrange(0, i)) <= char_digits_value(s),
    decreases s.len(),
{
    if i < s.len() {
        let t = s.drop_last();
        assert(t.subrange(0, i) =~= s.subrange(0, i));
        lemma_char_value_grows(t, i);
    } else {
        assert(s.subrange(0, i) =~= s);
    }
}

/// Reading back the numeral of `n` gives `n`.
pub proof fn lemma_decimal_bytes_parse(n: nat)
    ensures
        decimal_bytes_of(n).len() >= 1,
        all_digit_bytes(decimal_bytes_of(n)),
        byte_digits_value(decimal_bytes_of(n)) == n,
    decreases n,
{
    if n >= 10 {
        lemma_decimal_bytes_parse(n / 10);
        let s = decimal_bytes_of(n);
        assert(s.drop_last() =~= decimal_bytes_of(n / 10));
        assert(s.last() == (48 + n % 10) as u8);
        assert((s.last() - 48) as nat == n % 10);
        assert(byte_digits_value(s) == (n / 10) * 10 + n % 10);
        assert forall|i: int| 0 <= i < s.len() implies is_digit_byte(#[trigger] s[i]) by {
            if i < s.len() - 1 {
                assert(s[i] == decimal_bytes_of(n / 10)[i]);
            }
        }
    } else {
        let s = decimal_bytes_of(n);
        assert(s.drop_last() =~= Seq::<u8>::empty());
        assert(byte_digits_value(s.drop_last()) == 0);
        assert(s.last() == (48 + n) as u8);
    }
}

/// Parses a numeral given as bytes, with an optional leading `+`.
pub fn parse_digits(s: &[u8]) -> (r: Option<usize>)
    ensures
        r == parse_byte_numeral(s@),
{
    if s.len() > 0 && s[0] == 43 {
        parse_plain_digits(&s[1..s.len()])
    } else {
        parse_plain_digits(s)
    }
}

fn parse_plain_digits(s: &[u8]) -> (r: Option<usize>)
    ensures
        r == parse_byte_digits(s@),
{
    if s.len() == 0 {
        return None;
    }
    let mut acc: usize = 0;
    let mut i: usize = 0;
    while i < s.len()
        invariant
            0 <= i <= s@.len(),
            all_digit_bytes(s@.subrange(0, i as int)),
            acc as nat == byte_digits_value(s@.subrange(0, i as int)),
        decreases s@.len() - i,
    {
        let b = s[i];
        let ghost pre = s@.subrange(0, i as int);
        let ghost next = s@.subrange(0, i as int + 1);
        assert(next.drop_last() =~= pre);
        if b < 48 || b > 57 {
            assert(!is_digit_byte(s@[i as int]));
            return None;
        }
        let d = (b - 48) as usize;
        assert(all_digit_bytes(next)) by {
            assert forall|k: int| 0 <= k < next.len() implies is_digit_byte(#[trigger] next[k]) by {
                if k < i {
                    assert(next[k] == pre[k]);
                }
            }
        }
        if acc > (usize::MAX - d) / 10 {
            proof {
                assert(acc * 10 + d > usize::MAX) by (nonlinear_arith)
                    requires
                        acc > (usize::MAX - d) / 10,
                        d <= 9,
                ;
                if all_digit_bytes(s@) {
                    lemma_byte_value_grows(s@, i as int + 1);
                }
            }
            return None;
        }
        proof {
            assert(acc * 10 + d <= usize::MAX) by (nonlinear_arith)
                requires
                    acc <= (usize::MAX - d) / 10,
                    d <= 9,
            ;
        }
        acc = acc * 10 + d;
        i = i + 1;
    }
    assert(s@.subrange(0, i as int) =~= s@);
    Some(acc)
}

/// The numeral of `n` as bytes.
pub fn decimal_bytes(n: usize) -> (r: Vec<u8>)
    ensures
        r@ == decimal_bytes_of(n as nat),
    decreases n,
{
    if n < 10 {
        vec![48 + n as u8]
    } else {
        let mut v = decimal_bytes(n / 10);
        v.push(48 + (n % 10) as u8);
        v
    }
}

/// Parses a numeral given as text.
pub fn parse_number(s: &str) -> (r: Option<usize>)
    ensures
        r == parse_char_numeral(s@),
{
    let len = s.unicode_len();
    if len == 0 {
        return None;
    }
    let mut acc: usize = 0;
    let mut i: usize = 0;
    while i < len
        invariant
            len == s@.len(),
            0 <= i <= s@.len(),
            all_digit_chars(s@.subrange(0, i as int)),
            acc as nat == char_digits_value(s@.subrange(0, i as int)),
        decreases s@.len() - i,
    {
        let c = s.get_char(i);
        let ghost pre = s@.subrange(0, i as int);
        let ghost next = s@.subrange(0, i as int + 1);
        assert(next.drop_last() =~= pre);
        if c < '0' || c > '9' {
            assert(!is_digit_char(s@[i as int]));
            return None;
        }
        let d = (c as u32 - 48) as usize;
        assert(all_digit_chars(next)) by {
            assert forall|k: int| 0 <= k < next.len() implies is_digit_char(#[trigger] next[k]) by {
                if k < i {
                    assert(next[k] == pre[k]);
                }
            }
        }
        if acc > (usize::MAX - d) / 10 {
            proof {
                assert(acc * 10 + d > usize::MAX) by (nonlinear_arith)
                    requires
                        acc > (usize::MAX - d) / 10,
                        d <= 9,
                ;
                if all_digit_chars(s@) {
                    lemma_char_value_grows(s@, i as int + 1);
                }
            }
            return None;
        }
        proof {
            assert(acc * 10 + d <= usize::MAX) by (nonlinear_arith)
                requires
                    acc <= (usize::MAX - d) / 10,
                    d <= 9,
            ;
        }
        acc = acc * 10 + d;
        i = i + 1;
    }
    assert(s@.subrange(0, i as int) =~= s@);
    Some(acc)
}

fn digit_str(d: usize) -> (r: &'static str)
    requires
        d < 10,
    ensures
        r@ == seq![digit_char(d as nat)],
{
    proof {
        reveal_strlit("0");
        reveal_strlit("1");
        reveal_strlit("2");
        reveal_strlit("3");
        reveal_strlit("4");
        reveal_strlit("5");
        reveal_strlit("6");
        reveal_strlit("7");
        reveal_strlit("8");
        reveal_strlit("9");
    }
    match d {
        0 => "0",
        1 => "1",
        2 => "2",
        3 => "3",
        4 => "4",
        5 => "5",
        6 => "6",
        7 => "7",
        8 => "8",
        _ => "9",
    }
}

/// Appends the numeral of `n` to `out`.
pub fn push_decimal(out: &mut String, n: usize)
    ensures
        final(out)@ == old(out)@ + decimal_text_of(n as nat),
    decreases n,
{
    if n < 10 {
        out.append(digit_str(n));
    } else {
        push_decimal(out, n / 10);
        out.append(digit_str(n % 10));
        proof {
            assert(decimal_text_of(n as nat) == decimal_text_of((n / 10) as nat).push(
                digit_char((n % 10) as nat),
            ));
        }
    }
}

} // verus!
