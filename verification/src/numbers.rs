//! Numbers as decimal text, both ways.

use vstd::prelude::*;
use vstd::string::*;
use vstd::utf8::*;

verus! {

/// The character of a decimal digit.
pub open spec fn digit_char(d: int) -> char {
    (0x30 + d) as u8 as char
}

/// The decimal digits of `n`, without leading zeros.
pub open spec fn decimal(n: nat) -> Seq<char>
    decreases n,
{
    if n < 10 {
        seq![digit_char(n as int)]
    } else {
        decimal(n / 10).push(digit_char((n % 10) as int))
    }
}

/// The number that a text of decimal digits stands for, if it is such a
/// text: at least one digit, and nothing but digits.
pub open spec fn digits_value(text: Seq<char>) -> Option<nat>
    decreases text.len(),
{
    if text.len() == 0 {
        None
    } else if !('0' <= text.last() <= '9') {
        None
    } else {
        let d = (text.last() as int - 0x30) as nat;
        if text.len() == 1 {
            Some(d)
        } else {
            match digits_value(text.drop_last()) {
                Some(rest) => Some(rest * 10 + d),
                None => None,
            }
        }
    }
}

/// The 32-bit signed integer that a text stands for: an optional sign, `+`
/// or `-`, then decimal digits that give a number inside the range of the
/// type.
pub open spec fn i32_value(text: Seq<char>) -> Option<i32> {
    if text.len() > 0 && text[0] == '-' {
        match digits_value(text.drop_first()) {
            Some(n) => if n <= 0x8000_0000 {
                Some((-(n as int)) as i32)
            } else {
                None
            },
            None => None,
        }
    } else if text.len() > 0 && text[0] == '+' {
        match digits_value(text.drop_first()) {
            Some(n) => if n <= 0x7fff_ffff {
                Some(n as i32)
            } else {
                None
            },
            None => None,
        }
    } else {
        match digits_value(text) {
            Some(n) => if n <= 0x7fff_ffff {
                Some(n as i32)
            } else {
                None
            },
            None => None,
        }
    }
}

/// Appends the decimal digits of `n` to `out`.
pub fn push_decimal(out: &mut String, n: u32)
    ensures
        final(out)@ == old(out)@ + decimal(n as nat),
    decreases n,
{
    if n >= 10 {
        push_decimal(out, n / 10);
    }
    let digit: u8 = 0x30 + (n % 10) as u8;
    out.push(digit as char);
    assert(out@ =~= old(out)@ + decimal(n as nat));
}

/// The decimal digits of `n`.
pub fn decimal_text(n: u32) -> (text: String)
    ensures
        text@ == decimal(n as nat),
{
    let mut text = String::new();
    push_decimal(&mut text, n);
    assert(Seq::<char>::empty() + decimal(n as nat) =~= decimal(n as nat));
    text
}

/// A text that stands for a number holds digits only, and each of its
/// beginnings stands for a number that is not larger.
pub proof fn lemma_digits(text: Seq<char>, cut: int)
    requires
        digits_value(text) is Some,
        0 < cut <= text.len(),
    ensures
        forall|i: int| 0 <= i < text.len() ==> '0' <= #[trigger] text[i] <= '9',
        digits_value(text.subrange(0, cut)) is Some,
        digits_value(text.subrange(0, cut)).unwrap() <= digits_value(text).unwrap(),
    decreases text.len(),
{
    if text.len() == 1 {
        assert(text.subrange(0, cut) =~= text);
    } else {
        let shorter = text.drop_last();
        if cut == text.len() {
            assert(text.subrange(0, cut) =~= text);
            lemma_digits(shorter, cut - 1);
        } else {
            lemma_digits(shorter, cut);
            assert(shorter.subrange(0, cut) =~= text.subrange(0, cut));
        }
        assert forall|i: int| 0 <= i < text.len() implies '0' <= #[trigger] text[i] <= '9' by {
            if i < text.len() - 1 {
                assert(shorter[i] == text[i]);
            }
        }
    }
}

/// Reads the digits of `bytes` from `from` on, if they are digits and their
/// number is at most `limit`.
fn parse_digits(bytes: &[u8], chars: Ghost<Seq<char>>, from: usize, limit: u64) -> (r: Option<u64>)
    requires
        from <= bytes@.len(),
        chars@.len() == bytes@.len(),
        forall|i: int|
            0 <= i < bytes@.len() ==> (#[trigger] chars@[i]) as int == bytes@[i] as int,
        limit <= 0x8000_0000,
    ensures
        r == match digits_value(chars@.subrange(from as int, chars@.len() as int)) {
            Some(n) => if n <= limit {
                Some(n as u64)
            } else {
                None
            },
            None => None,
        },
{
    let ghost rest = chars@.subrange(from as int, chars@.len() as int);
    if from == bytes.len() {
        return None;
    }
    let mut value: u64 = 0;
    let mut i: usize = from;
    while i < bytes.len()
        invariant
            from <= i <= bytes@.len(),
            from < bytes@.len(),
            chars@.len() == bytes@.len(),
            rest == chars@.subrange(from as int, chars@.len() as int),
            forall|k: int|
                0 <= k < bytes@.len() ==> (#[trigger] chars@[k]) as int == bytes@[k] as int,
            limit <= 0x8000_0000,
            value <= limit,
            i > from ==> digits_value(rest.subrange(0, i - from)) == Some(value as nat),
            i == from ==> value == 0,
        decreases bytes@.len() - i,
    {
        let b = bytes[i];
        let ghost longer = rest.subrange(0, i + 1 - from);
        assert(longer.last() == chars@[i as int]);
        assert(longer.drop_last() =~= rest.subrange(0, i - from));
        if b < 0x30 || b > 0x39 {
            proof {
                if digits_value(rest) is Some {
                    lemma_digits(rest, i + 1 - from);
                }
            }
            return None;
        }
        let next: u64 = value * 10 + (b - 0x30) as u64;
        assert(digits_value(longer) == Some(next as nat));
        if next > limit {
            proof {
                if digits_value(rest) is Some {
                    lemma_digits(rest, i + 1 - from);
                }
            }
            return None;
        }
        value = next;
        i += 1;
    }
    assert(rest.subrange(0, i - from) =~= rest);
    Some(value)
}

/// Reads a 32-bit signed integer from decimal text: an optional sign, then
/// digits. Anything else, and a number outside the type's range, gives
/// nothing.
pub fn parse_i32(text: &str) -> (r: Option<i32>)
    ensures
        r == i32_value(text@),
{
    if !text.is_ascii() {
        proof {
            let bad = choose|i: int|
                0 <= i < text@.len() && !('\0' <= #[trigger] text@[i] <= '\u{7f}');
            if digits_value(text@) is Some {
                lemma_digits(text@, 1);
            }
            if bad > 0 && digits_value(text@.drop_first()) is Some {
                lemma_digits(text@.drop_first(), 1);
                assert(text@.drop_first()[bad - 1] == text@[bad]);
            }
        }
        return None;
    }
    let bytes = text.as_bytes();
    proof {
        is_ascii_chars_encode_utf8(text@);
        assert forall|i: int| 0 <= i < bytes@.len() implies (#[trigger] text@[i]) as int
            == bytes@[i] as int by {
            let c = text@[i];
            assert('\0' <= c <= '\u{7f}');
            assert(c as u8 == bytes@[i]);
        }
    }
    if bytes.len() > 0 && bytes[0] == 0x2d {
        assert(text@.drop_first() =~= text@.subrange(1, text@.len() as int));
        match parse_digits(bytes, Ghost(text@), 1, 0x8000_0000) {
            Some(n) => Some((-(n as i64)) as i32),
            None => None,
        }
    } else if bytes.len() > 0 && bytes[0] == 0x2b {
        assert(text@.drop_first() =~= text@.subrange(1, text@.len() as int));
        match parse_digits(bytes, Ghost(text@), 1, 0x7fff_ffff) {
            Some(n) => Some(n as i32),
            None => None,
        }
    } else {
        assert(text@ =~= text@.subrange(0, text@.len() as int));
        match parse_digits(bytes, Ghost(text@), 0, 0x7fff_ffff) {
            Some(n) => Some(n as i32),
            None => None,
        }
    }
}

} // verus!
