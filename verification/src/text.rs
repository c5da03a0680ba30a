//! Tokens: telling them apart and reading numbers from them.

use vstd::prelude::*;
use vstd::utf8::{encode_utf8, encode_utf8_decode_utf8, is_ascii_chars, is_ascii_chars_encode_utf8};

verus! {

/// A token as the model sees it: its characters.
pub type Token = Seq<char>;

/// Whether two tokens are the same text.
pub fn same(a: &str, b: &str) -> (r: bool)
    ensures
        r == (a@ == b@),
{
    let x = a.as_bytes();
    let y = b.as_bytes();
    proof {
        encode_utf8_decode_utf8(a@);
        encode_utf8_decode_utf8(b@);
    }
    if x.len() != y.len() {
        return false;
    }
    let mut i: usize = 0;
    while i < x.len()
        invariant
            x@ == encode_utf8(a@),
            y@ == encode_utf8(b@),
            x@.len() == y@.len(),
            i <= x@.len(),
            forall|k: int| 0 <= k < i ==> x@[k] == y@[k],
        decreases x@.len() - i,
    {
        if x[i] != y[i] {
            return false;
        }
        i += 1;
    }
    assert(x@ =~= y@);
    true
}

/// Whether `c` is one of the ten decimal digits.
pub open spec fn is_digit(c: char) -> bool {
    '0' <= c <= '9'
}

/// Whether `s` holds decimal digits and nothing else.
pub open spec fn all_digits(s: Seq<char>) -> bool {
    forall|i: int| 0 <= i < s.len() ==> is_digit(#[trigger] s[i])
}

/// The number that the digits of `s` write in base ten.
pub open spec fn digits_value(s: Seq<char>) -> int
    decreases s.len(),
{
    if s.len() == 0 {
        0
    } else {
        10 * digits_value(s.drop_last()) + (s.last() as int - '0' as int)
    }
}

/// The integer that `s` writes, if it writes one: an optional `+`, or `-`
/// where `signed` allows it, then one or more decimal digits and nothing
/// else.
pub open spec fn number(s: Seq<char>, signed: bool) -> Option<int> {
    if s.len() == 0 {
        None
    } else {
        let negative = signed && s[0] == '-';
        let body = if s[0] == '+' || negative {
            s.skip(1)
        } else {
            s
        };
        if body.len() > 0 && all_digits(body) {
            Some(
                if negative {
                    -digits_value(body)
                } else {
                    digits_value(body)
                },
            )
        } else {
            None
        }
    }
}

/// The signed operand that `tok` writes, if it writes one that fits.
pub open spec fn int_of(tok: Token) -> Option<isize> {
    match number(tok, true) {
        Some(v) => if isize::MIN <= v <= isize::MAX {
            Some(v as isize)
        } else {
            None
        },
        None => None,
    }
}

/// The unsigned operand that `tok` writes, if it writes one that fits.
pub open spec fn index_of(tok: Token) -> Option<usize> {
    match number(tok, false) {
        Some(v) => if 0 <= v <= usize::MAX {
            Some(v as usize)
        } else {
            None
        },
        None => None,
    }
}

/// No magnitude beyond this one fits an operand, signed or unsigned.
const BOUND: i128 = 0x1_0000_0000_0000_0000;

/// The byte that writes `+`.
const PLUS: u8 = 43;

/// The byte that writes `-`.
const MINUS: u8 = 45;

/// The byte that writes `0`.
const ZERO: u8 = 48;

/// The byte that writes `9`.
const NINE: u8 = 57;

proof fn lemma_digits_grow(s: Seq<char>, k: int)
    requires
        all_digits(s),
        0 <= k <= s.len(),
    ensures
        0 <= digits_value(s.take(k)) <= digits_value(s),
    decreases s.len(),
{
    if s.len() == 0 {
        assert(s.take(k) =~= s);
    } else if k == s.len() {
        assert(s.take(k) =~= s);
        lemma_digits_grow(s.drop_last(), k - 1);
        assert(s.drop_last().take(k - 1) =~= s.take(k - 1));
        lemma_digits_grow(s.drop_last(), s.len() - 1);
        assert(s.drop_last().take(s.len() - 1) =~= s.drop_last());
        assert(is_digit(s[s.len() - 1]));
    } else {
        lemma_digits_grow(s.drop_last(), k);
        assert(s.drop_last().take(k) =~= s.take(k));
        assert(is_digit(s[s.len() - 1]));
    }
}

proof fn lemma_number_is_ascii(s: Seq<char>, signed: bool)
    requires
        number(s, signed) is Some,
    ensures
        is_ascii_chars(s),
{
    let negative = signed && s[0] == '-';
    let body = if s[0] == '+' || negative {
        s.skip(1)
    } else {
        s
    };
    assert forall|i: int| 0 <= i < s.len() implies '\0' <= #[trigger] s[i] <= '\u{7f}' by {
        if s[0] == '+' || negative {
            if i > 0 {
                assert(is_digit(body[i - 1]));
            }
        } else {
            assert(is_digit(body[i]));
        }
    }
}

/// Reads the integer that `tok` writes, as long as its magnitude is at most
/// [`BOUND`].
fn read_number(tok: &str, signed: bool) -> (r: Option<i128>)
    ensures
        match r {
            Some(v) => number(tok@, signed) == Some(v as int) && -BOUND <= v <= BOUND && (signed
                || v >= 0),
            None => number(tok@, signed) matches Some(v) ==> v < -BOUND || BOUND < v,
        },
{
    if !tok.is_ascii() {
        proof {
            if number(tok@, signed) is Some {
                lemma_number_is_ascii(tok@, signed);
            }
        }
        return None;
    }
    let bytes = tok.as_bytes();
    proof {
        is_ascii_chars_encode_utf8(tok@);
    }
    let n = bytes.len();
    if n == 0 {
        return None;
    }
    let negative = signed && bytes[0] == MINUS;
    let start: usize = if bytes[0] == PLUS || negative {
        1
    } else {
        0
    };
    let ghost body = if tok@[0] == '+' || negative {
        tok@.skip(1)
    } else {
        tok@
    };
    assert(tok@[0] as u8 == bytes@[0]);
    if start == n {
        return None;
    }
    let mut acc: i128 = 0;
    let mut i = start;
    assert(body.take(0) =~= Seq::<char>::empty());
    while i < n
        invariant
            start <= i <= n,
            n == tok@.len(),
            n == bytes@.len(),
            n > 0,
            negative == (signed && tok@[0] == '-'),
            body == (if tok@[0] == '+' || negative {
                tok@.skip(1)
            } else {
                tok@
            }),
            body.len() == n - start,
            forall|k: int| 0 <= k < n ==> tok@[k] as u8 == #[trigger] bytes@[k],
            is_ascii_chars(tok@),
            all_digits(body.take(i - start)),
            acc == digits_value(body.take(i - start)),
            0 <= acc <= BOUND,
        decreases n - i,
    {
        let b = bytes[i];
        let ghost c = tok@[i as int];
        assert(c == body[i - start] && c as u8 == b);
        if b < ZERO || b > NINE {
            assert(!is_digit(body[i - start]));
            return None;
        }
        let ghost longer = body.take(i - start + 1);
        assert(longer.drop_last() =~= body.take(i - start));
        acc = acc * 10 + (b - ZERO) as i128;
        if acc > BOUND {
            proof {
                if all_digits(body) {
                    lemma_digits_grow(body, i - start + 1);
                }
            }
            return None;
        }
        i += 1;
    }
    assert(body.take(n - start) =~= body);
    Some(
        if negative {
            -acc
        } else {
            acc
        },
    )
}

/// Reads a signed operand: an optional sign and decimal digits, of a value
/// that fits. Anything else is no operand.
pub fn parse_int(tok: &str) -> (r: Option<isize>)
    ensures
        r == int_of(tok@),
{
    match read_number(tok, true) {
        Some(v) => if isize::MIN as i128 <= v && v <= isize::MAX as i128 {
            Some(v as isize)
        } else {
            None
        },
        None => None,
    }
}

/// Reads an unsigned operand: an optional `+` and decimal digits, of a value
/// that fits. Anything else is no operand.
pub fn parse_index(tok: &str) -> (r: Option<usize>)
    ensures
        r == index_of(tok@),
{
    proof {
        if number(tok@, false) is Some {
            let body = if tok@[0] == '+' {
                tok@.skip(1)
            } else {
                tok@
            };
            lemma_digits_grow(body, 0);
        }
    }
    match read_number(tok, false) {
        Some(v) => if v <= usize::MAX as i128 {
            Some(v as usize)
        } else {
            None
        },
        None => None,
    }
}

} // verus!
