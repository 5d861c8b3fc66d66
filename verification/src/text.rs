//! Rendering numbers and bytes as text.

use vstd::prelude::*;

verus! {

/// The decimal digit for `d` (which must be below ten).
pub open spec fn decimal_digit(d: nat) -> char {
    if d < 10 { ((d + 48) as u8) as char } else { '?' }
}

/// The decimal representation of `n`, without leading zeros.
pub open spec fn decimal(n: nat) -> Seq<char>
    decreases n,
{
    if n < 10 {
        seq![decimal_digit(n)]
    } else {
        decimal(n / 10).push(decimal_digit(n % 10))
    }
}

/// The lowercase hexadecimal digit for `d` (which must be below sixteen).
pub open spec fn hex_digit(d: nat) -> char {
    if d < 10 { ((d + 48) as u8) as char } else if d < 16 { ((d + 87) as u8) as char } else { '?' }
}

/// Two lowercase hexadecimal digits per byte, most significant first.
pub open spec fn hex_lower(bytes: Seq<u8>) -> Seq<char>
    decreases bytes.len(),
{
    if bytes.len() == 0 {
        seq![]
    } else {
        hex_lower(bytes.drop_last()) + seq![
            hex_digit((bytes.last() / 16) as nat),
            hex_digit((bytes.last() % 16) as nat),
        ]
    }
}

/// `String::push`: appends one character to the string.
#[verifier::external_body]
fn push_char(s: &mut String, c: char)
    ensures
        final(s)@ == old(s)@.push(c),
{
    s.push(c)
}

fn digit_char(d: u8) -> (c: char)
    requires
        d < 16,
    ensures
        c == hex_digit(d as nat),
{
    if d < 10 {
        (d + 48) as char
    } else {
        (d + 87) as char
    }
}

/// `s` followed by `t`.
pub fn join(s: &str, t: &str) -> (r: String)
    ensures
        r@ == s@ + t@,
{
    let mut r = String::from_str(s);
    r.append(t);
    r
}

/// Render `n` in decimal.
pub fn decimal_string(n: u64) -> (s: String)
    ensures
        s@ == decimal(n as nat),
    decreases n,
{
    let d = digit_char((n % 10) as u8);
    if n < 10 {
        let mut s = String::new();
        push_char(&mut s, d);
        proof {
            assert(s@ =~= seq![decimal_digit(n as nat)]);
        }
        s
    } else {
        let mut s = decimal_string(n / 10);
        push_char(&mut s, d);
        s
    }
}

/// Render `bytes` as lowercase hexadecimal, two digits per byte.
pub fn hex_string(bytes: &[u8]) -> (s: String)
    ensures
        s@ == hex_lower(bytes@),
{
    let mut s = String::new();
    let mut i: usize = 0;
    while i < bytes.len()
        invariant
            i <= bytes@.len(),
            s@ == hex_lower(bytes@.take(i as int)),
        decreases bytes@.len() - i,
    {
        let b = bytes[i];
        push_char(&mut s, digit_char(b / 16));
        push_char(&mut s, digit_char(b % 16));
        proof {
            assert(bytes@.take(i + 1).drop_last() =~= bytes@.take(i as int));
        }
        i = i + 1;
    }
    proof {
        assert(bytes@.take(i as int) =~= bytes@);
    }
    s
}

/// The hexadecimal form of bytes has exactly two characters per byte: at
/// index `2i` the digit of the high nibble of byte `i`, at `2i + 1` that of
/// its low nibble, each `0`-`9` or a lowercase `a`-`f`.
pub proof fn lemma_hex_two_digits_per_byte(bytes: Seq<u8>)
    ensures
        hex_lower(bytes).len() == 2 * bytes.len(),
        forall|i: int|
            0 <= i < bytes.len() ==> {
                let hi = #[trigger] bytes[i] / 16;
                let lo = bytes[i] % 16;
                &&& (hex_lower(bytes)[2 * i] as u32) == if hi < 10 {
                    48 + hi
                } else {
                    87 + hi
                }
                &&& (hex_lower(bytes)[2 * i + 1] as u32) == if lo < 10 {
                    48 + lo
                } else {
                    87 + lo
                }
            },
    decreases bytes.len(),
{
    if bytes.len() > 0 {
        let init = bytes.drop_last();
        lemma_hex_two_digits_per_byte(init);
        let last = bytes.last();
        let h = hex_lower(bytes);
        assert(h == hex_lower(init) + seq![
            hex_digit((last / 16) as nat),
            hex_digit((last % 16) as nat),
        ]);
        assert forall|i: int| 0 <= i < bytes.len() implies {
            let hi = #[trigger] bytes[i] / 16;
            let lo = bytes[i] % 16;
            &&& (h[2 * i] as u32) == if hi < 10 {
                48 + hi
            } else {
                87 + hi
            }
            &&& (h[2 * i + 1] as u32) == if lo < 10 {
                48 + lo
            } else {
                87 + lo
            }
        } by {
            if i < init.len() {
                assert(init[i] == bytes[i]);
                assert(h[2 * i] == hex_lower(init)[2 * i]);
                assert(h[2 * i + 1] == hex_lower(init)[2 * i + 1]);
            } else {
                assert(i == init.len());
                let hi = (last / 16) as nat;
                let lo = (last % 16) as nat;
                assert(h[2 * i] == hex_digit(hi));
                assert(h[2 * i + 1] == hex_digit(lo));
            }
        }
    }
}

} // verus!
