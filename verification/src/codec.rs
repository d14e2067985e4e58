//! Byte-level encodings the marketplace hands to its collaborators:
//! hexadecimal event identifiers derived from entropy, and the payment
//! memos that tag each ledger transfer with its operation context.

use vstd::prelude::*;
use vstd::slice::slice_to_vec;
use vstd::utf8::is_ascii_chars;
use vstd::utf8::is_ascii_chars_encode_utf8;

verus! {

/// The lowercase hexadecimal digit for a value in `0 .. 16`.
pub open spec fn hex_char(d: int) -> char {
    if d == 0 {
        '0'
    } else if d == 1 {
        '1'
    } else if d == 2 {
        '2'
    } else if d == 3 {
        '3'
    } else if d == 4 {
        '4'
    } else if d == 5 {
        '5'
    } else if d == 6 {
        '6'
    } else if d == 7 {
        '7'
    } else if d == 8 {
        '8'
    } else if d == 9 {
        '9'
    } else if d == 10 {
        'a'
    } else if d == 11 {
        'b'
    } else if d == 12 {
        'c'
    } else if d == 13 {
        'd'
    } else if d == 14 {
        'e'
    } else {
        'f'
    }
}

/// Lowercase hexadecimal of a byte sequence: two digits per byte,
/// high nibble first.
pub open spec fn hex_of(s: Seq<u8>) -> Seq<char> {
    Seq::new(
        s.len() * 2,
        |i: int| if i % 2 == 0 {
            hex_char((s[i / 2] / 16) as int)
        } else {
            hex_char((s[i / 2] % 16) as int)
        },
    )
}

/// Every character a hexadecimal encoding produces is ASCII.
pub proof fn lemma_hex_of_ascii(s: Seq<u8>)
    ensures
        is_ascii_chars(hex_of(s)),
{
    assert forall|i| 0 <= i < hex_of(s).len() implies '\0' <= #[trigger] hex_of(s)[i]
        <= '\u{7f}' by {
        assert(hex_of(s)[i] == if i % 2 == 0 {
            hex_char((s[i / 2] / 16) as int)
        } else {
            hex_char((s[i / 2] % 16) as int)
        });
    }
}

/// Relies on `hex::encode`: for each input byte, in order, two lowercase
/// hexadecimal digits, high nibble first.
#[verifier::external_body]
fn hex_encode(bytes: &[u8]) -> (r: String)
    ensures
        r@ == hex_of(bytes@),
{
    hex::encode(bytes)
}

/// Copies the first `n` elements of `v`.
pub fn take_prefix(v: &Vec<u8>, n: usize) -> (r: Vec<u8>)
    requires
        n <= v@.len(),
    ensures
        r@ == v@.take(n as int),
{
    let mut out: Vec<u8> = Vec::new();
    let mut i: usize = 0;
    while i < n
        invariant
            0 <= i <= n <= v@.len(),
            out@ == v@.take(i as int),
        decreases n - i,
    {
        out.push(v[i]);
        proof {
            assert(out@ =~= v@.take(i + 1 as int));
        }
        i = i + 1;
    }
    out
}

/// Derives an event identifier from fresh entropy: the lowercase
/// hexadecimal of the first 16 bytes.
pub fn event_id_from_entropy(entropy: &Vec<u8>) -> (r: String)
    requires
        entropy@.len() >= 16,
    ensures
        r@ == hex_of(entropy@.take(16)),
{
    let prefix = take_prefix(entropy, 16);
    hex_encode(prefix.as_slice())
}

/// The bytes of an ASCII character sequence, one byte per character.
pub open spec fn ascii_bytes(s: Seq<char>) -> Seq<u8> {
    Seq::new(s.len(), |i: int| s[i] as u8)
}

/// The UTF-8 bytes of an ASCII string, which coincide with its
/// characters read as bytes.
pub fn str_ascii_bytes(s: &str) -> (r: Vec<u8>)
    requires
        is_ascii_chars(s@),
    ensures
        r@ == ascii_bytes(s@),
{
    let bytes = s.as_bytes();
    proof {
        is_ascii_chars_encode_utf8(s@);
        assert(bytes@ =~= ascii_bytes(s@));
    }
    slice_to_vec(bytes)
}

/// The decimal digits of `n`, as ASCII bytes, most significant first.
pub open spec fn dec_digits(n: nat) -> Seq<u8>
    decreases n,
{
    if n < 10 {
        seq![(48 + n) as u8]
    } else {
        dec_digits(n / 10).push((48 + n % 10) as u8)
    }
}

/// Appends the decimal digits of `n` to `v`.
pub fn push_dec(v: &mut Vec<u8>, n: u64)
    ensures
        final(v)@ == old(v)@ + dec_digits(n as nat),
    decreases n,
{
    if n < 10 {
        v.push(48 + n as u8);
        proof {
            assert(v@ =~= old(v)@ + dec_digits(n as nat));
        }
    } else {
        push_dec(v, n / 10);
        v.push(48 + (n % 10) as u8);
        proof {
            assert(v@ =~= old(v)@ + dec_digits(n as nat));
        }
    }
}

} // verus!
