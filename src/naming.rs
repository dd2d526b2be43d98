//! Session names: the full input written out as lowercase hexadecimal.
use vstd::prelude::*;

verus! {

/// The lowercase hexadecimal digit for a value below sixteen.
pub open spec fn hex_digit(n: u8) -> char {
    if n < 10 {
        ((n + 48) as u8) as char
    } else {
        ((n + 87) as u8) as char
    }
}

/// Two lowercase hexadecimal digits for each byte, high nibble first.
pub open spec fn hex_of(bytes: Seq<u8>) -> Seq<char> {
    Seq::new(
        2 * bytes.len(),
        |i: int|
            if i % 2 == 0 {
                hex_digit(bytes[i / 2] / 16)
            } else {
                hex_digit(bytes[i / 2] % 16)
            },
    )
}

/// Two inputs of the same length have the same session name exactly when they are
/// equal: the name depends on the input alone, and no two inputs share one.
pub proof fn lemma_session_name_injective(a: Seq<u8>, b: Seq<u8>)
    requires
        a.len() == b.len(),
    ensures
        hex_of(a) == hex_of(b) <==> a == b,
{
    if hex_of(a) == hex_of(b) {
        assert forall|k: int| 0 <= k < a.len() implies a[k] == b[k] by {
            assert(hex_of(a)[2 * k] == hex_of(b)[2 * k]);
            assert(hex_of(a)[2 * k + 1] == hex_of(b)[2 * k + 1]);
            let (x, y) = (a[k], b[k]);
            assert(hex_digit(x / 16) == hex_digit(y / 16) ==> x / 16 == y / 16);
            assert(hex_digit(x % 16) == hex_digit(y % 16) ==> x % 16 == y % 16);
        }
        assert(a =~= b);
    }
}

/// Writes the bytes out as lowercase hexadecimal, two digits per byte.
pub fn bytes_to_hex(input: &[u8]) -> (r: String)
    requires
        input@.len() <= usize::MAX / 2,
    ensures
        r@ == hex_of(input@),
{
    let digits = "0123456789abcdef";
    proof {
        reveal_strlit("0123456789abcdef");
    }
    let mut out = String::new();
    let mut i: usize = 0;
    while i < input.len()
        invariant
            i <= input@.len(),
            digits@.len() == 16,
            forall|k: int| 0 <= k < 16 ==> #[trigger] digits@[k] == hex_digit(k as u8),
            out@ == hex_of(input@.take(i as int)),
        decreases input@.len() - i,
    {
        let b = input[i];
        let hi = (b / 16) as usize;
        let lo = (b % 16) as usize;
        out.append(digits.substring_char(hi, hi + 1));
        out.append(digits.substring_char(lo, lo + 1));
        proof {
            assert(hex_of(input@.take(i + 1)) =~= hex_of(input@.take(i as int)) + seq![
                hex_digit(b / 16),
                hex_digit(b % 16),
            ]);
        }
        i += 1;
    }
    assert(input@.take(input@.len() as int) =~= input@);
    out
}

/// The name of the session directory for an input: its hexadecimal form.
pub fn create_quote_name(input: &[u8; 64]) -> (r: String)
    ensures
        r@ == hex_of(input@),
{
    bytes_to_hex(input.as_slice())
}

} // verus!
