//! Text read from the interface: line-terminator trimming and decimal numbers.
use vstd::prelude::*;

verus! {

/// The text with one trailing `"\n"` removed, and then one `'\r'` before it.
pub open spec fn trimmed(s: Seq<char>) -> Seq<char> {
    if s.len() > 0 && s.last() == '\n' {
        let t = s.drop_last();
        if t.len() > 0 && t.last() == '\r' {
            t.drop_last()
        } else {
            t
        }
    } else {
        s
    }
}

pub open spec fn is_digit(c: char) -> bool {
    '0' <= c <= '9'
}

/// The value of a string of decimal digits, most significant first.
pub open spec fn decimal_value(s: Seq<char>) -> nat
    decreases s.len(),
{
    if s.len() == 0 {
        0
    } else {
        10 * decimal_value(s.drop_last()) + (s.last() as nat - '0' as nat) as nat
    }
}

/// The digits of an unsigned number: the text without one leading `'+'`.
pub open spec fn unsigned_digits(s: Seq<char>) -> Seq<char> {
    if s.len() > 0 && s[0] == '+' {
        s.drop_first()
    } else {
        s
    }
}

/// Whether the text is an unsigned decimal number that fits in a `u32`: an optional
/// `'+'` and one or more ASCII digits, nothing else.
pub open spec fn is_u32_text(s: Seq<char>) -> bool {
    let d = unsigned_digits(s);
    &&& d.len() > 0
    &&& forall|i: int| 0 <= i < d.len() ==> is_digit(#[trigger] d[i])
    &&& decimal_value(d) <= u32::MAX
}

/// The number that `is_u32_text` accepts.
pub open spec fn u32_of_text(s: Seq<char>) -> nat {
    decimal_value(unsigned_digits(s))
}

proof fn lemma_prefix_value_bound(d: Seq<char>, k: int)
    requires
        0 <= k <= d.len(),
        forall|i: int| 0 <= i < d.len() ==> is_digit(#[trigger] d[i]),
    ensures
        decimal_value(d.take(k)) <= decimal_value(d),
    decreases d.len(),
{
    if k < d.len() {
        assert(d.drop_last().take(k) =~= d.take(k));
        lemma_prefix_value_bound(d.drop_last(), k);
    } else {
        assert(d.take(k) =~= d);
    }
}

/// Removes a trailing line terminator, `"\n"` or `"\r\n"`, if there is one.
pub fn trim_newline(input: &mut String)
    ensures
        final(input)@ == trimmed(old(input)@),
{
    let n = input.unicode_len();
    if n > 0 && input.get_char(n - 1) == '\n' {
        let mut m = n - 1;
        if m > 0 && input.get_char(m - 1) == '\r' {
            m = m - 1;
        }
        let kept = String::from_str(input.as_str().substring_char(0, m));
        *input = kept;
    }
}

/// Reads an unsigned decimal number that fits in a `u32`, as `str::parse` does;
/// `None` where the text is anything else.
pub fn parse_u32(text: &str) -> (r: Option<u32>)
    ensures
        r is Some <==> is_u32_text(text@),
        r is Some ==> r->Some_0 as nat == u32_of_text(text@),
{
    let n = text.unicode_len();
    let start: usize = if n > 0 && text.get_char(0) == '+' { 1 } else { 0 };
    let ghost d = unsigned_digits(text@);
    assert(d =~= text@.subrange(start as int, n as int));
    if start == n {
        return None;
    }
    let mut value: u64 = 0;
    let mut i: usize = start;
    while i < n
        invariant
            start <= i <= n,
            n == text@.len(),
            d == text@.subrange(start as int, n as int),
            d == unsigned_digits(text@),
            forall|j: int| 0 <= j < i - start ==> is_digit(#[trigger] d[j]),
            value == decimal_value(d.take(i - start)),
            value <= u32::MAX,
        decreases n - i,
    {
        let c = text.get_char(i);
        if !('0' <= c && c <= '9') {
            assert(!is_digit(d[i - start]));
            assert(!is_u32_text(text@));
            return None;
        }
        let digit = (c as u32 - '0' as u32) as u64;
        assert(d.take(i - start + 1).drop_last() =~= d.take(i - start));
        assert(d.take(i - start + 1).last() == c);
        assert(decimal_value(d.take(i - start + 1)) == 10 * value + digit);
        value = value * 10 + digit;
        if value > u32::MAX as u64 {
            proof {
                if forall|j: int| 0 <= j < d.len() ==> is_digit(#[trigger] d[j]) {
                    lemma_prefix_value_bound(d, i - start + 1);
                }
                assert(!is_u32_text(text@));
            }
            return None;
        }
        i += 1;
    }
    assert(d.take(n - start) =~= d);
    Some(value as u32)
}

} // verus!
