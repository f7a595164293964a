//! ASCII text as bytes, and the decimal numbers of the protocol.

use vstd::prelude::*;
use vstd::string::*;

verus! {

/// The bytes of a text of ASCII characters: the code of each character.
pub open spec fn ascii(text: Seq<char>) -> Seq<u8> {
    text.map_values(|c: char| c as u8)
}

/// The character that writes the digit `d`, for `d` below ten.
pub open spec fn digit_char(d: nat) -> char {
    ('0' as nat + d) as char
}

/// Decimal notation of `n`: most significant digit first, no leading zero,
/// `0` for zero.
pub open spec fn decimal(n: nat) -> Seq<char>
    decreases n,
{
    if n < 10 {
        seq![digit_char(n)]
    } else {
        decimal(n / 10).push(digit_char(n % 10))
    }
}

/// Whether `c` is one of `0` to `9`.
pub open spec fn is_digit(c: char) -> bool {
    '0' <= c <= '9'
}

/// The number that the digit `c` stands for.
pub open spec fn digit_value(c: char) -> nat {
    (c as nat - '0' as nat) as nat
}

/// Whether `s` holds decimal digits only.
pub open spec fn all_digits(s: Seq<char>) -> bool {
    forall|i: int| 0 <= i < s.len() ==> is_digit(#[trigger] s[i])
}

/// The number that a run of decimal digits writes, leading zeros allowed;
/// zero for the empty run.
pub open spec fn digits_value(s: Seq<char>) -> nat
    decreases s.len(),
{
    if s.len() == 0 {
        0
    } else {
        10 * digits_value(s.drop_last()) + digit_value(s.last())
    }
}

/// A number token without its optional leading `+`.
pub open spec fn unsigned_part(s: Seq<char>) -> Seq<char> {
    if s.len() > 0 && s[0] == '+' {
        s.skip(1)
    } else {
        s
    }
}

/// The coordinate that a token writes: an optional `+`, then one or more
/// decimal digits whose value fits a `usize`. Any other token writes none.
pub open spec fn coordinate(s: Seq<char>) -> Option<usize> {
    let d = unsigned_part(s);
    if d.len() > 0 && all_digits(d) && digits_value(d) <= usize::MAX {
        Some(digits_value(d) as usize)
    } else {
        None
    }
}

/// Every character of a decimal notation is a digit, and there is at least one.
pub proof fn lemma_decimal_digits(n: nat)
    ensures
        decimal(n).len() >= 1,
        all_digits(decimal(n)),
    decreases n,
{
    if n >= 10 {
        lemma_decimal_digits(n / 10);
    }
}

/// The decimal notation of a number, read as a run of digits, is worth that
/// number.
pub proof fn lemma_decimal_value(n: nat)
    ensures
        digits_value(decimal(n)) == n,
    decreases n,
{
    if n < 10 {
        assert(digits_value(decimal(n).drop_last()) == 0);
    } else {
        lemma_decimal_value(n / 10);
        assert(decimal(n).drop_last() =~= decimal(n / 10));
    }
}

/// A coordinate written in decimal reads back as itself.
pub proof fn law_decimal_reads_back(n: usize)
    ensures
        coordinate(decimal(n as nat)) == Some(n),
{
    lemma_decimal_digits(n as nat);
    lemma_decimal_value(n as nat);
}

/// A run of digits is worth at least as much as any run it starts with.
pub proof fn lemma_digits_value_prefix(s: Seq<char>, k: int)
    requires
        0 <= k <= s.len(),
    ensures
        digits_value(s.take(k)) <= digits_value(s),
    decreases s.len(),
{
    if k == s.len() {
        assert(s.take(k) =~= s);
    } else {
        lemma_digits_value_prefix(s.drop_last(), k);
        assert(s.drop_last().take(k) =~= s.take(k));
    }
}

/// Appends the bytes of an ASCII string to `out`.
pub fn push_text(out: &mut Vec<u8>, text: &str)
    requires
        text.is_ascii(),
    ensures
        final(out)@ == old(out)@ + ascii(text@),
{
    let bytes = text.as_bytes();
    out.extend_from_slice(bytes);
}

/// Appends the decimal notation of `n` to `out`.
pub fn push_decimal(out: &mut Vec<u8>, n: usize)
    ensures
        final(out)@ == old(out)@ + ascii(decimal(n as nat)),
{
    let mut low_first: Vec<u8> = Vec::new();
    let mut rest: usize = n;
    let ghost mut tail: Seq<char> = Seq::empty();
    while rest >= 10
        invariant
            decimal(n as nat) == decimal(rest as nat) + tail,
            low_first.len() == tail.len(),
            forall|i: int|
                0 <= i < tail.len() ==> #[trigger] low_first@[i] == tail[tail.len() - 1 - i] as u8,
        decreases rest,
    {
        proof {
            tail = seq![digit_char((rest % 10) as nat)] + tail;
        }
        low_first.push(48 + (rest % 10) as u8);
        rest = rest / 10;
    }
    proof {
        tail = seq![digit_char(rest as nat)] + tail;
    }
    low_first.push(48 + rest as u8);
    let mut k: usize = low_first.len();
    while k > 0
        invariant
            k <= low_first.len(),
            low_first.len() == tail.len(),
            tail == decimal(n as nat),
            forall|i: int|
                0 <= i < tail.len() ==> #[trigger] low_first@[i] == tail[tail.len() - 1 - i] as u8,
            out@ == old(out)@ + ascii(tail.take(tail.len() - k)),
        decreases k,
    {
        k = k - 1;
        out.push(low_first[k]);
    }
}

/// Reads a coordinate token.
pub fn parse_coordinate(token: &Vec<char>) -> (res: Option<usize>)
    ensures
        res == coordinate(token@),
{
    let start: usize = if token.len() > 0 && token[0] == '+' { 1 } else { 0 };
    let ghost d = unsigned_part(token@);
    if start == token.len() {
        return None;
    }
    let mut value: usize = 0;
    let mut i: usize = start;
    while i < token.len()
        invariant
            start <= i <= token.len(),
            d == unsigned_part(token@),
            d == token@.skip(start as int),
            all_digits(d.take(i - start)),
            value == digits_value(d.take(i - start)),
        decreases token.len() - i,
    {
        let c = token[i];
        let ghost upto = d.take(i - start + 1);
        proof {
            assert(upto.drop_last() =~= d.take(i - start));
            assert(upto.last() == c);
        }
        if !(c >= '0' && c <= '9') {
            return None;
        }
        let digit: usize = (c as u8 - 48) as usize;
        let next = match value.checked_mul(10) {
            Some(tenfold) => tenfold.checked_add(digit),
            None => None,
        };
        match next {
            Some(v) => {
                value = v;
            },
            None => {
                proof {
                    lemma_digits_value_prefix(d, i - start + 1);
                }
                return None;
            },
        }
        i = i + 1;
    }
    assert(d.take(i - start) =~= d);
    Some(value)
}

} // verus!
