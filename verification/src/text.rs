//! Reading numbers and separated fields out of text, byte by byte.

use vstd::prelude::*;

verus! {

/// Why a piece of text is no unsigned decimal number.
#[derive(Clone, Copy, Debug, PartialEq, Eq, Structural)]
pub enum IntError {
    /// The text is empty.
    Empty,
    /// The text holds a byte that is no digit, or no digit at all.
    InvalidDigit,
    /// The number is too large for its type.
    Overflow,
}

/// Whether `b` is an ASCII digit.
pub open spec fn is_digit(b: u8) -> bool {
    0x30 <= b <= 0x39
}

/// The value of the decimal digits `s`, read from the left, as far as it
/// stays within `max`: the first byte that is no digit, or the first digit
/// that takes the value beyond `max`, ends the reading with its error.
pub open spec fn spec_digits(s: Seq<u8>, max: nat) -> Result<nat, IntError>
    decreases s.len(),
{
    if s.len() == 0 {
        Ok(0)
    } else {
        match spec_digits(s.drop_last(), max) {
            Err(e) => Err(e),
            Ok(v) => if !is_digit(s.last()) {
                Err(IntError::InvalidDigit)
            } else if v * 10 + (s.last() - 0x30) > max {
                Err(IntError::Overflow)
            } else {
                Ok((v * 10 + (s.last() - 0x30)) as nat)
            },
        }
    }
}

/// The number that the text `s` spells: an optional `+`, then at least one
/// decimal digit and nothing else, with a value of at most `max`.
pub open spec fn spec_parse_decimal(s: Seq<u8>, max: nat) -> Result<nat, IntError> {
    if s.len() == 0 {
        Err(IntError::Empty)
    } else {
        let body = if s[0] == 0x2b {
            s.skip(1)
        } else {
            s
        };
        if body.len() == 0 {
            Err(IntError::InvalidDigit)
        } else {
            spec_digits(body, max)
        }
    }
}

/// Reads the unsigned decimal number that `s` spells, of at most `max`.
pub fn parse_decimal(s: &[u8], max: u64) -> (r: Result<u64, IntError>)
    ensures
        match spec_parse_decimal(s@, max as nat) {
            Ok(v) => r == Ok::<u64, IntError>(v as u64),
            Err(e) => r == Err::<u64, IntError>(e),
        },
{
    if s.len() == 0 {
        return Err(IntError::Empty);
    }
    let start: usize = if s[0] == 0x2b { 1 } else { 0 };
    if start == s.len() {
        return Err(IntError::InvalidDigit);
    }
    let ghost body = s@.skip(start as int);
    let mut value: u64 = 0;
    let mut i: usize = start;
    assert(body.take(0).len() == 0);
    assert(s@.skip(0) =~= s@);
    while i < s.len()
        invariant
            start <= i <= s@.len(),
            start < s@.len(),
            spec_parse_decimal(s@, max as nat) == spec_digits(body, max as nat),
            body == s@.skip(start as int),
            spec_digits(body.take(i - start), max as nat) == Ok::<nat, IntError>(value as nat),
            value <= max,
        decreases s@.len() - i,
    {
        let b: u8 = s[i];
        let ghost next = body.take(i + 1 - start);
        proof {
            assert(next.drop_last() =~= body.take(i - start));
            assert(next.last() == b);
        }
        if b < 0x30 || b > 0x39 {
            proof {
                lemma_digits_error_stays(body, max as nat, i + 1 - start);
            }
            return Err(IntError::InvalidDigit);
        }
        let d: u64 = (b - 0x30) as u64;
        if d > max || value > (max - d) / 10 {
            assert(value * 10 + d > max) by (nonlinear_arith)
                requires
                    d > max || value > (max - d) / 10,
                    0 <= d <= 9,
                    value >= 0,
            ;
            proof {
                lemma_digits_error_stays(body, max as nat, i + 1 - start);
            }
            return Err(IntError::Overflow);
        }
        assert(value * 10 + d <= max) by (nonlinear_arith)
            requires
                value <= (max - d) / 10,
                d <= max,
        ;
        value = value * 10 + d;
        i = i + 1;
    }
    assert(body.take(i - start) =~= body);
    Ok(value)
}

/// Once the reading of a prefix has failed, the reading of the whole text
/// fails in the same way.
pub proof fn lemma_digits_error_stays(s: Seq<u8>, max: nat, n: int)
    requires
        0 <= n <= s.len(),
        spec_digits(s.take(n), max) is Err,
    ensures
        spec_digits(s, max) == spec_digits(s.take(n), max),
    decreases s.len() - n,
{
    if n == s.len() {
        assert(s.take(n) =~= s);
    } else {
        assert(s.take(n + 1).drop_last() =~= s.take(n));
        lemma_digits_error_stays(s, max, n + 1);
    }
}

/// How many of the bytes of `s` are ASCII digits.
pub open spec fn spec_digit_count(s: Seq<u8>) -> nat
    decreases s.len(),
{
    if s.len() == 0 {
        0
    } else {
        spec_digit_count(s.drop_last()) + if is_digit(s.last()) {
            1nat
        } else {
            0nat
        }
    }
}

/// Counts the ASCII digits among the bytes of `s`.
pub fn digit_count(s: &[u8]) -> (r: usize)
    ensures
        r == spec_digit_count(s@),
{
    let mut count: usize = 0;
    let mut i: usize = 0;
    while i < s.len()
        invariant
            i <= s@.len(),
            count <= i,
            count == spec_digit_count(s@.take(i as int)),
        decreases s@.len() - i,
    {
        assert(s@.take(i + 1).drop_last() =~= s@.take(i as int));
        assert(s@.take(i + 1).last() == s@[i as int]);
        if s[i] >= 0x30 && s[i] <= 0x39 {
            count = count + 1;
        }
        i = i + 1;
    }
    assert(s@.take(i as int) =~= s@);
    count
}

/// The position of the first `sep` in `s`, or the length of `s` if there is
/// none.
pub open spec fn spec_index_of(s: Seq<u8>, sep: u8) -> int
    decreases s.len(),
{
    if s.len() == 0 {
        0
    } else if s[0] == sep {
        0
    } else {
        1 + spec_index_of(s.skip(1), sep)
    }
}

/// The fields of `s` between the separators `sep`: one more than there are
/// separators.
pub open spec fn spec_split(s: Seq<u8>, sep: u8) -> Seq<Seq<u8>>
    decreases s.len(),
{
    let i = spec_index_of(s, sep);
    if 0 <= i < s.len() {
        seq![s.take(i)] + spec_split(s.skip(i + 1), sep)
    } else {
        seq![s]
    }
}

/// A position before which no separator stands, and which holds one or ends
/// the text, is where the first separator is searched for in vain no longer.
pub proof fn lemma_index_of(s: Seq<u8>, sep: u8, k: int)
    requires
        0 <= k <= s.len(),
        forall|j: int| 0 <= j < k ==> s[j] != sep,
        k < s.len() ==> s[k] == sep,
    ensures
        spec_index_of(s, sep) == k,
    decreases k,
{
    if k > 0 {
        let t = s.skip(1);
        assert forall|j: int| 0 <= j < k - 1 implies t[j] != sep by {
            assert(t[j] == s[j + 1]);
        }
        lemma_index_of(t, sep, k - 1);
    }
}

/// The fields that were cut off so far, as byte strings.
pub open spec fn fields_view(fields: Seq<Vec<u8>>) -> Seq<Seq<u8>> {
    Seq::new(fields.len(), |i: int| fields[i]@)
}

/// Cuts `s` at every `sep`.
pub fn split(s: &[u8], sep: u8) -> (r: Vec<Vec<u8>>)
    ensures
        fields_view(r@) == spec_split(s@, sep),
{
    let mut fields: Vec<Vec<u8>> = Vec::new();
    let mut cur: Vec<u8> = Vec::new();
    let mut start: usize = 0;
    let mut i: usize = 0;
    proof {
        assert(s@.skip(0) =~= s@);
        assert(fields_view(fields@) + spec_split(s@, sep) =~= spec_split(s@, sep));
        assert(cur@ =~= s@.subrange(0, 0));
    }
    while i < s.len()
        invariant
            start <= i <= s@.len(),
            cur@ == s@.subrange(start as int, i as int),
            forall|j: int| start <= j < i ==> s@[j] != sep,
            spec_split(s@, sep) == fields_view(fields@) + spec_split(s@.skip(start as int), sep),
        decreases s@.len() - i,
    {
        let b: u8 = s[i];
        if b == sep {
            proof {
                let rest = s@.skip(start as int);
                assert forall|j: int| 0 <= j < i - start implies rest[j] != sep by {
                    assert(rest[j] == s@[start + j]);
                }
                lemma_index_of(rest, sep, i - start);
                assert(rest.take(i - start) =~= cur@);
                assert(rest.skip(i - start + 1) =~= s@.skip(i + 1));
                assert(fields_view(fields@.push(cur)) =~= fields_view(fields@) + seq![cur@]);
            }
            fields.push(cur);
            cur = Vec::new();
            start = i + 1;
            assert(cur@ =~= s@.subrange(start as int, start as int));
        } else {
            cur.push(b);
            assert(cur@ =~= s@.subrange(start as int, i + 1));
        }
        i = i + 1;
    }
    proof {
        let rest = s@.skip(start as int);
        assert forall|j: int| 0 <= j < rest.len() implies rest[j] != sep by {
            assert(rest[j] == s@[start + j]);
        }
        lemma_index_of(rest, sep, rest.len() as int);
        assert(rest =~= cur@);
        assert(fields_view(fields@.push(cur)) =~= fields_view(fields@) + seq![cur@]);
    }
    fields.push(cur);
    fields
}

} // verus!
