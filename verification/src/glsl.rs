//! Reading a shader compiler's error log.
//!
//! A compile error must surface the failing source line. The log's second
//! colon-separated field carries the line number, possibly followed by a
//! parenthesised column, as in `0:15(12): error: ...`; the number is the
//! digits of that field up to the first parenthesis. These functions pull
//! the number out of the log and look the numbered line up in the shader
//! source — and where the log has no such field, they report that instead
//! of failing.

use vstd::prelude::*;
use vstd::arithmetic::div_mod::lemma_fundamental_div_mod;
use vstd::arithmetic::div_mod::lemma_mod_bound;

verus! {

/// Index of the first occurrence of `ch`, or the length when absent.
pub open spec fn spec_find(s: Seq<u8>, ch: u8) -> int
    decreases s.len(),
{
    if s.len() == 0 {
        0
    } else if s[0] == ch {
        0
    } else {
        1 + spec_find(s.subrange(1, s.len() as int), ch)
    }
}

/// A first occurrence is exactly an occurrence with none before it.
pub proof fn lemma_find_is(s: Seq<u8>, ch: u8, f: int)
    requires
        0 <= f <= s.len(),
        f < s.len() ==> s[f] == ch,
        forall|i: int| 0 <= i < f ==> s[i] != ch,
        f == s.len() ==> forall|i: int| 0 <= i < s.len() ==> s[i] != ch,
    ensures
        spec_find(s, ch) == f,
    decreases s.len(),
{
    if s.len() == 0 {
    } else if s[0] == ch {
        assert(f == 0);
    } else {
        let t = s.subrange(1, s.len() as int);
        lemma_find_is(t, ch, f - 1);
    }
}

/// Every sequence byte is a decimal digit, and there is at least one.
pub open spec fn spec_all_digits(s: Seq<u8>) -> bool {
    s.len() > 0 && forall|i: int| 0 <= i < s.len() ==> 48 <= #[trigger] s[i] && s[i] <= 57
}

/// The number a sequence of decimal digits spells.
pub open spec fn spec_digits_value(s: Seq<u8>) -> int
    decreases s.len(),
{
    if s.len() == 0 {
        0
    } else {
        spec_digits_value(s.drop_last()) * 10 + (s.last() - 48)
    }
}

/// A digit string's value is never negative.
pub proof fn lemma_digits_value_nonneg(s: Seq<u8>)
    requires
        forall|i: int| 0 <= i < s.len() ==> 48 <= #[trigger] s[i] && s[i] <= 57,
    ensures
        spec_digits_value(s) >= 0,
    decreases s.len(),
{
    if s.len() > 0 {
        lemma_digits_value_nonneg(s.drop_last());
    }
}

/// Appending digits never shrinks the value.
pub proof fn lemma_digits_prefix_le(s: Seq<u8>, q: int)
    requires
        forall|i: int| 0 <= i < s.len() ==> 48 <= #[trigger] s[i] && s[i] <= 57,
        0 <= q <= s.len(),
    ensures
        spec_digits_value(s.take(q)) <= spec_digits_value(s),
    decreases s.len() - q,
{
    if q < s.len() {
        assert(s.take(q + 1).drop_last() =~= s.take(q));
        assert(s.take(q + 1).last() == s[q]);
        lemma_digits_value_nonneg(s.take(q));
        lemma_digits_prefix_le(s, q + 1);
    } else {
        assert(s.take(q) =~= s);
    }
}

/// What the log parser returns: the value of the digits that open the
/// log's second colon-separated field, up to the first parenthesis —
/// nothing when the field is missing, not all digits, or too large for a
/// 64-bit word.
pub open spec fn spec_parsed_error_line(s: Seq<u8>) -> Option<int> {
    let i = spec_find(s, 58);
    if i == s.len() {
        None
    } else {
        let rest = s.subrange(i + 1, s.len() as int);
        let field = rest.subrange(0, spec_find(rest, 58));
        let digits = field.subrange(0, spec_find(field, 40));
        if spec_all_digits(digits) && spec_digits_value(digits) <= u64::MAX {
            Some(spec_digits_value(digits))
        } else {
            None
        }
    }
}

/// Index of the first occurrence of `ch` at or after `from`, or the
/// length when absent.
fn find_byte_from(s: &[u8], from: usize, ch: u8) -> (r: usize)
    requires
        from <= s@.len(),
    ensures
        from <= r <= s@.len(),
        r as int - from as int == spec_find(s@.subrange(from as int, s@.len() as int), ch),
        r < s@.len() ==> s@[r as int] == ch,
        forall|i: int| from <= i < r ==> s@[i] != ch,
{
    let mut j: usize = from;
    while j < s.len()
        invariant
            from <= j <= s@.len(),
            forall|i: int| from <= i < j ==> s@[i] != ch,
        decreases s@.len() - j,
    {
        if s[j] == ch {
            proof {
                lemma_find_is(s@.subrange(from as int, s@.len() as int), ch, j - from);
            }
            return j;
        }
        j = j + 1;
    }
    proof {
        lemma_find_is(s@.subrange(from as int, s@.len() as int), ch, j - from);
    }
    j
}

/// Pull the failing line number out of a shader compiler's log.
///
/// Digits only are read; a log without the field, with other characters
/// in it, or with a number too large for a 64-bit word gives nothing.
#[verifier::rlimit(50)]
#[verifier::loop_isolation(false)]
pub fn parse_error_line(msg: &[u8]) -> (r: Option<u64>)
    ensures
        match r {
            None => spec_parsed_error_line(msg@) is None,
            Some(n) => spec_parsed_error_line(msg@) == Some(n as int),
        },
{
    let len = msg.len();
    let i = find_byte_from(msg, 0, 58);
    proof {
        assert(msg@.subrange(0, msg@.len() as int) =~= msg@);
    }
    if i == len {
        return None;
    }
    let e = find_byte_from(msg, i + 1, 58);
    let p = find_byte_from(msg, i + 1, 40);
    let ghost rest = msg@.subrange(i as int + 1, msg@.len() as int);
    let ghost field = rest.subrange(0, spec_find(rest, 58));
    let ghost digits = field.subrange(0, spec_find(field, 40));
    let stop = if p < e {
        p
    } else {
        e
    };
    proof {
        assert(field =~= msg@.subrange(i as int + 1, e as int));
        if p < e {
            lemma_find_is(field, 40, p as int - (i as int + 1));
        } else {
            lemma_find_is(field, 40, e as int - (i as int + 1));
        }
        assert(digits =~= msg@.subrange(i as int + 1, stop as int));
    }
    if stop == i + 1 {
        return None;
    }
    let mut val: u64 = 0;
    let mut q: usize = i + 1;
    while q < stop
        invariant
            i + 1 <= q <= stop,
            stop <= msg@.len(),
            digits == msg@.subrange(i as int + 1, stop as int),
            forall|j: int| i + 1 <= j < q ==> 48 <= #[trigger] msg@[j] && msg@[j] <= 57,
            val as int == spec_digits_value(digits.take(q as int - (i as int + 1))),
        decreases stop - q,
    {
        let b = msg[q];
        if b < 48 || b > 57 {
            proof {
                let cut = q as int - (i as int + 1);
                assert(digits[cut] == msg@[q as int]);
                assert(!spec_all_digits(digits));
            }
            return None;
        }
        proof {
            let cut = q as int - (i as int + 1);
            assert(digits.take(cut + 1).drop_last() =~= digits.take(cut));
            assert(digits.take(cut + 1).last() == digits[cut]);
        }
        if val > (u64::MAX - (b - 48) as u64) / 10 {
            proof {
                let cut = q as int - (i as int + 1);
                assert(spec_digits_value(digits.take(cut + 1)) == (val as int) * 10 + (b - 48));
                lemma_fundamental_div_mod(u64::MAX - (b - 48), 10);
                lemma_mod_bound(u64::MAX - (b - 48), 10);
                assert((val as int) * 10 + (b - 48) > u64::MAX);
                if spec_all_digits(digits) {
                    lemma_digits_prefix_le(digits, cut + 1);
                    assert(spec_digits_value(digits) > u64::MAX);
                }
            }
            return None;
        }
        val = val * 10 + (b - 48) as u64;
        q = q + 1;
    }
    proof {
        assert(digits.take(stop as int - (i as int + 1)) =~= digits);
    }
    Some(val)
}

/// The `n`-th newline-separated line of a text, counted from zero.
pub open spec fn spec_nth_line(s: Seq<u8>, n: nat) -> Option<Seq<u8>>
    decreases s.len(),
{
    let j = spec_find(s, 10);
    if n == 0 {
        Some(s.subrange(0, j))
    } else if 0 <= j && j < s.len() {
        spec_nth_line(s.subrange(j + 1, s.len() as int), (n - 1) as nat)
    } else {
        None
    }
}

/// Look the `n`-th line of a text up, counted from zero: the bounds of
/// the line within the text, newline excluded.
pub fn nth_line(src: &[u8], n: usize) -> (r: Option<(usize, usize)>)
    ensures
        match r {
            None => spec_nth_line(src@, n as nat) is None,
            Some((a, b)) => a <= b <= src@.len() && spec_nth_line(src@, n as nat) == Some(
                src@.subrange(a as int, b as int),
            ),
        },
{
    let len = src.len();
    proof {
        assert(src@.subrange(0, len as int) =~= src@);
    }
    let mut a: usize = 0;
    let mut k: usize = n;
    loop
        invariant
            a <= len,
            len == src@.len(),
            k <= n,
            spec_nth_line(src@, n as nat) == spec_nth_line(
                src@.subrange(a as int, len as int),
                k as nat,
            ),
        decreases k,
    {
        let e = find_byte_from(src, a, 10);
        proof {
            let window = src@.subrange(a as int, len as int);
            lemma_find_is(window, 10, e as int - a as int);
            if k > 0 && e < len {
                assert(window.subrange(
                    e as int - a as int + 1,
                    window.len() as int,
                ) =~= src@.subrange(e as int + 1, len as int));
            }
            if k == 0 {
                assert(window.subrange(0, e as int - a as int) =~= src@.subrange(
                    a as int,
                    e as int,
                ));
            }
        }
        if k == 0 {
            return Some((a, e));
        }
        if e == len {
            return None;
        }
        a = e + 1;
        k = k - 1;
    }
}

} // verus!
