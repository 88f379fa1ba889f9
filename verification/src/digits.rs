//! Decimal digit runs: the value a run of ASCII digits denotes, and the
//! digits a number renders to.  Shared by the amount constructor, the
//! amount renderer, and the event-line parser.

use vstd::prelude::*;

verus! {

/// Largest digit-run value the reader accepts; one less than `10^18`,
/// so any run it refuses denotes more than any ledger quantity can hold.
pub const DIGITS_CAP: u64 = 999_999_999_999_999_999;

/// Largest accumulator that can take one more digit and stay within
/// [`DIGITS_CAP`]: one less than `10^17`.
const DIGITS_CAP_STEP: u64 = 99_999_999_999_999_999;

/// Ten to the `n`th power.
pub open spec fn pow10(n: nat) -> nat
    decreases n,
{
    if n == 0 {
        1
    } else {
        10 * pow10((n - 1) as nat)
    }
}

/// Ten to any power is at least one.
pub proof fn lemma_pow10_pos(n: nat)
    ensures
        pow10(n) >= 1,
    decreases n,
{
    if n > 0 {
        lemma_pow10_pos((n - 1) as nat);
    }
}

/// Powers of ten grow with the exponent.
pub proof fn lemma_pow10_increases(a: nat, b: nat)
    requires
        a <= b,
    ensures
        pow10(a) <= pow10(b),
    decreases b,
{
    if a < b {
        lemma_pow10_increases(a, (b - 1) as nat);
        lemma_pow10_pos((b - 1) as nat);
    }
}

/// Computes ten to the `n`th power.
pub fn pow10_u64(n: u32) -> (r: u64)
    requires
        pow10(n as nat) <= u64::MAX,
    ensures
        r as nat == pow10(n as nat),
{
    let mut r: u64 = 1;
    let mut i: u32 = 0;
    while i < n
        invariant
            i <= n,
            r as nat == pow10(i as nat),
            pow10(n as nat) <= u64::MAX,
        decreases n - i,
    {
        proof {
            lemma_pow10_increases(i as nat + 1, n as nat);
        }
        r = r * 10;
        i = i + 1;
    }
    r
}

/// Whether `b` is an ASCII decimal digit.
pub open spec fn is_digit(b: u8) -> bool {
    48 <= b <= 57
}

/// Whether every byte of `s` is an ASCII decimal digit.
pub open spec fn all_digits(s: Seq<u8>) -> bool {
    forall|i: int| 0 <= i < s.len() ==> is_digit(#[trigger] s[i])
}

/// The number a run of ASCII digits denotes, most significant first.
pub open spec fn digits_val(s: Seq<u8>) -> int
    decreases s.len(),
{
    if s.len() == 0 {
        0
    } else {
        digits_val(s.drop_last()) * 10 + (s.last() - 48)
    }
}

/// A digit run of length `n` denotes a value below `10^n`.
pub proof fn lemma_digits_val_bound(s: Seq<u8>)
    requires
        all_digits(s),
    ensures
        0 <= digits_val(s) < pow10(s.len()),
    decreases s.len(),
{
    if s.len() > 0 {
        assert(all_digits(s.drop_last())) by {
            assert(forall|i: int|
                0 <= i < s.len() - 1 ==> #[trigger] s.drop_last()[i] == s[i]);
        }
        lemma_digits_val_bound(s.drop_last());
    }
}

/// Extending a digit run to the right never shrinks its value.
pub proof fn lemma_digits_val_prefix(s: Seq<u8>, n: int)
    requires
        all_digits(s),
        0 <= n <= s.len(),
    ensures
        digits_val(s.take(n)) <= digits_val(s),
    decreases s.len() - n,
{
    if n < s.len() {
        lemma_digits_val_prefix(s, n + 1);
        assert(s.take(n + 1).drop_last() =~= s.take(n));
        assert(all_digits(s.take(n))) by {
            assert(forall|i: int| 0 <= i < n ==> #[trigger] s.take(n)[i] == s[i]);
        }
        lemma_digits_val_bound(s.take(n));
    } else {
        assert(s.take(n) =~= s);
    }
}

/// Reads the digit run `s[start..end]` as a number; runs denoting more
/// than [`DIGITS_CAP`] are refused.
pub fn parse_digits(s: &[u8], start: usize, end: usize) -> (r: Option<u64>)
    requires
        start <= end <= s@.len(),
        all_digits(s@.subrange(start as int, end as int)),
    ensures
        match r {
            Some(v) => {
                &&& v as int == digits_val(s@.subrange(start as int, end as int))
                &&& v <= DIGITS_CAP
            },
            None => digits_val(s@.subrange(start as int, end as int)) > DIGITS_CAP,
        },
{
    let ghost whole = s@.subrange(start as int, end as int);
    let mut acc: u64 = 0;
    let mut i: usize = start;
    while i < end
        invariant
            start <= i <= end <= s@.len(),
            all_digits(whole),
            whole == s@.subrange(start as int, end as int),
            acc as int == digits_val(s@.subrange(start as int, i as int)),
            acc <= DIGITS_CAP,
        decreases end - i,
    {
        proof {
            assert(whole[i - start] == s@[i as int]);
        }
        let d = s[i] - 48;
        if acc > DIGITS_CAP_STEP {
            proof {
                assert(s@.subrange(start as int, i as int + 1).drop_last() =~= s@.subrange(
                    start as int,
                    i as int,
                ));
                assert(digits_val(s@.subrange(start as int, i as int + 1)) == acc * 10 + d);
                assert(s@.subrange(start as int, i as int + 1) =~= whole.take(i + 1 - start));
                lemma_digits_val_prefix(whole, i + 1 - start);
            }
            return None;
        }
        proof {
            assert(s@.subrange(start as int, i as int + 1).drop_last() =~= s@.subrange(
                start as int,
                i as int,
            ));
        }
        acc = acc * 10 + d as u64;
        i = i + 1;
    }
    proof {
        assert(s@.subrange(start as int, i as int) =~= whole);
    }
    Some(acc)
}

/// The ASCII digits of `n`, most significant first; zero renders as one
/// digit.
pub open spec fn spec_digits(n: nat) -> Seq<u8>
    decreases n,
{
    if n < 10 {
        seq![(48 + n) as u8]
    } else {
        spec_digits(n / 10).push((48 + n % 10) as u8)
    }
}

/// Every byte that [`spec_digits`] yields is an ASCII digit.
pub proof fn lemma_spec_digits_ascii(n: nat)
    ensures
        all_digits(spec_digits(n)),
    decreases n,
{
    if n >= 10 {
        lemma_spec_digits_ascii(n / 10);
    }
}

/// A value below `10^k` renders to at most `k` digits (for `k` at least
/// one).
pub proof fn lemma_spec_digits_len(n: nat, k: nat)
    requires
        1 <= k,
        n < pow10(k),
    ensures
        spec_digits(n).len() <= k,
    decreases n,
{
    if n >= 10 {
        lemma_pow10_pos((k - 1) as nat);
        lemma_spec_digits_len(n / 10, (k - 1) as nat);
    }
}

/// Appends the decimal digits of `n` to `out`, most significant first.
pub fn push_digits(n: u128, out: &mut Vec<u8>)
    ensures
        final(out)@ == old(out)@ + spec_digits(n as nat),
    decreases n,
{
    if n >= 10 {
        push_digits(n / 10, out);
        out.push((n % 10) as u8 + 48);
        proof {
            assert(out@ =~= old(out)@ + spec_digits(n as nat));
        }
    } else {
        out.push(n as u8 + 48);
        proof {
            assert(out@ =~= old(out)@ + spec_digits(n as nat));
        }
    }
}

} // verus!
