//! Parsing of ledger event lines.
//!
//! A line is an action keyword, then a comma-and-spaces-separated client
//! id and transaction id, and, for deposits and withdrawals, an amount
//! written `integral.fraction` with one to four fraction digits.  Bytes
//! after the parsed prefix are ignored.  The grammar is written down
//! once, as the spec functions below over the line's bytes, and
//! [`parse_line`] is proved to decide it exactly.

use vstd::prelude::*;

use vstd::string::StringSliceAdditionalSpecFns;

use crate::digits::{
    all_digits, digits_val, is_digit, parse_digits, pow10, DIGITS_CAP,
};
use crate::tx_amount::TxAmount;
use crate::{ClientID, LedgerAction, LedgerItem, TxID};

verus! {

/// The action of a well-formed line, with amounts as their scaled
/// mathematical values.
pub ghost enum ActionView {
    /// A deposit of the scaled amount.
    Deposit(int),
    /// A withdrawal of the scaled amount.
    Withdrawal(int),
    /// A dispute request.
    Dispute,
    /// A resolve request.
    Resolve,
    /// A chargeback request.
    Chargeback,
}

/// The mathematical content of a typed action.
pub open spec fn action_view(a: LedgerAction) -> ActionView {
    match a {
        LedgerAction::Deposit(x) => ActionView::Deposit(x@),
        LedgerAction::Withdrawal(x) => ActionView::Withdrawal(x@),
        LedgerAction::Dispute => ActionView::Dispute,
        LedgerAction::Resolve => ActionView::Resolve,
        LedgerAction::Chargeback => ActionView::Chargeback,
    }
}

/// Whether `b` is a space or a tab, the separators accepted after a
/// comma.
pub open spec fn is_space(b: u8) -> bool {
    b == 32 || b == 9
}

/// Length of the separator run starting at `i`.
pub open spec fn space_run(s: Seq<u8>, i: int) -> nat
    decreases s.len() - i,
{
    if i < 0 || i >= s.len() || !is_space(s[i]) {
        0
    } else {
        1 + space_run(s, i + 1)
    }
}

/// Length of the digit run starting at `i`.
pub open spec fn digit_run(s: Seq<u8>, i: int) -> nat
    decreases s.len() - i,
{
    if i < 0 || i >= s.len() || !is_digit(s[i]) {
        0
    } else {
        1 + digit_run(s, i + 1)
    }
}

/// A digit run stays inside the input and consists of digits.
proof fn lemma_digit_run(s: Seq<u8>, i: int)
    requires
        0 <= i <= s.len(),
    ensures
        i + digit_run(s, i) <= s.len(),
        forall|k: int| i <= k < i + digit_run(s, i) ==> is_digit(#[trigger] s[k]),
    decreases s.len() - i,
{
    if i < s.len() && is_digit(s[i]) {
        lemma_digit_run(s, i + 1);
    }
}

/// Whether `s` starts with `p`.
pub open spec fn has_prefix(s: Seq<u8>, p: Seq<u8>) -> bool {
    p.len() <= s.len() && s.subrange(0, p.len() as int) == p
}

/// The bytes of the keyword `deposit`.
pub open spec fn kw_deposit() -> Seq<u8> {
    seq![100u8, 101u8, 112u8, 111u8, 115u8, 105u8, 116u8]
}

/// The bytes of the keyword `withdrawal`.
pub open spec fn kw_withdrawal() -> Seq<u8> {
    seq![119u8, 105u8, 116u8, 104u8, 100u8, 114u8, 97u8, 119u8, 97u8, 108u8]
}

/// The bytes of the keyword `dispute`.
pub open spec fn kw_dispute() -> Seq<u8> {
    seq![100u8, 105u8, 115u8, 112u8, 117u8, 116u8, 101u8]
}

/// The bytes of the keyword `resolve`.
pub open spec fn kw_resolve() -> Seq<u8> {
    seq![114u8, 101u8, 115u8, 111u8, 108u8, 118u8, 101u8]
}

/// The bytes of the keyword `chargeback`.
pub open spec fn kw_chargeback() -> Seq<u8> {
    seq![99u8, 104u8, 97u8, 114u8, 103u8, 101u8, 98u8, 97u8, 99u8, 107u8]
}

/// A comma, at least one separator, and a digit run, starting at `i`:
/// the position after the run and the run's value.
pub open spec fn spec_field(s: Seq<u8>, i: int) -> Option<(int, int)> {
    if 0 <= i < s.len() && s[i] == 44 && space_run(s, i + 1) >= 1 {
        let j = i + 1 + space_run(s, i + 1);
        let n = digit_run(s, j);
        if n >= 1 {
            Some((j + n, digits_val(s.subrange(j, j + n))))
        } else {
            None
        }
    } else {
        None
    }
}

/// Client-id and transaction-id fields starting at `i`: the position
/// after both and the two ids, each of which must fit its type.
pub open spec fn spec_header(s: Seq<u8>, i: int) -> Option<(int, ClientID, TxID)> {
    match spec_field(s, i) {
        Some((j, cv)) => if cv <= u16::MAX {
            match spec_field(s, j) {
                Some((k, tv)) => if tv <= u32::MAX {
                    Some((k, cv as u16, tv as u32))
                } else {
                    None
                },
                None => None,
            }
        } else {
            None
        },
        None => None,
    }
}

/// An amount field starting at `i`: a comma, separators, integral
/// digits, a dot and one to four fraction digits.  Yields the position
/// after the field and the value scaled to four decimal places, which
/// must fit the machine amount range.
pub open spec fn spec_amount(s: Seq<u8>, i: int) -> Option<(int, int)> {
    if 0 <= i < s.len() && s[i] == 44 && space_run(s, i + 1) >= 1 {
        let j = i + 1 + space_run(s, i + 1);
        let n1 = digit_run(s, j);
        if n1 >= 1 && j + n1 < s.len() && s[j + n1] == 46 {
            let k = j + n1 + 1;
            let n2 = digit_run(s, k);
            if 1 <= n2 <= 4 {
                let scaled = digits_val(s.subrange(j, j + n1)) * 10000 + digits_val(
                    s.subrange(k, k + n2),
                ) * pow10((4 - n2) as nat);
                if scaled <= isize::MAX {
                    Some((k + n2, scaled))
                } else {
                    None
                }
            } else {
                None
            }
        } else {
            None
        }
    } else {
        None
    }
}

/// The event denoted by one line: a keyword, the header fields, and for
/// deposits and withdrawals an amount field.  Bytes after the parsed
/// prefix are ignored; every other line is refused.
pub open spec fn spec_line(s: Seq<u8>) -> Option<(ClientID, TxID, ActionView)> {
    if has_prefix(s, kw_withdrawal()) {
        match spec_header(s, 10) {
            Some((k, c, t)) => match spec_amount(s, k) {
                Some((_end, v)) => Some((c, t, ActionView::Withdrawal(v))),
                None => None,
            },
            None => None,
        }
    } else if has_prefix(s, kw_deposit()) {
        match spec_header(s, 7) {
            Some((k, c, t)) => match spec_amount(s, k) {
                Some((_end, v)) => Some((c, t, ActionView::Deposit(v))),
                None => None,
            },
            None => None,
        }
    } else if has_prefix(s, kw_dispute()) {
        match spec_header(s, 7) {
            Some((_k, c, t)) => Some((c, t, ActionView::Dispute)),
            None => None,
        }
    } else if has_prefix(s, kw_chargeback()) {
        match spec_header(s, 10) {
            Some((_k, c, t)) => Some((c, t, ActionView::Chargeback)),
            None => None,
        }
    } else if has_prefix(s, kw_resolve()) {
        match spec_header(s, 7) {
            Some((_k, c, t)) => Some((c, t, ActionView::Resolve)),
            None => None,
        }
    } else {
        None
    }
}

/// Advances over spaces and tabs.
fn skip_spaces(s: &[u8], i: usize) -> (j: usize)
    requires
        i <= s@.len(),
    ensures
        i <= j <= s@.len(),
        j - i == space_run(s@, i as int),
    decreases s@.len() - i,
{
    let mut j = i;
    while j < s.len() && (s[j] == 32 || s[j] == 9)
        invariant
            i <= j <= s@.len(),
            space_run(s@, i as int) == j - i + space_run(s@, j as int),
        decreases s@.len() - j,
    {
        j = j + 1;
    }
    j
}

/// Advances over ASCII digits.
fn skip_digits(s: &[u8], i: usize) -> (j: usize)
    requires
        i <= s@.len(),
    ensures
        i <= j <= s@.len(),
        j - i == digit_run(s@, i as int),
    decreases s@.len() - i,
{
    let mut j = i;
    while j < s.len() && 48 <= s[j] && s[j] <= 57
        invariant
            i <= j <= s@.len(),
            digit_run(s@, i as int) == j - i + digit_run(s@, j as int),
        decreases s@.len() - j,
    {
        j = j + 1;
    }
    j
}

/// Parses one id field: comma, separators, digits.
fn parse_field(s: &[u8], i: usize) -> (r: Option<(usize, u64)>)
    requires
        i <= s@.len(),
    ensures
        match r {
            Some((j, v)) => {
                &&& spec_field(s@, i as int) == Some((j as int, v as int))
                &&& i < j <= s@.len()
                &&& v <= DIGITS_CAP
            },
            None => match spec_field(s@, i as int) {
                Some((j2, v2)) => v2 > DIGITS_CAP,
                None => true,
            },
        },
{
    if i >= s.len() || s[i] != 44 {
        return None;
    }
    let j = skip_spaces(s, i + 1);
    if j == i + 1 {
        return None;
    }
    let k = skip_digits(s, j);
    if k == j {
        return None;
    }
    proof {
        lemma_digit_run(s@, j as int);
        assert(all_digits(s@.subrange(j as int, k as int))) by {
            assert(forall|q: int|
                0 <= q < k - j ==> #[trigger] s@.subrange(j as int, k as int)[q] == s@[j + q]);
        }
    }
    match parse_digits(s, j, k) {
        Some(v) => Some((k, v)),
        None => None,
    }
}

/// Parses the client-id and transaction-id fields.
fn parse_header(s: &[u8], i: usize) -> (r: Option<(usize, ClientID, TxID)>)
    requires
        i <= s@.len(),
    ensures
        match r {
            Some((j, c, t)) => {
                &&& spec_header(s@, i as int) == Some((j as int, c, t))
                &&& i < j <= s@.len()
            },
            None => spec_header(s@, i as int) is None,
        },
{
    let (j, cv) = match parse_field(s, i) {
        Some(x) => x,
        None => {
            return None;
        },
    };
    if cv > 0xFFFF {
        return None;
    }
    let (k, tv) = match parse_field(s, j) {
        Some(x) => x,
        None => {
            return None;
        },
    };
    if tv > 0xFFFF_FFFF {
        return None;
    }
    Some((k, cv as u16, tv as u32))
}

/// Parses one amount field into a ledger amount.
fn parse_amount(s: &[u8], i: usize) -> (r: Option<(usize, TxAmount)>)
    requires
        i <= s@.len(),
    ensures
        match r {
            Some((j, a)) => spec_amount(s@, i as int) == Some((j as int, a@)),
            None => spec_amount(s@, i as int) is None,
        },
{
    if i >= s.len() || s[i] != 44 {
        return None;
    }
    let j0 = skip_spaces(s, i + 1);
    if j0 == i + 1 {
        return None;
    }
    let j = j0;
    let k0 = skip_digits(s, j);
    if k0 == j {
        return None;
    }
    if k0 >= s.len() || s[k0] != 46 {
        return None;
    }
    let k = k0 + 1;
    let e = skip_digits(s, k);
    if e == k || e - k > 4 {
        return None;
    }
    proof {
        lemma_digit_run(s@, j as int);
        lemma_digit_run(s@, k as int);
        assert(all_digits(s@.subrange(j as int, k0 as int))) by {
            assert(forall|q: int|
                0 <= q < k0 - j ==> #[trigger] s@.subrange(j as int, k0 as int)[q] == s@[j + q]);
        }
        assert(all_digits(s@.subrange(k as int, e as int))) by {
            assert(forall|q: int|
                0 <= q < e - k ==> #[trigger] s@.subrange(k as int, e as int)[q] == s@[k + q]);
        }
    }
    let ghost iv_s = digits_val(s@.subrange(j as int, k0 as int));
    let ghost fv_s = digits_val(s@.subrange(k as int, e as int));
    let iv = match parse_digits(s, j, k0) {
        Some(v) => v,
        None => {
            proof {
                crate::digits::lemma_pow10_pos((4 - (e - k)) as nat);
                crate::digits::lemma_digits_val_bound(s@.subrange(k as int, e as int));
                assert(iv_s * 10000 > isize::MAX) by (nonlinear_arith)
                    requires
                        iv_s > DIGITS_CAP,
                        DIGITS_CAP == 999_999_999_999_999_999u64,
                        isize::MAX <= i64::MAX,
                ;
                assert(fv_s * pow10((4 - (e - k)) as nat) >= 0) by (nonlinear_arith)
                    requires
                        fv_s >= 0,
                        pow10((4 - (e - k)) as nat) >= 1,
                ;
            }
            return None;
        },
    };
    let fv = match parse_digits(s, k, e) {
        Some(v) => v,
        None => {
            proof {
                crate::digits::lemma_digits_val_bound(s@.subrange(k as int, e as int));
                crate::digits::lemma_pow10_increases((e - k) as nat, 4);
                assert(pow10(4) == 10000) by {
                    reveal_with_fuel(pow10, 6);
                }
            }
            vstd::pervasive::unreached()
        },
    };
    let p2 = match 4 - (e - k) as u32 {
        0u32 => 1u64,
        1u32 => 10u64,
        2u32 => 100u64,
        _ => 1000u64,
    };
    proof {
        assert(pow10(0) == 1 && pow10(1) == 10 && pow10(2) == 100 && pow10(3) == 1000 && pow10(4)
            == 10000) by {
            reveal_with_fuel(pow10, 6);
        }
        crate::digits::lemma_digits_val_bound(s@.subrange(k as int, e as int));
        crate::digits::lemma_pow10_increases((e - k) as nat, 4);
        assert((iv as u128) * 10000u128 == iv_s * 10000 && (fv as u128) * (p2 as u128) == fv_s
            * pow10((4 - (e - k)) as nat) && iv_s * 10000 + fv_s * pow10((4 - (e - k)) as nat)
            < 100_000_000_000_000_000_000_000u128) by (nonlinear_arith)
            requires
                iv == iv_s,
                fv == fv_s,
                p2 == pow10((4 - (e - k)) as nat),
                0 <= iv_s <= DIGITS_CAP,
                0 <= fv_s < 10000,
                1 <= p2 <= 1000,
                DIGITS_CAP == 999_999_999_999_999_999u64,
        ;
    }
    let scaled = (iv as u128) * 10000u128 + (fv as u128) * (p2 as u128);
    if scaled > isize::MAX as u128 {
        return None;
    }
    Some((e, TxAmount::new(scaled as isize)))
}

/// Parses one ledger line, such as `deposit, 1, 5, 3.25`, into a typed
/// event.  Exactly the lines of the grammar [`spec_line`] are accepted,
/// and the returned event carries the parsed ids and amount.
pub fn parse_line(input: &str) -> (r: Result<LedgerItem, &'static str>)
    ensures
        match r {
            Ok(item) => spec_line(input.spec_bytes()) == Some(
                (item.client_id, item.tx_id, action_view(item.action)),
            ),
            Err(_) => spec_line(input.spec_bytes()) is None,
        },
{
    let s = input.as_bytes();
    if starts_with_withdrawal(s) {
        match parse_header(s, 10) {
            Some((j, client_id, tx_id)) => match parse_amount(s, j) {
                Some((_end, amount)) => Ok(
                    LedgerItem { client_id, tx_id, action: LedgerAction::Withdrawal(amount) },
                ),
                None => Err("Invalid item"),
            },
            None => Err("Invalid item"),
        }
    } else if starts_with_deposit(s) {
        match parse_header(s, 7) {
            Some((j, client_id, tx_id)) => match parse_amount(s, j) {
                Some((_end, amount)) => Ok(
                    LedgerItem { client_id, tx_id, action: LedgerAction::Deposit(amount) },
                ),
                None => Err("Invalid item"),
            },
            None => Err("Invalid item"),
        }
    } else if starts_with_dispute(s) {
        match parse_header(s, 7) {
            Some((_j, client_id, tx_id)) => Ok(
                LedgerItem { client_id, tx_id, action: LedgerAction::Dispute },
            ),
            None => Err("Invalid item"),
        }
    } else if starts_with_chargeback(s) {
        match parse_header(s, 10) {
            Some((_j, client_id, tx_id)) => Ok(
                LedgerItem { client_id, tx_id, action: LedgerAction::Chargeback },
            ),
            None => Err("Invalid item"),
        }
    } else if starts_with_resolve(s) {
        match parse_header(s, 7) {
            Some((_j, client_id, tx_id)) => Ok(
                LedgerItem { client_id, tx_id, action: LedgerAction::Resolve },
            ),
            None => Err("Invalid item"),
        }
    } else {
        Err("Invalid item")
    }
}

/// Whether the line opens with `deposit`.
fn starts_with_deposit(s: &[u8]) -> (b: bool)
    ensures
        b == has_prefix(s@, kw_deposit()),
{
    let b = s.len() >= 7 && s[0] == 100 && s[1] == 101 && s[2] == 112 && s[3] == 111 && s[4] == 115
        && s[5] == 105 && s[6] == 116;
    proof {
        if s@.len() >= 7 {
            assert(s@.subrange(0, 7) =~= kw_deposit() <==> (s@[0] == 100 && s@[1] == 101 && s@[2]
                == 112 && s@[3] == 111 && s@[4] == 115 && s@[5] == 105 && s@[6] == 116));
        }
    }
    b
}

/// Whether the line opens with `withdrawal`.
fn starts_with_withdrawal(s: &[u8]) -> (b: bool)
    ensures
        b == has_prefix(s@, kw_withdrawal()),
{
    let b = s.len() >= 10 && s[0] == 119 && s[1] == 105 && s[2] == 116 && s[3] == 104 && s[4]
        == 100 && s[5] == 114 && s[6] == 97 && s[7] == 119 && s[8] == 97 && s[9] == 108;
    proof {
        if s@.len() >= 10 {
            assert(s@.subrange(0, 10) =~= kw_withdrawal() <==> (s@[0] == 119 && s@[1] == 105
                && s@[2] == 116 && s@[3] == 104 && s@[4] == 100 && s@[5] == 114 && s@[6] == 97
                && s@[7] == 119 && s@[8] == 97 && s@[9] == 108));
        }
    }
    b
}

/// Whether the line opens with `dispute`.
fn starts_with_dispute(s: &[u8]) -> (b: bool)
    ensures
        b == has_prefix(s@, kw_dispute()),
{
    let b = s.len() >= 7 && s[0] == 100 && s[1] == 105 && s[2] == 115 && s[3] == 112 && s[4] == 117
        && s[5] == 116 && s[6] == 101;
    proof {
        if s@.len() >= 7 {
            assert(s@.subrange(0, 7) =~= kw_dispute() <==> (s@[0] == 100 && s@[1] == 105 && s@[2]
                == 115 && s@[3] == 112 && s@[4] == 117 && s@[5] == 116 && s@[6] == 101));
        }
    }
    b
}

/// Whether the line opens with `resolve`.
fn starts_with_resolve(s: &[u8]) -> (b: bool)
    ensures
        b == has_prefix(s@, kw_resolve()),
{
    let b = s.len() >= 7 && s[0] == 114 && s[1] == 101 && s[2] == 115 && s[3] == 111 && s[4] == 108
        && s[5] == 118 && s[6] == 101;
    proof {
        if s@.len() >= 7 {
            assert(s@.subrange(0, 7) =~= kw_resolve() <==> (s@[0] == 114 && s@[1] == 101 && s@[2]
                == 115 && s@[3] == 111 && s@[4] == 108 && s@[5] == 118 && s@[6] == 101));
        }
    }
    b
}

/// Whether the line opens with `chargeback`.
fn starts_with_chargeback(s: &[u8]) -> (b: bool)
    ensures
        b == has_prefix(s@, kw_chargeback()),
{
    let b = s.len() >= 10 && s[0] == 99 && s[1] == 104 && s[2] == 97 && s[3] == 114 && s[4] == 103
        && s[5] == 101 && s[6] == 98 && s[7] == 97 && s[8] == 99 && s[9] == 107;
    proof {
        if s@.len() >= 10 {
            assert(s@.subrange(0, 10) =~= kw_chargeback() <==> (s@[0] == 99 && s@[1] == 104
                && s@[2] == 97 && s@[3] == 114 && s@[4] == 103 && s@[5] == 101 && s@[6] == 98
                && s@[7] == 97 && s@[8] == 99 && s@[9] == 107));
        }
    }
    b
}

} // verus!
