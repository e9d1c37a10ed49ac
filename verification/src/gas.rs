//! Gas estimations for the transactions the canister sends.
//!
//! The fee history and the `eth_estimateGas` answer are fetched by the caller;
//! this module turns them into the fees and the gas limit of a transaction.

use vstd::prelude::*;
use vstd::string::{StringExecFns, StringSliceAdditionalSpecFns};

use crate::error::{ManagerError, ManagerResult};
use crate::uint::{base2, be_value, decimal_text, from_be_slice, to_decimal_string, U256};

verus! {

/// The minimum suggested maximum priority fee per gas.
pub const MIN_SUGGEST_MAX_PRIORITY_FEE_PER_GAS: u64 = 1_500_000_000;

/// Fees of an EIP-1559 transaction.
#[derive(Clone, Copy, Debug, PartialEq, Eq, Structural)]
pub struct FeeEstimates {
    /// Maximum fee per gas
    pub max_fee_per_gas: u128,
    /// Maximum priority fee per gas
    pub max_priority_fee_per_gas: u128,
}

/// The parts of an `eth_feeHistory` answer that the estimate reads.
#[derive(Clone, Debug)]
pub struct FeeHistory {
    /// Lowest number block of the returned range
    pub oldest_block: U256,
    /// Base fee per gas of each block of the range, and of the next block
    pub base_fee_per_gas: Vec<U256>,
    /// The requested reward percentiles of each block
    pub reward: Vec<Vec<U256>>,
}

/// Index of the median of `length` sorted values (the lower one of the two middle
/// values for an even length). There is no median of no values: `length` is positive.
pub fn median_index(length: usize) -> (r: usize)
    requires
        length > 0,
    ensures
        r == (length - 1) / 2,
{
    (length - 1) / 2
}

/// `sorted` with `x` placed after every value, from the back, that is not larger
/// than `x`: one step of sorting in ascending order.
pub open spec fn insert_asc(sorted: Seq<U256>, x: U256) -> Seq<U256>
    decreases sorted.len(),
{
    if sorted.len() == 0 {
        seq![x]
    } else if sorted.last()@ <= x@ {
        sorted.push(x)
    } else {
        insert_asc(sorted.drop_last(), x).push(sorted.last())
    }
}

/// The values sorted in ascending order.
pub open spec fn sort_asc(values: Seq<U256>) -> Seq<U256>
    decreases values.len(),
{
    if values.len() == 0 {
        values
    } else {
        insert_asc(sort_asc(values.drop_last()), values.last())
    }
}

/// Sorted in ascending order.
pub open spec fn is_sorted_asc(s: Seq<U256>) -> bool {
    forall|a: int, b: int| 0 <= a <= b < s.len() ==> s[a]@ <= s[b]@
}

/// Where `insert_asc` puts `x`.
spec fn insert_point_asc(s: Seq<U256>, x: U256) -> int
    decreases s.len(),
{
    if s.len() == 0 {
        0
    } else if s.last()@ <= x@ {
        s.len() as int
    } else {
        insert_point_asc(s.drop_last(), x)
    }
}

proof fn lemma_insert_point_asc(s: Seq<U256>, x: U256)
    ensures
        0 <= insert_point_asc(s, x) <= s.len(),
        forall|k: int| insert_point_asc(s, x) <= k < s.len() ==> s[k]@ > x@,
        insert_point_asc(s, x) > 0 ==> s[insert_point_asc(s, x) - 1]@ <= x@,
    decreases s.len(),
{
    if s.len() > 0 && s.last()@ > x@ {
        let t = s.drop_last();
        lemma_insert_point_asc(t, x);
        assert forall|k: int| insert_point_asc(s, x) <= k < s.len() implies s[k]@ > x@ by {
            if k < t.len() {
                assert(s[k] == t[k]);
            }
        }
    }
}

/// `insert_asc` places `x` right after the last value, from the back, that is not
/// larger.
proof fn lemma_insert_asc_at(s: Seq<U256>, x: U256, j: int)
    requires
        0 <= j <= s.len(),
        forall|k: int| j <= k < s.len() ==> s[k]@ > x@,
        j > 0 ==> s[j - 1]@ <= x@,
    ensures
        insert_asc(s, x) == s.insert(j, x),
    decreases s.len(),
{
    if s.len() == 0 {
        assert(s.insert(j, x) =~= seq![x]);
    } else if j == s.len() {
        assert(s.insert(j, x) =~= s.push(x));
    } else {
        let t = s.drop_last();
        lemma_insert_asc_at(t, x, j);
        assert(s.insert(j, x) =~= t.insert(j, x).push(s.last()));
    }
}

/// `insert_asc` keeps a sorted sequence sorted and adds exactly `x`.
proof fn lemma_insert_asc_sorted(s: Seq<U256>, x: U256)
    requires
        is_sorted_asc(s),
    ensures
        is_sorted_asc(insert_asc(s, x)),
        insert_asc(s, x).to_multiset() == s.to_multiset().insert(x),
{
    let j = insert_point_asc(s, x);
    lemma_insert_point_asc(s, x);
    lemma_insert_asc_at(s, x, j);
    let r = s.insert(j, x);
    s.insert_ensures(j, x);
    assert forall|a: int, b: int| 0 <= a <= b < r.len() implies r[a]@ <= r[b]@ by {
        if a < j && b < j {
        } else if a < j && b == j {
            assert(s[a]@ <= s[j - 1]@);
        } else if a < j {
            assert(s[a]@ <= s[b - 1]@);
        } else if a == j && b > j {
            assert(r[b] == s[b - 1]);
        } else if a > j {
            assert(r[a] == s[a - 1] && r[b] == s[b - 1]);
        }
    }
    vstd::seq_lib::to_multiset_insert(s, j, x);
}

/// `sort_asc` sorts and keeps every value.
pub proof fn lemma_sort_asc(values: Seq<U256>)
    ensures
        is_sorted_asc(sort_asc(values)),
        sort_asc(values).to_multiset() == values.to_multiset(),
        sort_asc(values).len() == values.len(),
    decreases values.len(),
{
    broadcast use vstd::multiset::group_multiset_axioms;
    if values.len() > 0 {
        let t = values.drop_last();
        lemma_sort_asc(t);
        lemma_insert_asc_sorted(sort_asc(t), values.last());
        broadcast use vstd::seq_lib::group_to_multiset_ensures;
        assert(values =~= t.push(values.last()));
        assert(sort_asc(values).len() == sort_asc(values).to_multiset().len());
        assert(values.len() == values.to_multiset().len());
    }
}

/// The values sorted in ascending order.
fn sorted_ascending(values: &Vec<U256>) -> (r: Vec<U256>)
    ensures
        r@ == sort_asc(values@),
{
    let mut sorted: Vec<U256> = Vec::new();
    let n = values.len();
    for i in 0..n
        invariant
            n == values@.len(),
            sorted@ == sort_asc(values@.subrange(0, i as int)),
    {
        let x = values[i];
        let mut j = sorted.len();
        while j > 0 && x.lt(&sorted[j - 1])
            invariant
                0 <= j <= sorted@.len(),
                forall|k: int| j <= k < sorted@.len() ==> sorted@[k]@ > x@,
            decreases j,
        {
            j = j - 1;
        }
        proof {
            lemma_insert_asc_at(sorted@, x, j as int);
            let prefix = values@.subrange(0, i + 1);
            assert(prefix.drop_last() =~= values@.subrange(0, i as int));
            assert(prefix.last() == x);
        }
        sorted.insert(j, x);
    }
    proof {
        assert(values@.subrange(0, n as int) =~= values@);
    }
    sorted
}

/// The rewards of all blocks, block after block.
pub open spec fn all_rewards(reward: Seq<Vec<U256>>) -> Seq<U256> {
    reward.map_values(|v: Vec<U256>| v@).flatten()
}

/// The rewards of all blocks in one list, block after block.
fn flatten_rewards(reward: &Vec<Vec<U256>>) -> (r: Vec<U256>)
    ensures
        r@ == all_rewards(reward@),
{
    let mut r: Vec<U256> = Vec::new();
    let n = reward.len();
    for i in 0..n
        invariant
            n == reward@.len(),
            r@ == all_rewards(reward@.subrange(0, i as int)),
    {
        let row = &reward[i];
        let m = row.len();
        for j in 0..m
            invariant
                m == row@.len(),
                row == &reward@[i as int],
                r@ == all_rewards(reward@.subrange(0, i as int)) + row@.subrange(0, j as int),
        {
            r.push(row[j]);
            proof {
                assert(row@.subrange(0, j + 1) =~= row@.subrange(0, j as int).push(row@[j as int]));
                assert(r@ =~= all_rewards(reward@.subrange(0, i as int)) + row@.subrange(0, j + 1));
            }
        }
        proof {
            let rows = reward@.subrange(0, i as int).map_values(|v: Vec<U256>| v@);
            assert(reward@.subrange(0, i + 1).map_values(|v: Vec<U256>| v@) =~= rows.push(row@));
            rows.lemma_flatten_push(row@);
            assert(row@.subrange(0, m as int) =~= row@);
        }
    }
    proof {
        assert(reward@.subrange(0, n as int) =~= reward@);
    }
    r
}

/// The `{:#?}` text of the error that converting the big integer `v` to a `u128`
/// gives.
pub open spec fn u128_overflow_text(v: nat) -> Seq<char> {
    "TryFromBigIntError {\n    original: "@ + decimal_text(v) + ",\n}"@
}

/// Converts to a `u128`, or gives the text of the big-integer conversion error
/// when the value is too large.
pub(crate) fn big_to_u128(v: U256) -> (r: Result<u128, String>)
    ensures
        v@ < base2() ==> r == Ok::<u128, String>(v@ as u128),
        v@ >= base2() ==> (r matches Err(m) && m@ == u128_overflow_text(v@)),
{
    if v.l2 == 0 && v.l3 == 0 {
        Ok(v.to_u128())
    } else {
        let digits = to_decimal_string(v);
        Err("TryFromBigIntError {\n    original: ".to_owned().concat(digits.as_str()).concat(",\n}"))
    }
}

/// Converts to a `u128`, or fails with `DecodingError` carrying the text of the
/// big-integer conversion error when the value is too large.
fn to_u128_checked(v: U256) -> (r: ManagerResult<u128>)
    ensures
        v@ < base2() ==> r == Ok::<u128, ManagerError>(v@ as u128),
        v@ >= base2() ==> (r matches Err(ManagerError::DecodingError(m)) && m@ == u128_overflow_text(v@)),
{
    match big_to_u128(v) {
        Ok(x) => Ok(x),
        Err(text) => Err(ManagerError::DecodingError(text)),
    }
}

/// The median reward over the past blocks, for a history of `block_count` blocks:
/// the value at the median index of `block_count` in the sorted rewards, or zero
/// if there are not that many rewards.
pub open spec fn median_reward(reward: Seq<Vec<U256>>, block_count: u8) -> nat {
    let sorted = sort_asc(all_rewards(reward));
    let k = (block_count - 1) / 2;
    if k < sorted.len() {
        sorted[k]@
    } else {
        0
    }
}

/// `a + b`, saturating at `u128::MAX`.
pub open spec fn saturating_add_u128(a: nat, b: nat) -> nat {
    if a + b > u128::MAX {
        u128::MAX as nat
    } else {
        a + b
    }
}

/// Estimates the fees of a transaction from the fee history of the past
/// `block_count` blocks (95th percentile rewards).
///
/// The priority fee is the median reward; the maximum fee is the priority fee plus
/// the latest base fee (saturating), and at least 1.5 gwei. Fails with
/// `NonExistentValue` when the history has no base fee, and with `DecodingError`
/// when the base fee or the median reward does not fit in a `u128`.
/// `block_count` is positive: there is no median of no blocks.
pub fn estimate_transaction_fees(block_count: u8, history: &FeeHistory) -> (r: ManagerResult<FeeEstimates>)
    requires
        block_count > 0,
    ensures
        history.base_fee_per_gas@.len() == 0 ==> (r matches Err(e) && e is NonExistentValue),
        history.base_fee_per_gas@.len() > 0 ==> ({
            let base = history.base_fee_per_gas@.last()@;
            let median = median_reward(history.reward@, block_count);
            if base >= base2() {
                r matches Err(ManagerError::DecodingError(m)) && m@ == u128_overflow_text(base)
            } else if median >= base2() {
                r matches Err(ManagerError::DecodingError(m)) && m@ == u128_overflow_text(median)
            } else {
                r matches Ok(fees) && fees.max_priority_fee_per_gas == median && fees.max_fee_per_gas == (
                if saturating_add_u128(median, base) >= MIN_SUGGEST_MAX_PRIORITY_FEE_PER_GAS {
                    saturating_add_u128(median, base)
                } else {
                    MIN_SUGGEST_MAX_PRIORITY_FEE_PER_GAS as nat
                })
            }
        }),
{
    let median_index = median_index(block_count as usize);
    let n = history.base_fee_per_gas.len();
    if n == 0 {
        return Err(ManagerError::NonExistentValue);
    }
    let base_fee_per_gas = history.base_fee_per_gas[n - 1];
    let base_fee_per_gas_u128 = match to_u128_checked(base_fee_per_gas) {
        Ok(v) => v,
        Err(e) => return Err(e),
    };
    let percentiles = sorted_ascending(&flatten_rewards(&history.reward));
    let median = if median_index < percentiles.len() {
        percentiles[median_index]
    } else {
        U256::zero()
    };
    let median_reward_u128 = match to_u128_checked(median) {
        Ok(v) => v,
        Err(e) => return Err(e),
    };
    let sum = median_reward_u128.saturating_add(base_fee_per_gas_u128);
    let floor = MIN_SUGGEST_MAX_PRIORITY_FEE_PER_GAS as u128;
    let max_priority_fee_per_gas = if sum >= floor {
        sum
    } else {
        floor
    };
    Ok(FeeEstimates { max_fee_per_gas: max_priority_fee_per_gas, max_priority_fee_per_gas: median_reward_u128 })
}

/// The estimated fees never go below the minimum suggested fee, and the maximum
/// fee covers the priority fee.
pub proof fn lemma_fee_floor(median: nat, base: nat)
    requires
        median < base2(),
        base < base2(),
    ensures
        ({
            let sum = saturating_add_u128(median, base);
            let max_fee = if sum >= MIN_SUGGEST_MAX_PRIORITY_FEE_PER_GAS {
                sum
            } else {
                MIN_SUGGEST_MAX_PRIORITY_FEE_PER_GAS as nat
            };
            &&& max_fee >= MIN_SUGGEST_MAX_PRIORITY_FEE_PER_GAS
            &&& max_fee >= median
        }),
{
}

/// The value of a hexadecimal digit (either case), if the byte is one.
pub open spec fn hex_digit(c: u8) -> Option<nat> {
    if 48 <= c <= 57 {
        Some((c - 48) as nat)
    } else if 97 <= c <= 102 {
        Some((c - 87) as nat)
    } else if 65 <= c <= 70 {
        Some((c - 55) as nat)
    } else {
        None
    }
}

/// Text of even length made only of hexadecimal digits.
pub open spec fn is_hex_text(text: Seq<u8>) -> bool {
    &&& text.len() % 2 == 0
    &&& forall|i: int| 0 <= i < text.len() ==> (#[trigger] hex_digit(text[i])) is Some
}

/// The bytes that hexadecimal text spells, two digits per byte.
pub open spec fn hex_bytes(text: Seq<u8>) -> Seq<u8> {
    Seq::new(
        text.len() / 2,
        |i: int| (hex_digit(text[2 * i])->0 * 16 + hex_digit(text[2 * i + 1])->0) as u8,
    )
}

/// `hex::decode`. Claimed, as its source shows: it succeeds exactly on text of even
/// length made only of hexadecimal digits (either case), and then gives the bytes
/// the digit pairs spell; on failure, the `{:#?}` text of its error, of which
/// nothing is claimed.
#[verifier::external_body]
pub(crate) fn hex_decode(text: &[u8]) -> (r: Result<Vec<u8>, String>)
    ensures
        r is Ok <==> is_hex_text(text@),
        r matches Ok(bytes) ==> bytes@ == hex_bytes(text@),
{
    hex::decode(text).map_err(|err| format!("{:#?}", err))
}

/// The hexadecimal digits of an `eth_estimateGas` result: what follows its first
/// two bytes (`0x`), with a `0` put in front when their number is odd.
pub open spec fn gas_hex_digits(result: Seq<u8>) -> Seq<u8> {
    let digits = result.subrange(2, result.len() as int);
    if digits.len() % 2 == 1 {
        seq![48u8] + digits
    } else {
        digits
    }
}

/// The digits of a hexadecimal quantity (what follows its first two bytes),
/// padded to an even number as `gas_hex_digits` says.
pub fn quantity_digits(bytes: &[u8]) -> (digits: Vec<u8>)
    requires
        bytes@.len() > 2,
    ensures
        digits@ == gas_hex_digits(bytes@),
{
    let n = bytes.len();
    let mut digits: Vec<u8> = Vec::new();
    if (n - 2) % 2 == 1 {
        digits.push(48u8);
    }
    let start = digits.len();
    for i in 2..n
        invariant
            n == bytes@.len(),
            start <= 1,
            (start == 1) == ((n - 2) % 2 == 1),
            start == 1 ==> digits@[0] == 48u8,
            digits@.len() == start + i - 2,
            forall|k: int| 2 <= k < i ==> #[trigger] digits@[start + k - 2] == bytes@[k],
    {
        digits.push(bytes[i]);
    }
    proof {
        let expected = gas_hex_digits(bytes@);
        let sub = bytes@.subrange(2, n as int);
        assert(digits@.len() == expected.len());
        assert forall|k: int| 0 <= k < digits@.len() implies digits@[k] == expected[k] by {
            if start == 1 {
                if k > 0 {
                    assert(digits@[start + (k + 1) - 2] == bytes@[k + 1]);
                    assert(expected[k] == sub[k - 1]);
                }
            } else {
                assert(digits@[start + (k + 2) - 2] == bytes@[k + 2]);
            }
        }
        assert(digits@ =~= expected);
    }
    digits
}

/// Reads the gas estimate from the `result` of an `eth_estimateGas` answer:
/// hexadecimal text after `0x`.
///
/// Fails with `DecodingError` when the result holds nothing after its first two
/// bytes, or is not hexadecimal.
/// The third byte must start a character, and the digits must spell at most
/// 32 bytes (a 256-bit quantity).
pub fn parse_gas_estimate(result: &str) -> (r: ManagerResult<U256>)
    requires
        result.spec_bytes().len() > 2 ==> vstd::utf8::is_char_boundary(result.spec_bytes(), 2),
        result.spec_bytes().len() > 2 && is_hex_text(gas_hex_digits(result.spec_bytes())) ==> gas_hex_digits(
            result.spec_bytes(),
        ).len() <= 64,
    ensures
        result.spec_bytes().len() <= 2 ==> (r matches Err(ManagerError::DecodingError(m)) && m@
            == "The result field of the RPC's response is empty"@),
        result.spec_bytes().len() > 2 ==> if is_hex_text(gas_hex_digits(result.spec_bytes())) {
            r matches Ok(v) && v@ == be_value(hex_bytes(gas_hex_digits(result.spec_bytes())))
        } else {
            r matches Err(e) && e is DecodingError
        },
{
    let bytes = result.as_bytes();
    if bytes.len() <= 2 {
        return Err(ManagerError::DecodingError("The result field of the RPC's response is empty".to_owned()));
    }
    let digits = quantity_digits(bytes);
    match hex_decode(digits.as_slice()) {
        Ok(decoded) => {
            proof {
                assert(decoded@.len() == digits@.len() / 2);
            }
            Ok(from_be_slice(decoded.as_slice()))
        },
        Err(text) => Err(ManagerError::DecodingError(text)),
    }
}

} // verus!
