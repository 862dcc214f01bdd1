use vstd::prelude::*;
use crate::errors::{LendingError, LendingResult};

verus! {

/// A rolling per-interval budget on net outflows of a reserve.
#[derive(Clone, Copy, Debug, PartialEq, Eq, Structural)]
pub struct WithdrawalCaps {
    pub config_capacity: i64,
    pub current_total: i64,
    pub last_interval_start_timestamp: u64,
    pub config_interval_length_seconds: u64,
}

/// A cap with zero capacity, or with no interval, does not limit anything.
pub open spec fn cap_enabled(c: WithdrawalCaps) -> bool {
    c.config_capacity != 0 && c.config_interval_length_seconds > 0
}

/// The cap seen at time `now`: once an interval has passed, the interval start moves
/// forward by whole intervals and the running total restarts from zero.
pub open spec fn rolled_over(c: WithdrawalCaps, now: u64) -> Result<WithdrawalCaps, LendingError> {
    if now < c.last_interval_start_timestamp {
        Err(LendingError::LastTimestampGreaterThanCurrent)
    } else if now - c.last_interval_start_timestamp >= c.config_interval_length_seconds {
        let len = c.config_interval_length_seconds as int;
        let passed = (now - c.last_interval_start_timestamp) as int;
        Ok(
            WithdrawalCaps {
                current_total: 0,
                last_interval_start_timestamp: (c.last_interval_start_timestamp + (passed / len)
                    * len) as u64,
                ..c
            },
        )
    } else {
        Ok(c)
    }
}

/// Adding an outflow of `amount` at time `now`.
pub open spec fn cap_add_spec(c: WithdrawalCaps, amount: u64, now: u64) -> Result<
    WithdrawalCaps,
    LendingError,
> {
    if !cap_enabled(c) {
        Ok(c)
    } else {
        match rolled_over(c, now) {
            Err(e) => Err(e),
            Ok(c2) => {
                let t = c2.current_total + amount;
                if t > i64::MAX {
                    Err(LendingError::MathOverflow)
                } else if t > c2.config_capacity {
                    Err(LendingError::WithdrawalCapReached)
                } else {
                    Ok(WithdrawalCaps { current_total: t as i64, ..c2 })
                }
            },
        }
    }
}

/// Taking back `amount` of outflow (an inflow) at time `now`.
pub open spec fn cap_sub_spec(c: WithdrawalCaps, amount: u64, now: u64) -> Result<
    WithdrawalCaps,
    LendingError,
> {
    if !cap_enabled(c) {
        Ok(c)
    } else {
        match rolled_over(c, now) {
            Err(e) => Err(e),
            Ok(c2) => {
                let t = c2.current_total - amount;
                if t < i64::MIN {
                    Err(LendingError::MathOverflow)
                } else {
                    Ok(WithdrawalCaps { current_total: t as i64, ..c2 })
                }
            },
        }
    }
}

/// How a mutating call leaves a cap: the new value on success, unchanged on failure.
pub open spec fn cap_updated(
    before: WithdrawalCaps,
    after: WithdrawalCaps,
    r: LendingResult<()>,
    s: Result<WithdrawalCaps, LendingError>,
) -> bool {
    match s {
        Ok(c) => r is Ok && after == c,
        Err(e) => r == Err::<(), LendingError>(e) && after == before,
    }
}

fn roll_over(caps: &WithdrawalCaps, now: u64) -> (r: LendingResult<WithdrawalCaps>)
    requires
        caps.config_interval_length_seconds > 0,
    ensures
        r == rolled_over(*caps, now),
{
    if now < caps.last_interval_start_timestamp {
        return Err(LendingError::LastTimestampGreaterThanCurrent);
    }
    let passed = now - caps.last_interval_start_timestamp;
    if passed >= caps.config_interval_length_seconds {
        let len = caps.config_interval_length_seconds;
        let k = passed / len;
        assert(k * len <= passed) by (nonlinear_arith)
            requires
                k == passed / len,
                len > 0,
        ;
        let start = caps.last_interval_start_timestamp + k * len;
        Ok(WithdrawalCaps { current_total: 0, last_interval_start_timestamp: start, ..*caps })
    } else {
        Ok(*caps)
    }
}

/// Counts an outflow against the cap; fails with `WithdrawalCapReached` when the
/// interval's total would pass the capacity.
pub fn add_to_withdrawal_accum(caps: &mut WithdrawalCaps, amount: u64, now: u64) -> (r:
    LendingResult<()>)
    ensures
        cap_updated(*old(caps), *final(caps), r, cap_add_spec(*old(caps), amount, now)),
{
    if caps.config_capacity == 0 || caps.config_interval_length_seconds == 0 {
        return Ok(());
    }
    let c2 = roll_over(caps, now)?;
    let t: i128 = c2.current_total as i128 + amount as i128;
    if t > i64::MAX as i128 {
        return Err(LendingError::MathOverflow);
    }
    if t > c2.config_capacity as i128 {
        return Err(LendingError::WithdrawalCapReached);
    }
    *caps = WithdrawalCaps { current_total: t as i64, ..c2 };
    Ok(())
}

/// Counts an inflow, which frees capacity in the current interval.
pub fn sub_from_withdrawal_accum(caps: &mut WithdrawalCaps, amount: u64, now: u64) -> (r:
    LendingResult<()>)
    ensures
        cap_updated(*old(caps), *final(caps), r, cap_sub_spec(*old(caps), amount, now)),
{
    if caps.config_capacity == 0 || caps.config_interval_length_seconds == 0 {
        return Ok(());
    }
    let c2 = roll_over(caps, now)?;
    let t: i128 = c2.current_total as i128 - amount as i128;
    if t < i64::MIN as i128 {
        return Err(LendingError::MathOverflow);
    }
    *caps = WithdrawalCaps { current_total: t as i64, ..c2 };
    Ok(())
}

/// One cap operation: an outflow (`true`) or an inflow (`false`) of an amount, at a time.
pub open spec fn cap_step(c: WithdrawalCaps, op: (bool, u64, u64)) -> Result<
    WithdrawalCaps,
    LendingError,
> {
    if op.0 {
        cap_add_spec(c, op.1, op.2)
    } else {
        cap_sub_spec(c, op.1, op.2)
    }
}

/// A sequence of cap operations applied in order; the first failure stops it.
pub open spec fn cap_run(c: WithdrawalCaps, ops: Seq<(bool, u64, u64)>) -> Result<
    WithdrawalCaps,
    LendingError,
>
    decreases ops.len(),
{
    if ops.len() == 0 {
        Ok(c)
    } else {
        match cap_step(c, ops[0]) {
            Ok(c2) => cap_run(c2, ops.drop_first()),
            Err(e) => Err(e),
        }
    }
}

/// Within one interval, no sequence of deposits and withdrawals that succeeds takes the
/// running total past the capacity, and every intermediate total stays within it.
pub proof fn lemma_cap_never_exceeded(c: WithdrawalCaps, ops: Seq<(bool, u64, u64)>)
    requires
        c.current_total <= c.config_capacity,
        forall|i: int|
            0 <= i < ops.len() ==> c.last_interval_start_timestamp <= (#[trigger] ops[i]).2
                < c.last_interval_start_timestamp + c.config_interval_length_seconds,
    ensures
        cap_run(c, ops) is Ok ==> cap_run(c, ops)->Ok_0.current_total <= c.config_capacity,
        cap_run(c, ops) is Ok ==> cap_run(c, ops)->Ok_0.config_capacity == c.config_capacity,
    decreases ops.len(),
{
    if ops.len() > 0 {
        let op = ops[0];
        match cap_step(c, op) {
            Ok(c2) => {
                assert(c2.last_interval_start_timestamp == c.last_interval_start_timestamp);
                assert(c2.config_interval_length_seconds == c.config_interval_length_seconds);
                assert(c2.current_total <= c2.config_capacity);
                let rest = ops.drop_first();
                assert forall|i: int| 0 <= i < rest.len() implies c2.last_interval_start_timestamp
                    <= (#[trigger] rest[i]).2 < c2.last_interval_start_timestamp
                    + c2.config_interval_length_seconds by {
                    assert(rest[i] == ops[i + 1]);
                }
                lemma_cap_never_exceeded(c2, rest);
            },
            Err(_) => {},
        }
    }
}

} // verus!
