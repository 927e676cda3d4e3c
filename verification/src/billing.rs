use vstd::prelude::*;
use vstd::arithmetic::div_mod::{lemma_div_is_ordered, lemma_div_pos_is_pos};
use vstd::arithmetic::mul::lemma_mul_upper_bound;
use crate::errors::Error;
use crate::model::Invoice;

verus! {

/// The billed whole hours for a session: the elapsed time rounded up to the
/// next hour, with a minimum charge of one hour even for zero or negative
/// elapsed time.
pub open spec fn billed_hours(checkin_secs: int, checkout_secs: int) -> int {
    if checkout_secs <= checkin_secs {
        1
    } else {
        (checkout_secs - checkin_secs) / 3600 + 1
    }
}

/// Computes the invoice for a session that checked in at `checkin_secs` and
/// out at `checkout_secs` (both in seconds since the Unix epoch), at the
/// block's hourly rate. Fails only when the amount does not fit the store's
/// signed 64-bit amount column.
pub fn compute_invoice(checkin_secs: i64, checkout_secs: i64, hourly_rate: i64) -> (r: Result<
    Invoice,
    Error,
>)
    requires
        hourly_rate >= 0,
    ensures
        match r {
            Ok(inv) => {
                &&& inv.duration_hour as int == billed_hours(
                    checkin_secs as int,
                    checkout_secs as int,
                )
                &&& inv.amount as int == billed_hours(checkin_secs as int, checkout_secs as int)
                    * hourly_rate as int
                &&& billed_hours(checkin_secs as int, checkout_secs as int) * hourly_rate as int
                    <= i64::MAX as int
            },
            Err(e) => {
                &&& e == Error::ConstraintViolation
                &&& billed_hours(checkin_secs as int, checkout_secs as int) * hourly_rate as int
                    > i64::MAX as int
            },
        },
{
    let duration_hour: i64 = if checkout_secs <= checkin_secs {
        1
    } else {
        let diff_wide: i128 = checkout_secs as i128 - checkin_secs as i128;
        let diff: u64 = diff_wide as u64;
        let hours: u64 = diff / 3600;
        proof {
            lemma_div_is_ordered(diff as int, u64::MAX as int, 3600);
        }
        (hours + 1) as i64
    };
    proof {
        assert(duration_hour as int == billed_hours(checkin_secs as int, checkout_secs as int));
        assert(1 <= duration_hour as int <= 0x20_0000_0000_0000int);
        lemma_mul_upper_bound(
            duration_hour as int,
            0x20_0000_0000_0000int,
            hourly_rate as int,
            i64::MAX as int,
        );
        lemma_mul_upper_bound(0, duration_hour as int, 0, hourly_rate as int);
    }
    let amount_wide: u128 = (duration_hour as u128) * (hourly_rate as u128);
    if amount_wide > i64::MAX as u128 {
        Err(Error::ConstraintViolation)
    } else {
        Ok(Invoice { duration_hour, amount: amount_wide as i64 })
    }
}

/// Rounding of the bill: a partial hour is always charged as a whole one.
/// Fifty-nine minutes bill as one hour, sixty-one minutes as two, and an
/// instantaneous stay still bills the one-hour minimum.
pub proof fn lemma_billing_rounding(t: int)
    ensures
        billed_hours(t, t + 59 * 60) == 1,
        billed_hours(t, t + 61 * 60) == 2,
        billed_hours(t, t) == 1,
{
    assert(3540int / 3600 == 0);
    assert(3660int / 3600 == 1);
}

/// The minimum charge: every checkout bills at least one hour.
pub proof fn lemma_minimum_charge(checkin_secs: int, checkout_secs: int)
    ensures
        billed_hours(checkin_secs, checkout_secs) >= 1,
{
    if checkout_secs > checkin_secs {
        lemma_div_pos_is_pos(checkout_secs - checkin_secs, 3600);
    }
}

} // verus!
