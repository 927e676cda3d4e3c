use vstd::prelude::*;
use crate::billing::{billed_hours, compute_invoice};
use crate::errors::Error;
use crate::lot::{
    block_id_exists, create_block_result, effective_entry, effective_listing,
    hourly_rate_of, reserve_result, views_of_avails, LotView, ParkingLot,
};
use crate::model::{
    active_count, active_vehicle_count, lemma_count_sessions_unique, session_selected,
    AvailabilitiesVehicleType, Block, BlockView, CheckoutInvoice, ParkingEntry, ParkingResp,
    RequestBlock, SessionFilter, SessionView,
};
use crate::time::{parse_rfc3339_secs, rfc3339_secs};

verus! {

/// Greeting returned at the service root.
pub fn entry_point() -> (r: String)
    ensures
        r@ == "Hello All!"@,
{
    "Hello All!".to_owned()
}

/// Sets up a fresh, empty store and reports the outcome; creating the
/// in-memory store always succeeds.
pub fn initiate_database_handler() -> (r: (ParkingLot, String))
    ensures
        r.0.wf(),
        r.0@.blocks == Seq::<BlockView>::empty(),
        r.0@.sessions == Seq::<SessionView>::empty(),
        r.1@ == "Successfully initiate database"@,
{
    let lot = crate::lot::initiate_database();
    (lot, "Successfully initiate database".to_owned())
}

/// Registers a block described by a request, surfacing validation failures
/// as typed errors instead of halting.
pub fn create_block_handler(lot: &mut ParkingLot, req_data: RequestBlock) -> (r: Result<
    Block,
    Error,
>)
    requires
        old(lot).wf(),
    ensures
        final(lot).wf(),
        create_block_result(old(lot)@, final(lot)@, req_data, r),
{
    lot.create_block(req_data)
}

/// Lists the blocks of the vehicle type with their effective availability:
/// the stored capacity minus the block's active sessions.
pub fn get_availabilities_by_vehicle_type(lot: &ParkingLot, vehicle_type: &str) -> (r: Vec<
    AvailabilitiesVehicleType,
>)
    requires
        lot.wf(),
    ensures
        views_of_avails(r@) == effective_listing(lot@.blocks, lot@.sessions, vehicle_type@),
{
    let vt: String = vehicle_type.to_owned();
    let mut out: Vec<AvailabilitiesVehicleType> = Vec::new();
    let mut i: usize = 0;
    proof {
        assert(views_of_avails(out@) =~= effective_listing(
            lot@.blocks.take(0),
            lot@.sessions,
            vehicle_type@,
        ));
    }
    while i < lot.blocks.len()
        invariant
            lot.wf(),
            i <= lot.blocks.len(),
            vt@ == vehicle_type@,
            views_of_avails(out@) == effective_listing(
                lot@.blocks.take(i as int),
                lot@.sessions,
                vehicle_type@,
            ),
        decreases lot.blocks.len() - i,
    {
        let ghost pre_out = out@;
        proof {
            assert(lot@.blocks[i as int] == lot.blocks@[i as int]@);
        }
        let matches_type = lot.blocks[i].vehicle_type == vt;
        if matches_type {
            let reserved: i64 = lot.get_total_vehicle_in_block(lot.blocks[i].id);
            proof {
                assert(active_count(lot@.sessions, lot@.blocks[i as int].id)
                    <= lot@.blocks[i as int].availability);
            }
            let effective: i64 = lot.blocks[i].availability as i64 - reserved;
            let e = AvailabilitiesVehicleType {
                name: lot.blocks[i].name.clone(),
                availability: effective as i32,
                hourly_rate: lot.blocks[i].hourly_rate,
                floor: lot.blocks[i].floor,
            };
            proof {
                assert(e@ == effective_entry(lot@.blocks[i as int], lot@.sessions));
            }
            out.push(e);
            proof {
                assert(views_of_avails(out@) =~= views_of_avails(pre_out).push(
                    effective_entry(lot@.blocks[i as int], lot@.sessions),
                ));
            }
        }
        proof {
            assert(lot@.blocks.take(i as int + 1).drop_last() =~= lot@.blocks.take(i as int));
            assert(lot@.blocks.take(i as int + 1).last() == lot@.blocks[i as int]);
        }
        i += 1;
    }
    proof {
        assert(lot@.blocks.take(lot@.blocks.len() as int) =~= lot@.blocks);
    }
    out
}

/// Handles a request to enter a block: admits the vehicle and records the
/// session only when the block has a free slot.
pub fn do_parking_handler(lot: &mut ParkingLot, entry: ParkingEntry, checkin_dt: String) -> (r:
    Result<ParkingResp, Error>)
    requires
        old(lot).wf(),
    ensures
        final(lot).wf(),
        reserve_result(
            old(lot)@,
            final(lot)@,
            entry.vehicle_id@,
            entry.block_id as int,
            checkin_dt@,
            r,
        ),
{
    lot.reserve_block(entry.vehicle_id, entry.block_id, checkin_dt)
}

/// Handles a checkout: closes the vehicle's single active session at the
/// given time and bills the elapsed stay, rounded up to whole hours with a
/// one-hour minimum, at the block's current hourly rate. Everything that
/// can fail is established first — the session found, both timestamps
/// parsed, the invoice computed — and only then is the session stamped
/// closed, so every failure leaves the store unchanged.
pub fn checkout_handler(lot: &mut ParkingLot, vehicle_id: &str, checkout_dt: String) -> (r: Result<
    CheckoutInvoice,
    Error,
>)
    requires
        old(lot).wf(),
    ensures
        final(lot).wf(),
        match r {
            Ok(ci) => {
                &&& rfc3339_secs(checkout_dt@) is Some
                &&& active_vehicle_count(old(lot)@.sessions, vehicle_id@) == 1
                &&& ci.checkout@ == checkout_dt@
                &&& exists|i: int|
                    {
                        &&& 0 <= i < old(lot)@.sessions.len()
                        &&& session_selected(
                            SessionFilter::ActiveForVehicle(vehicle_id@),
                            #[trigger] old(lot)@.sessions[i],
                        )
                        &&& rfc3339_secs(old(lot)@.sessions[i].checkin) is Some
                        &&& ci.vehicle_id@ == old(lot)@.sessions[i].vehicle_id
                        &&& ci.checkin@ == old(lot)@.sessions[i].checkin
                        &&& ci.block_id as int == old(lot)@.sessions[i].block_id
                        &&& ci.invoice.duration_hour as int == billed_hours(
                            rfc3339_secs(old(lot)@.sessions[i].checkin)->Some_0,
                            rfc3339_secs(checkout_dt@)->Some_0,
                        )
                        &&& final(lot)@.sessions == old(lot)@.sessions.update(
                            i,
                            SessionView {
                                id: old(lot)@.sessions[i].id,
                                vehicle_id: old(lot)@.sessions[i].vehicle_id,
                                checkin: old(lot)@.sessions[i].checkin,
                                checkout: Some(checkout_dt@),
                                block_id: old(lot)@.sessions[i].block_id,
                            },
                        )
                    }
                &&& ci.invoice.amount as int == ci.invoice.duration_hour as int * hourly_rate_of(
                    old(lot)@.blocks,
                    ci.block_id as int,
                )
                &&& block_id_exists(old(lot)@.blocks, ci.block_id as int)
                &&& final(lot)@.blocks == old(lot)@.blocks
                &&& final(lot)@.next_block_id == old(lot)@.next_block_id
                &&& final(lot)@.next_session_id == old(lot)@.next_session_id
            },
            Err(Error::TimestampParseError) => {
                &&& *final(lot) == *old(lot)
                &&& {
                    ||| rfc3339_secs(checkout_dt@) is None
                    ||| {
                        &&& active_vehicle_count(old(lot)@.sessions, vehicle_id@) == 1
                        &&& exists|i: int|
                            {
                                &&& 0 <= i < old(lot)@.sessions.len()
                                &&& session_selected(
                                    SessionFilter::ActiveForVehicle(vehicle_id@),
                                    #[trigger] old(lot)@.sessions[i],
                                )
                                &&& rfc3339_secs(old(lot)@.sessions[i].checkin) is None
                            }
                    }
                }
            },
            Err(Error::NoActiveSession) => {
                &&& rfc3339_secs(checkout_dt@) is Some
                &&& active_vehicle_count(old(lot)@.sessions, vehicle_id@) == 0
                &&& *final(lot) == *old(lot)
            },
            Err(Error::MultipleActiveSessions) => {
                &&& rfc3339_secs(checkout_dt@) is Some
                &&& active_vehicle_count(old(lot)@.sessions, vehicle_id@) >= 2
                &&& *final(lot) == *old(lot)
            },
            Err(Error::ConstraintViolation) => {
                &&& rfc3339_secs(checkout_dt@) is Some
                &&& active_vehicle_count(old(lot)@.sessions, vehicle_id@) == 1
                &&& exists|i: int|
                    {
                        &&& 0 <= i < old(lot)@.sessions.len()
                        &&& session_selected(
                            SessionFilter::ActiveForVehicle(vehicle_id@),
                            #[trigger] old(lot)@.sessions[i],
                        )
                        &&& rfc3339_secs(old(lot)@.sessions[i].checkin) is Some
                        &&& billed_hours(
                            rfc3339_secs(old(lot)@.sessions[i].checkin)->Some_0,
                            rfc3339_secs(checkout_dt@)->Some_0,
                        ) * hourly_rate_of(old(lot)@.blocks, old(lot)@.sessions[i].block_id)
                            > i64::MAX as int
                    }
                &&& *final(lot) == *old(lot)
            },
            _ => false,
        },
{
    let checkout_secs: i64 = match parse_rfc3339_secs(checkout_dt.as_str()) {
        Ok(t) => t,
        Err(e) => {
            return Err(e);
        },
    };
    let row = match lot.find_active_session(vehicle_id) {
        Ok(s) => s,
        Err(e) => {
            return Err(e);
        },
    };
    let ghost i0 = choose|i: int|
        {
            &&& 0 <= i < old(lot)@.sessions.len()
            &&& session_selected(
                SessionFilter::ActiveForVehicle(vehicle_id@),
                #[trigger] old(lot)@.sessions[i],
            )
            &&& row@ == old(lot)@.sessions[i]
        };
    let hourly_rate: i64 = match lot.get_hourly_rate_by_block_id(row.block_id) {
        Ok(rate) => rate,
        Err(_) => {
            proof {
                assert(block_id_exists(old(lot)@.blocks, old(lot)@.sessions[i0].block_id));
                assert(false);
            }
            return Err(Error::UnknownBlock);
        },
    };
    let checkin_secs: i64 = match parse_rfc3339_secs(row.checkin.as_str()) {
        Ok(t) => t,
        Err(e) => {
            return Err(e);
        },
    };
    let invoice = match compute_invoice(checkin_secs, checkout_secs, hourly_rate) {
        Ok(inv) => inv,
        Err(e) => {
            return Err(e);
        },
    };
    let c = match lot.checkout_parking(vehicle_id, checkout_dt) {
        Ok(c) => c,
        Err(e) => {
            proof {
                assert(false);
            }
            return Err(e);
        },
    };
    proof {
        let j0 = choose|i: int|
            {
                &&& 0 <= i < old(lot)@.sessions.len()
                &&& session_selected(
                    SessionFilter::ActiveForVehicle(vehicle_id@),
                    #[trigger] old(lot)@.sessions[i],
                )
                &&& c.vehicle_id@ == old(lot)@.sessions[i].vehicle_id
                &&& c.checkin@ == old(lot)@.sessions[i].checkin
                &&& c.block_id as int == old(lot)@.sessions[i].block_id
                &&& lot@.sessions =~= old(lot)@.sessions.update(
                    i,
                    SessionView {
                        id: old(lot)@.sessions[i].id,
                        vehicle_id: old(lot)@.sessions[i].vehicle_id,
                        checkin: old(lot)@.sessions[i].checkin,
                        checkout: Some(c.checkout@),
                        block_id: old(lot)@.sessions[i].block_id,
                    },
                )
            };
        lemma_count_sessions_unique(
            old(lot)@.sessions,
            SessionFilter::ActiveForVehicle(vehicle_id@),
            i0,
            j0,
        );
    }
    Ok(
        CheckoutInvoice {
            vehicle_id: c.vehicle_id,
            checkin: c.checkin,
            checkout: c.checkout,
            block_id: c.block_id,
            invoice,
        },
    )
}

} // verus!
