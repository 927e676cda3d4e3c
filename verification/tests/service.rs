use parkinglot::billing::compute_invoice;
use parkinglot::errors::Error;
use parkinglot::handlers::{
    checkout_handler, create_block_handler, do_parking_handler, entry_point,
    get_availabilities_by_vehicle_type, initiate_database_handler,
};
use parkinglot::lot::{initiate_database, ParkingLot};
use parkinglot::model::{ParkingEntry, ParkingResp, RequestBlock};

fn request(name: &str, capacity: i32, rate: i64, floor: i8, vehicle_type: &str) -> RequestBlock {
    RequestBlock {
        name: name.to_string(),
        availability: capacity,
        hourly_rate: rate,
        floor,
        vehicle_type: vehicle_type.to_string(),
    }
}

fn enter(
    lot: &mut ParkingLot,
    vehicle: &str,
    block_id: i64,
    checkin: &str,
) -> Result<ParkingResp, Error> {
    do_parking_handler(
        lot,
        ParkingEntry {
            vehicle_id: vehicle.to_string(),
            block_id,
        },
        checkin.to_string(),
    )
}

const T0: &str = "2024-01-01T10:00:00+00:00";

#[test]
fn entry_point_greets() {
    assert_eq!(entry_point(), "Hello All!");
}

#[test]
fn initiate_database_handler_reports_success() {
    let (lot, message) = initiate_database_handler();
    assert_eq!(message, "Successfully initiate database");
    let listing = get_availabilities_by_vehicle_type(&lot, "car");
    assert!(listing.is_empty());
}

#[test]
fn created_block_reads_back_identically() {
    let mut lot = initiate_database();
    let block = create_block_handler(&mut lot, request("A1", 3, 250, 2, "car")).unwrap();
    assert_eq!(block.id, 1);
    assert_eq!(block.name, "A1");
    assert_eq!(block.availability, 3);
    assert_eq!(block.hourly_rate, 250);
    assert_eq!(block.floor, 2);
    assert_eq!(block.vehicle_type, "car");

    let listing = get_availabilities_by_vehicle_type(&lot, "car");
    assert_eq!(listing.len(), 1);
    assert_eq!(listing[0].name, "A1");
    assert_eq!(listing[0].availability, 3);
    assert_eq!(listing[0].hourly_rate, 250);
    assert_eq!(listing[0].floor, 2);
}

#[test]
fn duplicate_name_is_rejected() {
    let mut lot = initiate_database();
    create_block_handler(&mut lot, request("A1", 3, 250, 2, "car")).unwrap();
    match create_block_handler(&mut lot, request("A1", 9, 80, 0, "truck")) {
        Err(e) => assert_eq!(e, Error::DuplicateName),
        Ok(_) => panic!("duplicate name must be rejected"),
    }
    assert_eq!(get_availabilities_by_vehicle_type(&lot, "car").len(), 1);
    assert_eq!(get_availabilities_by_vehicle_type(&lot, "truck").len(), 0);
}

#[test]
fn non_positive_capacity_is_rejected() {
    let mut lot = initiate_database();
    match create_block_handler(&mut lot, request("Z", 0, 10, 0, "car")) {
        Err(e) => assert_eq!(e, Error::InvalidInput),
        Ok(_) => panic!("zero capacity must be rejected"),
    }
    match create_block_handler(&mut lot, request("Z", -4, 10, 0, "car")) {
        Err(e) => assert_eq!(e, Error::InvalidInput),
        Ok(_) => panic!("negative capacity must be rejected"),
    }
}

#[test]
fn negative_rate_is_rejected() {
    let mut lot = initiate_database();
    match create_block_handler(&mut lot, request("Z", 5, -1, 0, "car")) {
        Err(e) => assert_eq!(e, Error::InvalidInput),
        Ok(_) => panic!("negative rate must be rejected"),
    }
}

#[test]
fn enter_unknown_block_fails() {
    let mut lot = initiate_database();
    match enter(&mut lot, "V1", 42, T0) {
        Err(e) => assert_eq!(e, Error::UnknownBlock),
        Ok(_) => panic!("unknown block must be rejected"),
    }
}

#[test]
fn end_to_end_scenario() {
    let mut lot = initiate_database();
    let block = create_block_handler(&mut lot, request("A1", 1, 100, 0, "car")).unwrap();

    let session = enter(&mut lot, "V1", block.id, T0).unwrap();
    assert_eq!(session.id, 1);
    assert_eq!(session.vehicle_id, "V1");
    assert_eq!(session.checkin, T0);
    assert_eq!(session.block_id, block.id);

    match enter(&mut lot, "V2", block.id, T0) {
        Err(e) => assert_eq!(e, Error::BlockFull),
        Ok(_) => panic!("a full block must reject a second vehicle"),
    }

    let invoice = checkout_handler(
        &mut lot,
        "V1",
        "2024-01-01T12:10:00+00:00".to_string(),
    )
    .unwrap();
    assert_eq!(invoice.vehicle_id, "V1");
    assert_eq!(invoice.checkin, T0);
    assert_eq!(invoice.checkout, "2024-01-01T12:10:00+00:00");
    assert_eq!(invoice.block_id, block.id);
    assert_eq!(invoice.invoice.duration_hour, 3);
    assert_eq!(invoice.invoice.amount, 300);

    let second = enter(&mut lot, "V2", block.id, "2024-01-01T12:15:00+00:00").unwrap();
    assert_eq!(second.id, 2);
    assert_eq!(second.vehicle_id, "V2");
}

#[test]
fn availability_tracks_checkins_and_checkouts() {
    let mut lot = initiate_database();
    let block = create_block_handler(&mut lot, request("B", 5, 10, 1, "car")).unwrap();
    enter(&mut lot, "V1", block.id, T0).unwrap();
    enter(&mut lot, "V2", block.id, T0).unwrap();
    enter(&mut lot, "V3", block.id, T0).unwrap();
    checkout_handler(&mut lot, "V2", "2024-01-01T11:00:00+00:00".to_string()).unwrap();

    assert_eq!(lot.get_total_vehicle_in_block(block.id), 2);
    let listing = get_availabilities_by_vehicle_type(&lot, "car");
    assert_eq!(listing.len(), 1);
    assert_eq!(listing[0].availability, 3);
}

#[test]
fn billing_rounds_up_to_whole_hours() {
    let invoice = compute_invoice(0, 59 * 60, 100).unwrap();
    assert_eq!(invoice.duration_hour, 1);
    assert_eq!(invoice.amount, 100);

    let invoice = compute_invoice(0, 61 * 60, 100).unwrap();
    assert_eq!(invoice.duration_hour, 2);
    assert_eq!(invoice.amount, 200);

    let invoice = compute_invoice(0, 0, 100).unwrap();
    assert_eq!(invoice.duration_hour, 1);
    assert_eq!(invoice.amount, 100);
}

#[test]
fn billing_rounds_up_through_checkout() {
    let mut lot = initiate_database();
    let block = create_block_handler(&mut lot, request("A1", 2, 100, 0, "car")).unwrap();

    enter(&mut lot, "V1", block.id, T0).unwrap();
    let fifty_nine = checkout_handler(&mut lot, "V1", "2024-01-01T10:59:00+00:00".to_string())
        .unwrap();
    assert_eq!(fifty_nine.invoice.duration_hour, 1);
    assert_eq!(fifty_nine.invoice.amount, 100);

    enter(&mut lot, "V2", block.id, T0).unwrap();
    let sixty_one = checkout_handler(&mut lot, "V2", "2024-01-01T11:01:00+00:00".to_string())
        .unwrap();
    assert_eq!(sixty_one.invoice.duration_hour, 2);
    assert_eq!(sixty_one.invoice.amount, 200);
}

#[test]
fn zero_elapsed_bills_the_minimum() {
    let mut lot = initiate_database();
    let block = create_block_handler(&mut lot, request("A1", 1, 40, 0, "car")).unwrap();
    enter(&mut lot, "V1", block.id, T0).unwrap();
    let invoice = checkout_handler(&mut lot, "V1", T0.to_string()).unwrap();
    assert_eq!(invoice.invoice.duration_hour, 1);
    assert_eq!(invoice.invoice.amount, 40);
}

#[test]
fn checkout_without_session_fails_and_mutates_nothing() {
    let mut lot = initiate_database();
    let block = create_block_handler(&mut lot, request("A1", 1, 100, 0, "car")).unwrap();
    match checkout_handler(&mut lot, "ghost", T0.to_string()) {
        Err(e) => assert_eq!(e, Error::NoActiveSession),
        Ok(_) => panic!("checkout without a session must fail"),
    }
    let listing = get_availabilities_by_vehicle_type(&lot, "car");
    assert_eq!(listing[0].availability, 1);
    enter(&mut lot, "V1", block.id, T0).unwrap();
}

#[test]
fn multiple_active_sessions_are_rejected() {
    let mut lot = initiate_database();
    let block = create_block_handler(&mut lot, request("C", 2, 10, 0, "car")).unwrap();
    enter(&mut lot, "V1", block.id, T0).unwrap();
    enter(&mut lot, "V1", block.id, T0).unwrap();
    match checkout_handler(&mut lot, "V1", "2024-01-01T11:00:00+00:00".to_string()) {
        Err(e) => assert_eq!(e, Error::MultipleActiveSessions),
        Ok(_) => panic!("an ambiguous checkout must be rejected"),
    }
    assert_eq!(lot.get_total_vehicle_in_block(block.id), 2);
}

#[test]
fn bad_timestamp_is_rejected_before_mutation() {
    let mut lot = initiate_database();
    let block = create_block_handler(&mut lot, request("A1", 1, 100, 0, "car")).unwrap();
    enter(&mut lot, "V1", block.id, T0).unwrap();
    match checkout_handler(&mut lot, "V1", "yesterday".to_string()) {
        Err(e) => assert_eq!(e, Error::TimestampParseError),
        Ok(_) => panic!("a malformed checkout time must be rejected"),
    }
    assert_eq!(lot.get_total_vehicle_in_block(block.id), 1);
    let invoice = checkout_handler(&mut lot, "V1", "2024-01-01T11:30:00+00:00".to_string())
        .unwrap();
    assert_eq!(invoice.invoice.duration_hour, 2);
}

#[test]
fn block_lookups_by_id() {
    let mut lot = initiate_database();
    let block = create_block_handler(&mut lot, request("D", 4, 75, -1, "car")).unwrap();
    assert_eq!(lot.get_availability_by_block_id(block.id).unwrap(), 4);
    assert_eq!(lot.get_hourly_rate_by_block_id(block.id).unwrap(), 75);
    match lot.get_availability_by_block_id(99) {
        Err(e) => assert_eq!(e, Error::UnknownBlock),
        Ok(_) => panic!("unknown id must be rejected"),
    }
    match lot.get_hourly_rate_by_block_id(99) {
        Err(e) => assert_eq!(e, Error::UnknownBlock),
        Ok(_) => panic!("unknown id must be rejected"),
    }
}

#[test]
fn listing_filters_by_vehicle_type() {
    let mut lot = initiate_database();
    create_block_handler(&mut lot, request("A1", 3, 250, 2, "car")).unwrap();
    create_block_handler(&mut lot, request("T1", 2, 400, 0, "truck")).unwrap();
    create_block_handler(&mut lot, request("A2", 6, 220, 3, "car")).unwrap();

    let cars = get_availabilities_by_vehicle_type(&lot, "car");
    assert_eq!(cars.len(), 2);
    assert_eq!(cars[0].name, "A1");
    assert_eq!(cars[1].name, "A2");

    let trucks = get_availabilities_by_vehicle_type(&lot, "truck");
    assert_eq!(trucks.len(), 1);
    assert_eq!(trucks[0].name, "T1");
    assert_eq!(trucks[0].availability, 2);
}

#[test]
fn raw_listing_reports_stored_capacity() {
    let mut lot = initiate_database();
    let block = create_block_handler(&mut lot, request("E", 2, 30, 0, "car")).unwrap();
    enter(&mut lot, "V1", block.id, T0).unwrap();

    let raw = lot.get_block_availability_by_vehicle_type("car");
    assert_eq!(raw.len(), 1);
    assert_eq!(raw[0].availability, 2);

    let effective = get_availabilities_by_vehicle_type(&lot, "car");
    assert_eq!(effective[0].availability, 1);
}

#[test]
fn overlarge_amount_is_a_constraint_violation() {
    match compute_invoice(0, 2 * 3600, i64::MAX) {
        Err(e) => assert_eq!(e, Error::ConstraintViolation),
        Ok(_) => panic!("an amount beyond the representable range must be rejected"),
    }

    let mut lot = initiate_database();
    let block =
        create_block_handler(&mut lot, request("A1", 1, i64::MAX, 0, "car")).unwrap();
    enter(&mut lot, "V1", block.id, T0).unwrap();
    match checkout_handler(&mut lot, "V1", "2024-01-01T12:10:00+00:00".to_string()) {
        Err(e) => assert_eq!(e, Error::ConstraintViolation),
        Ok(_) => panic!("an amount beyond the representable range must be rejected"),
    }

    // The failed checkout closed nothing: the session is still active and a
    // zero-elapsed checkout, whose amount just fits, still succeeds.
    assert_eq!(lot.get_total_vehicle_in_block(block.id), 1);
    let invoice = checkout_handler(&mut lot, "V1", T0.to_string()).unwrap();
    assert_eq!(invoice.invoice.duration_hour, 1);
    assert_eq!(invoice.invoice.amount, i64::MAX);
}

#[test]
fn malformed_stored_checkin_fails_without_closing() {
    let mut lot = initiate_database();
    let block = create_block_handler(&mut lot, request("A1", 1, 100, 0, "car")).unwrap();
    enter(&mut lot, "V1", block.id, "not a timestamp").unwrap();
    match checkout_handler(&mut lot, "V1", T0.to_string()) {
        Err(e) => assert_eq!(e, Error::TimestampParseError),
        Ok(_) => panic!("an unreadable stored checkin must fail the checkout"),
    }
    assert_eq!(lot.get_total_vehicle_in_block(block.id), 1);
    let listing = get_availabilities_by_vehicle_type(&lot, "car");
    assert_eq!(listing[0].availability, 0);
}

#[test]
fn duplicate_name_takes_precedence_over_invalid_input() {
    let mut lot = initiate_database();
    create_block_handler(&mut lot, request("A1", 3, 250, 2, "car")).unwrap();
    match create_block_handler(&mut lot, request("A1", 0, -5, 0, "car")) {
        Err(e) => assert_eq!(e, Error::DuplicateName),
        Ok(_) => panic!("a taken name must be reported before input validation"),
    }
    assert_eq!(get_availabilities_by_vehicle_type(&lot, "car").len(), 1);
}
