use vstd::prelude::*;

verus! {

/// Request body for creating a block. The `availability` field is the block's
/// capacity: the number of vehicles it can hold at once.
pub struct RequestBlock {
    pub name: String,
    pub availability: i32,
    pub hourly_rate: i64,
    pub floor: i8,
    pub vehicle_type: String,
}

/// A parking zone: a fixed capacity (stored in `availability`), an hourly
/// rate in the smallest currency unit, a floor, and a vehicle-type
/// restriction. Immutable after creation.
pub struct Block {
    pub id: i64,
    pub name: String,
    pub availability: i32,
    pub hourly_rate: i64,
    pub floor: i8,
    pub vehicle_type: String,
}

/// One entry of the availability listing for a vehicle type.
pub struct AvailabilitiesVehicleType {
    pub name: String,
    pub availability: i32,
    pub hourly_rate: i64,
    pub floor: i8,
}

/// Request body for entering a block.
pub struct ParkingEntry {
    pub vehicle_id: String,
    pub block_id: i64,
}

/// Alternate request body for entering a block.
pub struct ParkingReq {
    pub vehicle_id: String,
    pub block_id: i64,
}

/// Response to a successful check-in.
pub struct ParkingResp {
    pub id: i64,
    pub vehicle_id: String,
    pub checkin: String,
    pub block_id: i64,
}

/// A closed parking session as returned by the checkout operation. The
/// timestamps are RFC 3339 text, exactly as stored.
pub struct Checkout {
    pub vehicle_id: String,
    pub checkin: String,
    pub checkout: String,
    pub block_id: i64,
}

/// The computed charge for a closed session: hours rounded up from the
/// elapsed time (minimum one) and the amount at the block's hourly rate.
pub struct Invoice {
    pub duration_hour: i64,
    pub amount: i64,
}

/// Response to a checkout: the closed session together with its invoice.
pub struct CheckoutInvoice {
    pub vehicle_id: String,
    pub checkin: String,
    pub checkout: String,
    pub block_id: i64,
    pub invoice: Invoice,
}

/// A stored parking session. `checkout` is absent while the session is
/// active and holds the checkout timestamp once the session is closed.
/// Timestamps are RFC 3339 text, as the store keeps them.
pub struct ParkingSession {
    pub id: i64,
    pub vehicle_id: String,
    pub checkin: String,
    pub checkout: Option<String>,
    pub block_id: i64,
}

/// Mathematical model of a block.
pub ghost struct BlockView {
    pub id: int,
    pub name: Seq<char>,
    pub availability: int,
    pub hourly_rate: int,
    pub floor: int,
    pub vehicle_type: Seq<char>,
}

/// Mathematical model of a stored parking session.
pub ghost struct SessionView {
    pub id: int,
    pub vehicle_id: Seq<char>,
    pub checkin: Seq<char>,
    pub checkout: Option<Seq<char>>,
    pub block_id: int,
}

/// Mathematical model of one availability-listing entry.
pub ghost struct AvailView {
    pub name: Seq<char>,
    pub availability: int,
    pub hourly_rate: int,
    pub floor: int,
}

impl View for Block {
    type V = BlockView;

    open spec fn view(&self) -> BlockView {
        BlockView {
            id: self.id as int,
            name: self.name@,
            availability: self.availability as int,
            hourly_rate: self.hourly_rate as int,
            floor: self.floor as int,
            vehicle_type: self.vehicle_type@,
        }
    }
}

impl View for ParkingSession {
    type V = SessionView;

    open spec fn view(&self) -> SessionView {
        SessionView {
            id: self.id as int,
            vehicle_id: self.vehicle_id@,
            checkin: self.checkin@,
            checkout: match self.checkout {
                Some(t) => Some(t@),
                None => None,
            },
            block_id: self.block_id as int,
        }
    }
}

impl View for AvailabilitiesVehicleType {
    type V = AvailView;

    open spec fn view(&self) -> AvailView {
        AvailView {
            name: self.name@,
            availability: self.availability as int,
            hourly_rate: self.hourly_rate as int,
            floor: self.floor as int,
        }
    }
}

/// Ways of selecting sessions when counting them.
pub ghost enum SessionFilter {
    /// Active sessions (no checkout) recorded against the block.
    ActiveForBlock(int),
    /// All sessions ever recorded against the block.
    AnyForBlock(int),
    /// Closed sessions (checkout set) recorded against the block.
    ClosedForBlock(int),
    /// Active sessions of the vehicle.
    ActiveForVehicle(Seq<char>),
}

/// Whether a session is selected by the filter.
pub open spec fn session_selected(f: SessionFilter, s: SessionView) -> bool {
    match f {
        SessionFilter::ActiveForBlock(b) => s.block_id == b && s.checkout is None,
        SessionFilter::AnyForBlock(b) => s.block_id == b,
        SessionFilter::ClosedForBlock(b) => s.block_id == b && s.checkout is Some,
        SessionFilter::ActiveForVehicle(v) => s.vehicle_id == v && s.checkout is None,
    }
}

/// How many sessions the filter selects.
pub open spec fn count_sessions(sessions: Seq<SessionView>, f: SessionFilter) -> int
    decreases sessions.len(),
{
    if sessions.len() == 0 {
        0
    } else {
        count_sessions(sessions.drop_last(), f) + if session_selected(f, sessions.last()) {
            1int
        } else {
            0int
        }
    }
}

/// Count of active sessions recorded against the block: sessions whose
/// checkout is absent.
pub open spec fn active_count(sessions: Seq<SessionView>, block_id: int) -> int {
    count_sessions(sessions, SessionFilter::ActiveForBlock(block_id))
}

/// Count of all sessions ever recorded against the block.
pub open spec fn total_count(sessions: Seq<SessionView>, block_id: int) -> int {
    count_sessions(sessions, SessionFilter::AnyForBlock(block_id))
}

/// Count of closed sessions recorded against the block.
pub open spec fn closed_count(sessions: Seq<SessionView>, block_id: int) -> int {
    count_sessions(sessions, SessionFilter::ClosedForBlock(block_id))
}

/// Count of active sessions of the vehicle.
pub open spec fn active_vehicle_count(sessions: Seq<SessionView>, vehicle_id: Seq<char>) -> int {
    count_sessions(sessions, SessionFilter::ActiveForVehicle(vehicle_id))
}

pub proof fn lemma_count_sessions_nonneg(sessions: Seq<SessionView>, f: SessionFilter)
    ensures
        0 <= count_sessions(sessions, f),
    decreases sessions.len(),
{
    if sessions.len() > 0 {
        lemma_count_sessions_nonneg(sessions.drop_last(), f);
    }
}

pub proof fn lemma_count_sessions_at_least_one(
    sessions: Seq<SessionView>,
    f: SessionFilter,
    i: int,
)
    requires
        0 <= i < sessions.len(),
        session_selected(f, sessions[i]),
    ensures
        count_sessions(sessions, f) >= 1,
    decreases sessions.len(),
{
    lemma_count_sessions_nonneg(sessions.drop_last(), f);
    if i < sessions.len() - 1 {
        lemma_count_sessions_at_least_one(sessions.drop_last(), f, i);
    }
}

/// A filter that selects at most one session selects it at one position
/// only.
pub proof fn lemma_count_sessions_unique(
    sessions: Seq<SessionView>,
    f: SessionFilter,
    i: int,
    j: int,
)
    requires
        0 <= i < sessions.len(),
        0 <= j < sessions.len(),
        session_selected(f, sessions[i]),
        session_selected(f, sessions[j]),
        count_sessions(sessions, f) <= 1,
    ensures
        i == j,
    decreases sessions.len(),
{
    if i != j {
        if i == sessions.len() - 1 {
            lemma_count_sessions_at_least_one(sessions.drop_last(), f, j);
        } else if j == sessions.len() - 1 {
            lemma_count_sessions_at_least_one(sessions.drop_last(), f, i);
        } else {
            lemma_count_sessions_unique(sessions.drop_last(), f, i, j);
        }
    }
}

pub proof fn lemma_count_sessions_push(sessions: Seq<SessionView>, f: SessionFilter, s: SessionView)
    ensures
        count_sessions(sessions.push(s), f) == count_sessions(sessions, f) + if session_selected(
            f,
            s,
        ) {
            1int
        } else {
            0int
        },
{
    assert(sessions.push(s).drop_last() =~= sessions);
    assert(sessions.push(s).last() == s);
}

pub proof fn lemma_count_sessions_update(
    sessions: Seq<SessionView>,
    i: int,
    s: SessionView,
    f: SessionFilter,
)
    requires
        0 <= i < sessions.len(),
    ensures
        count_sessions(sessions.update(i, s), f) == count_sessions(sessions, f) - (
        if session_selected(f, sessions[i]) {
            1int
        } else {
            0int
        }) + (if session_selected(f, s) {
            1int
        } else {
            0int
        }),
    decreases sessions.len(),
{
    let upd = sessions.update(i, s);
    if i == sessions.len() - 1 {
        assert(upd.drop_last() =~= sessions.drop_last());
        assert(upd.last() == s);
    } else {
        assert(upd.drop_last() =~= sessions.drop_last().update(i, s));
        assert(upd.last() == sessions.last());
        lemma_count_sessions_update(sessions.drop_last(), i, s, f);
    }
}

pub proof fn lemma_count_sessions_zero(sessions: Seq<SessionView>, f: SessionFilter)
    requires
        forall|i: int| 0 <= i < sessions.len() ==> !session_selected(f, #[trigger] sessions[i]),
    ensures
        count_sessions(sessions, f) == 0,
    decreases sessions.len(),
{
    if sessions.len() > 0 {
        assert(!session_selected(f, sessions[sessions.len() - 1]));
        lemma_count_sessions_zero(sessions.drop_last(), f);
    }
}

pub proof fn lemma_count_sessions_take_step(sessions: Seq<SessionView>, f: SessionFilter, i: int)
    requires
        0 <= i < sessions.len(),
    ensures
        count_sessions(sessions.take(i + 1), f) == count_sessions(sessions.take(i), f) + (
        if session_selected(f, sessions[i]) {
            1int
        } else {
            0int
        }),
{
    assert(sessions.take(i + 1).drop_last() =~= sessions.take(i));
    assert(sessions.take(i + 1).last() == sessions[i]);
}

pub proof fn lemma_count_sessions_take_all(sessions: Seq<SessionView>, f: SessionFilter)
    ensures
        count_sessions(sessions.take(sessions.len() as int), f) == count_sessions(sessions, f),
{
    assert(sessions.take(sessions.len() as int) =~= sessions);
}

/// Active sessions are exactly those recorded and not yet closed: for any
/// block, active = total - closed.
pub proof fn lemma_active_is_total_minus_closed(sessions: Seq<SessionView>, block_id: int)
    ensures
        active_count(sessions, block_id) == total_count(sessions, block_id) - closed_count(
            sessions,
            block_id,
        ),
    decreases sessions.len(),
{
    if sessions.len() > 0 {
        lemma_active_is_total_minus_closed(sessions.drop_last(), block_id);
    }
}

} // verus!
