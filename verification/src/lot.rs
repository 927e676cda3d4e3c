use vstd::prelude::*;
use crate::errors::Error;
use crate::model::{
    active_count, active_vehicle_count, Checkout, closed_count, count_sessions,
    lemma_active_is_total_minus_closed, lemma_count_sessions_push,
    lemma_count_sessions_take_all, lemma_count_sessions_take_step, lemma_count_sessions_update,
    lemma_count_sessions_zero, session_selected, total_count, AvailView,
    AvailabilitiesVehicleType, Block, BlockView, ParkingResp, ParkingSession, RequestBlock,
    SessionFilter, SessionView,
};

verus! {

/// Mathematical model of the whole store: the block table, the parking
/// table, and the next primary keys to be assigned.
pub ghost struct LotView {
    pub blocks: Seq<BlockView>,
    pub sessions: Seq<SessionView>,
    pub next_block_id: int,
    pub next_session_id: int,
}

/// The durable store of the service: the registered blocks and the recorded
/// parking sessions. It is the sole source of truth; every operation reads
/// and writes it directly.
pub struct ParkingLot {
    pub blocks: Vec<Block>,
    pub sessions: Vec<ParkingSession>,
    pub next_block_id: i64,
    pub next_session_id: i64,
}

impl View for ParkingLot {
    type V = LotView;

    open spec fn view(&self) -> LotView {
        LotView {
            blocks: self.blocks@.map_values(|b: Block| b@),
            sessions: self.sessions@.map_values(|s: ParkingSession| s@),
            next_block_id: self.next_block_id as int,
            next_session_id: self.next_session_id as int,
        }
    }
}

/// Whether some block carries the id.
pub open spec fn block_id_exists(blocks: Seq<BlockView>, id: int) -> bool {
    exists|i: int| 0 <= i < blocks.len() && (#[trigger] blocks[i]).id == id
}

/// Whether some block carries the name.
pub open spec fn block_name_exists(blocks: Seq<BlockView>, name: Seq<char>) -> bool {
    exists|i: int| 0 <= i < blocks.len() && (#[trigger] blocks[i]).name == name
}

/// The position of the block carrying the id.
pub open spec fn block_index_of(blocks: Seq<BlockView>, id: int) -> int {
    choose|i: int| 0 <= i < blocks.len() && (#[trigger] blocks[i]).id == id
}

/// The hourly rate of the block carrying the id.
pub open spec fn hourly_rate_of(blocks: Seq<BlockView>, id: int) -> int {
    blocks[block_index_of(blocks, id)].hourly_rate
}

/// The listing entry for a block, with the stored capacity.
pub open spec fn avail_entry(b: BlockView) -> AvailView {
    AvailView {
        name: b.name,
        availability: b.availability,
        hourly_rate: b.hourly_rate,
        floor: b.floor,
    }
}

/// The blocks of the vehicle type, in creation order, each with its stored
/// capacity.
pub open spec fn raw_listing(blocks: Seq<BlockView>, vehicle_type: Seq<char>) -> Seq<AvailView>
    decreases blocks.len(),
{
    if blocks.len() == 0 {
        Seq::empty()
    } else if blocks.last().vehicle_type == vehicle_type {
        raw_listing(blocks.drop_last(), vehicle_type).push(avail_entry(blocks.last()))
    } else {
        raw_listing(blocks.drop_last(), vehicle_type)
    }
}

/// The listing entry for a block, with its effective availability: the
/// stored capacity minus the block's active sessions.
pub open spec fn effective_entry(b: BlockView, sessions: Seq<SessionView>) -> AvailView {
    AvailView {
        name: b.name,
        availability: b.availability - active_count(sessions, b.id),
        hourly_rate: b.hourly_rate,
        floor: b.floor,
    }
}

/// The blocks of the vehicle type, in creation order, each with its
/// effective availability.
pub open spec fn effective_listing(
    blocks: Seq<BlockView>,
    sessions: Seq<SessionView>,
    vehicle_type: Seq<char>,
) -> Seq<AvailView>
    decreases blocks.len(),
{
    if blocks.len() == 0 {
        Seq::empty()
    } else if blocks.last().vehicle_type == vehicle_type {
        effective_listing(blocks.drop_last(), sessions, vehicle_type).push(
            effective_entry(blocks.last(), sessions),
        )
    } else {
        effective_listing(blocks.drop_last(), sessions, vehicle_type)
    }
}

/// The views of the entries of a listing.
pub open spec fn views_of_avails(entries: Seq<AvailabilitiesVehicleType>) -> Seq<AvailView> {
    entries.map_values(|a: AvailabilitiesVehicleType| a@)
}

/// The contract of registering a block: which outcome each request gets,
/// and exactly how the store changes on success.
pub open spec fn create_block_result(
    pre: LotView,
    post: LotView,
    request: RequestBlock,
    r: Result<Block, Error>,
) -> bool {
    match r {
        Ok(b) => {
            &&& request.availability > 0
            &&& request.hourly_rate >= 0
            &&& !block_name_exists(pre.blocks, request.name@)
            &&& pre.next_block_id < i64::MAX
            &&& b@ == (BlockView {
                id: pre.next_block_id,
                name: request.name@,
                availability: request.availability as int,
                hourly_rate: request.hourly_rate as int,
                floor: request.floor as int,
                vehicle_type: request.vehicle_type@,
            })
            &&& post.blocks == pre.blocks.push(b@)
            &&& post.sessions == pre.sessions
            &&& post.next_block_id == pre.next_block_id + 1
            &&& post.next_session_id == pre.next_session_id
        },
        Err(Error::DuplicateName) => {
            &&& block_name_exists(pre.blocks, request.name@)
            &&& post == pre
        },
        Err(Error::InvalidInput) => {
            &&& !block_name_exists(pre.blocks, request.name@)
            &&& request.availability <= 0 || request.hourly_rate < 0
            &&& post == pre
        },
        Err(Error::ConstraintViolation) => {
            &&& !block_name_exists(pre.blocks, request.name@)
            &&& request.availability > 0
            &&& request.hourly_rate >= 0
            &&& pre.next_block_id == i64::MAX
            &&& post == pre
        },
        _ => false,
    }
}

/// The contract of a check-in: admission succeeds exactly when the block
/// exists and has a free slot, and then the session table grows by the one
/// new active session.
pub open spec fn reserve_result(
    pre: LotView,
    post: LotView,
    vehicle_id: Seq<char>,
    block_id: int,
    checkin: Seq<char>,
    r: Result<ParkingResp, Error>,
) -> bool {
    match r {
        Ok(p) => {
            &&& block_id_exists(pre.blocks, block_id)
            &&& active_count(pre.sessions, block_id) < pre.blocks[block_index_of(
                pre.blocks,
                block_id,
            )].availability
            &&& pre.next_session_id < i64::MAX
            &&& p.id as int == pre.next_session_id
            &&& p.vehicle_id@ == vehicle_id
            &&& p.checkin@ == checkin
            &&& p.block_id as int == block_id
            &&& post.sessions == pre.sessions.push(
                SessionView {
                    id: pre.next_session_id,
                    vehicle_id: vehicle_id,
                    checkin: checkin,
                    checkout: None,
                    block_id: block_id,
                },
            )
            &&& post.blocks == pre.blocks
            &&& post.next_block_id == pre.next_block_id
            &&& post.next_session_id == pre.next_session_id + 1
            &&& active_count(post.sessions, block_id) == active_count(pre.sessions, block_id) + 1
        },
        Err(Error::UnknownBlock) => {
            &&& !block_id_exists(pre.blocks, block_id)
            &&& post == pre
        },
        Err(Error::BlockFull) => {
            &&& block_id_exists(pre.blocks, block_id)
            &&& active_count(pre.sessions, block_id) >= pre.blocks[block_index_of(
                pre.blocks,
                block_id,
            )].availability
            &&& post == pre
        },
        Err(Error::ConstraintViolation) => {
            &&& block_id_exists(pre.blocks, block_id)
            &&& active_count(pre.sessions, block_id) < pre.blocks[block_index_of(
                pre.blocks,
                block_id,
            )].availability
            &&& pre.next_session_id == i64::MAX
            &&& post == pre
        },
        _ => false,
    }
}

/// Well-formedness of the store: assigned ids are unique and below the next
/// free id, block names are unique, capacities are positive, rates are
/// non-negative, every session points at a registered block, and no block
/// ever holds more active sessions than its capacity.
pub open spec fn lot_wf(lv: LotView) -> bool {
    &&& 1 <= lv.next_block_id <= i64::MAX
    &&& 1 <= lv.next_session_id <= i64::MAX
    &&& (forall|i: int|
        0 <= i < lv.blocks.len() ==> 1 <= (#[trigger] lv.blocks[i]).id < lv.next_block_id)
    &&& (forall|i: int| 0 <= i < lv.blocks.len() ==> (#[trigger] lv.blocks[i]).availability >= 1)
    &&& (forall|i: int| 0 <= i < lv.blocks.len() ==> (#[trigger] lv.blocks[i]).hourly_rate >= 0)
    &&& (forall|i: int, j: int|
        0 <= i < lv.blocks.len() && 0 <= j < lv.blocks.len() && i != j ==> (
        #[trigger] lv.blocks[i]).id != (#[trigger] lv.blocks[j]).id)
    &&& (forall|i: int, j: int|
        0 <= i < lv.blocks.len() && 0 <= j < lv.blocks.len() && i != j ==> (
        #[trigger] lv.blocks[i]).name != (#[trigger] lv.blocks[j]).name)
    &&& (forall|i: int|
        0 <= i < lv.sessions.len() ==> 1 <= (#[trigger] lv.sessions[i]).id < lv.next_session_id)
    &&& (forall|i: int, j: int|
        0 <= i < lv.sessions.len() && 0 <= j < lv.sessions.len() && i != j ==> (
        #[trigger] lv.sessions[i]).id != (#[trigger] lv.sessions[j]).id)
    &&& (forall|i: int|
        0 <= i < lv.sessions.len() ==> block_id_exists(
            lv.blocks,
            (#[trigger] lv.sessions[i]).block_id,
        ))
    &&& (forall|i: int|
        0 <= i < lv.blocks.len() ==> active_count(lv.sessions, (#[trigger] lv.blocks[i]).id)
            <= lv.blocks[i].availability)
}

/// Creates the store with its two empty tables.
pub fn initiate_database() -> (lot: ParkingLot)
    ensures
        lot.wf(),
        lot@.blocks =~= Seq::<BlockView>::empty(),
        lot@.sessions =~= Seq::<SessionView>::empty(),
        lot@.next_block_id == 1,
        lot@.next_session_id == 1,
{
    let lot = ParkingLot {
        blocks: Vec::new(),
        sessions: Vec::new(),
        next_block_id: 1,
        next_session_id: 1,
    };
    proof {
        assert(lot@.blocks =~= Seq::<BlockView>::empty());
        assert(lot@.sessions =~= Seq::<SessionView>::empty());
    }
    lot
}

impl ParkingLot {
    /// Well-formedness of this store.
    pub open spec fn wf(&self) -> bool {
        lot_wf(self@)
    }

    /// Registers a new block under a fresh id. A name that is already taken
    /// is rejected as a duplicate before anything else is examined, as the
    /// store's uniqueness constraint would fire first; a free name with a
    /// non-positive capacity or a negative rate is rejected as invalid
    /// input. On success the block table grows by exactly the returned
    /// block.
    pub fn create_block(&mut self, request: RequestBlock) -> (r: Result<Block, Error>)
        requires
            old(self).wf(),
        ensures
            final(self).wf(),
            create_block_result(old(self)@, final(self)@, request, r),
    {
        let mut i: usize = 0;
        let mut duplicate = false;
        while i < self.blocks.len()
            invariant
                i <= self.blocks.len(),
                duplicate <==> exists|j: int|
                    0 <= j < i && (#[trigger] self@.blocks[j]).name == request.name@,
            decreases self.blocks.len() - i,
        {
            let name_taken = self.blocks[i].name == request.name;
            proof {
                assert(self@.blocks[i as int] == self.blocks@[i as int]@);
            }
            if name_taken {
                duplicate = true;
            }
            i += 1;
        }
        if duplicate {
            return Err(Error::DuplicateName);
        }
        if request.availability <= 0 || request.hourly_rate < 0 {
            return Err(Error::InvalidInput);
        }
        if self.next_block_id == i64::MAX {
            return Err(Error::ConstraintViolation);
        }
        let id = self.next_block_id;
        let stored = Block {
            id,
            name: request.name.clone(),
            availability: request.availability,
            hourly_rate: request.hourly_rate,
            floor: request.floor,
            vehicle_type: request.vehicle_type.clone(),
        };
        let ghost pre = self@;
        self.blocks.push(stored);
        self.next_block_id = id + 1;
        let b = Block {
            id,
            name: request.name,
            availability: request.availability,
            hourly_rate: request.hourly_rate,
            floor: request.floor,
            vehicle_type: request.vehicle_type,
        };
        proof {
            assert(self@.blocks =~= pre.blocks.push(b@));
            assert(self@.sessions =~= pre.sessions);
            assert(forall|k: int|
                0 <= k < pre.blocks.len() ==> #[trigger] self@.blocks[k] == pre.blocks[k]);
            assert(self@.blocks[pre.blocks.len() as int] == b@);
            assert forall|s: int| 0 <= s < self@.sessions.len() implies block_id_exists(
                self@.blocks,
                (#[trigger] self@.sessions[s]).block_id,
            ) by {
                assert(block_id_exists(pre.blocks, pre.sessions[s].block_id));
                let w = choose|i: int|
                    0 <= i < pre.blocks.len() && (#[trigger] pre.blocks[i]).id
                        == pre.sessions[s].block_id;
                assert(self@.blocks[w].id == self@.sessions[s].block_id);
            }
            assert forall|k: int| 0 <= k < self@.blocks.len() implies active_count(
                self@.sessions,
                (#[trigger] self@.blocks[k]).id,
            ) <= self@.blocks[k].availability by {
                if k < pre.blocks.len() {
                    assert(self@.blocks[k] == pre.blocks[k]);
                } else {
                    assert(self@.blocks[k] == b@);
                    assert forall|s: int| 0 <= s < self@.sessions.len() implies !session_selected(
                        SessionFilter::ActiveForBlock(b@.id),
                        #[trigger] self@.sessions[s],
                    ) by {
                        assert(block_id_exists(pre.blocks, pre.sessions[s].block_id));
                    }
                    lemma_count_sessions_zero(
                        self@.sessions,
                        SessionFilter::ActiveForBlock(b@.id),
                    );
                }
            }
        }
        Ok(b)
    }

    /// Looks up the stored capacity of the block carrying the id.
    pub fn get_availability_by_block_id(&self, block_id: i64) -> (r: Result<i64, Error>)
        requires
            self.wf(),
        ensures
            match r {
                Ok(a) => {
                    &&& block_id_exists(self@.blocks, block_id as int)
                    &&& a as int == self@.blocks[block_index_of(
                        self@.blocks,
                        block_id as int,
                    )].availability
                },
                Err(e) => {
                    &&& e == Error::UnknownBlock
                    &&& !block_id_exists(self@.blocks, block_id as int)
                },
            },
    {
        let mut i: usize = 0;
        while i < self.blocks.len()
            invariant
                self.wf(),
                i <= self.blocks.len(),
                forall|j: int| 0 <= j < i ==> (#[trigger] self@.blocks[j]).id != block_id as int,
            decreases self.blocks.len() - i,
        {
            proof {
                assert(self@.blocks[i as int] == self.blocks@[i as int]@);
            }
            if self.blocks[i].id == block_id {
                proof {
                    let w = block_index_of(self@.blocks, block_id as int);
                    assert(0 <= w < self@.blocks.len() && self@.blocks[w].id == block_id as int);
                    assert(w == i as int);
                }
                return Ok(self.blocks[i].availability as i64);
            }
            i += 1;
        }
        Err(Error::UnknownBlock)
    }

    /// Looks up the hourly rate of the block carrying the id.
    pub fn get_hourly_rate_by_block_id(&self, block_id: i64) -> (r: Result<i64, Error>)
        requires
            self.wf(),
        ensures
            match r {
                Ok(rate) => {
                    &&& block_id_exists(self@.blocks, block_id as int)
                    &&& rate as int == hourly_rate_of(self@.blocks, block_id as int)
                    &&& rate >= 0
                },
                Err(e) => {
                    &&& e == Error::UnknownBlock
                    &&& !block_id_exists(self@.blocks, block_id as int)
                },
            },
    {
        let mut i: usize = 0;
        while i < self.blocks.len()
            invariant
                self.wf(),
                i <= self.blocks.len(),
                forall|j: int| 0 <= j < i ==> (#[trigger] self@.blocks[j]).id != block_id as int,
            decreases self.blocks.len() - i,
        {
            proof {
                assert(self@.blocks[i as int] == self.blocks@[i as int]@);
            }
            if self.blocks[i].id == block_id {
                proof {
                    let w = block_index_of(self@.blocks, block_id as int);
                    assert(0 <= w < self@.blocks.len() && self@.blocks[w].id == block_id as int);
                    assert(w == i as int);
                }
                return Ok(self.blocks[i].hourly_rate);
            }
            i += 1;
        }
        Err(Error::UnknownBlock)
    }

    /// Counts the active sessions recorded against the block: the rows whose
    /// checkout is still absent.
    pub fn get_total_vehicle_in_block(&self, block_id: i64) -> (r: i64)
        requires
            self.wf(),
        ensures
            r as int == active_count(self@.sessions, block_id as int),
            r >= 0,
    {
        let ghost f = SessionFilter::ActiveForBlock(block_id as int);
        let mut count: usize = 0;
        let mut i: usize = 0;
        while i < self.sessions.len()
            invariant
                self.wf(),
                i <= self.sessions.len(),
                count <= i,
                f == SessionFilter::ActiveForBlock(block_id as int),
                count as int == count_sessions(self@.sessions.take(i as int), f),
            decreases self.sessions.len() - i,
        {
            proof {
                assert(self@.sessions[i as int] == self.sessions@[i as int]@);
                lemma_count_sessions_take_step(self@.sessions, f, i as int);
            }
            let is_match = self.sessions[i].block_id == block_id && self.sessions[i].checkout.is_none();
            proof {
                assert(is_match == session_selected(f, self@.sessions[i as int]));
            }
            if is_match {
                count += 1;
            }
            i += 1;
        }
        proof {
            lemma_count_sessions_take_all(self@.sessions, f);
            if block_id_exists(self@.blocks, block_id as int) {
                let w = block_index_of(self@.blocks, block_id as int);
                assert(0 <= w < self@.blocks.len() && self@.blocks[w].id == block_id as int);
                assert(self@.blocks[w] == self.blocks@[w]@);
                assert(active_count(self@.sessions, block_id as int)
                    <= self@.blocks[w].availability);
            } else {
                assert forall|s: int| 0 <= s < self@.sessions.len() implies !session_selected(
                    f,
                    #[trigger] self@.sessions[s],
                ) by {
                    assert(block_id_exists(self@.blocks, self@.sessions[s].block_id));
                }
                lemma_count_sessions_zero(self@.sessions, f);
            }
        }
        count as i64
    }

    /// Lists the blocks of the vehicle type with their stored capacities, in
    /// creation order.
    pub fn get_block_availability_by_vehicle_type(&self, vehicle_type: &str) -> (r: Vec<
        AvailabilitiesVehicleType,
    >)
        ensures
            views_of_avails(r@) == raw_listing(self@.blocks, vehicle_type@),
    {
        let vt: String = vehicle_type.to_owned();
        let mut out: Vec<AvailabilitiesVehicleType> = Vec::new();
        let mut i: usize = 0;
        proof {
            assert(views_of_avails(out@) =~= raw_listing(
                self@.blocks.take(0),
                vehicle_type@,
            ));
        }
        while i < self.blocks.len()
            invariant
                i <= self.blocks.len(),
                vt@ == vehicle_type@,
                views_of_avails(out@) == raw_listing(self@.blocks.take(i as int), vehicle_type@),
            decreases self.blocks.len() - i,
        {
            let ghost pre_out = out@;
            proof {
                assert(self@.blocks[i as int] == self.blocks@[i as int]@);
            }
            let matches_type = self.blocks[i].vehicle_type == vt;
            if matches_type {
                let e = AvailabilitiesVehicleType {
                    name: self.blocks[i].name.clone(),
                    availability: self.blocks[i].availability,
                    hourly_rate: self.blocks[i].hourly_rate,
                    floor: self.blocks[i].floor,
                };
                proof {
                    assert(e@ == avail_entry(self@.blocks[i as int]));
                }
                out.push(e);
                proof {
                    assert(views_of_avails(out@) =~= views_of_avails(pre_out).push(
                        avail_entry(self@.blocks[i as int]),
                    ));
                }
            }
            proof {
                assert(self@.blocks.take(i as int + 1).drop_last() =~= self@.blocks.take(
                    i as int,
                ));
                assert(self@.blocks.take(i as int + 1).last() == self@.blocks[i as int]);
            }
            i += 1;
        }
        proof {
            assert(self@.blocks.take(self@.blocks.len() as int) =~= self@.blocks);
        }
        out
    }

    /// Records a check-in against the block as a single guarded insert: the
    /// session is created only when the block exists and its active sessions
    /// are strictly below its capacity, so admission can never overfill a
    /// block.
    pub fn reserve_block(&mut self, vehicle_id: String, block_id: i64, checkin_dt: String) -> (r:
        Result<ParkingResp, Error>)
        requires
            old(self).wf(),
        ensures
            final(self).wf(),
            reserve_result(
                old(self)@,
                final(self)@,
                vehicle_id@,
                block_id as int,
                checkin_dt@,
                r,
            ),
    {
        let avail: i64 = match self.get_availability_by_block_id(block_id) {
            Ok(a) => a,
            Err(_) => {
                return Err(Error::UnknownBlock);
            },
        };
        let reserved: i64 = self.get_total_vehicle_in_block(block_id);
        if reserved >= avail {
            return Err(Error::BlockFull);
        }
        if self.next_session_id == i64::MAX {
            return Err(Error::ConstraintViolation);
        }
        let id = self.next_session_id;
        let ghost pre = self@;
        let session = ParkingSession {
            id,
            vehicle_id: vehicle_id.clone(),
            checkin: checkin_dt.clone(),
            checkout: None,
            block_id,
        };
        let ghost sv = session@;
        self.sessions.push(session);
        self.next_session_id = id + 1;
        proof {
            assert(self@.sessions =~= pre.sessions.push(sv));
            assert(self@.blocks =~= pre.blocks);
            assert(forall|k: int|
                0 <= k < pre.sessions.len() ==> #[trigger] self@.sessions[k] == pre.sessions[k]);
            assert(self@.sessions[pre.sessions.len() as int] == sv);
            assert forall|k: int| 0 <= k < self@.blocks.len() implies active_count(
                self@.sessions,
                (#[trigger] self@.blocks[k]).id,
            ) <= self@.blocks[k].availability by {
                lemma_count_sessions_push(
                    pre.sessions,
                    SessionFilter::ActiveForBlock(self@.blocks[k].id),
                    sv,
                );
                if self@.blocks[k].id == block_id as int {
                    let w = block_index_of(pre.blocks, block_id as int);
                    assert(0 <= w < pre.blocks.len() && pre.blocks[w].id == block_id as int);
                    assert(w == k);
                }
            }
            assert forall|s: int| 0 <= s < self@.sessions.len() implies block_id_exists(
                self@.blocks,
                (#[trigger] self@.sessions[s]).block_id,
            ) by {
                if s < pre.sessions.len() {
                    assert(block_id_exists(pre.blocks, pre.sessions[s].block_id));
                }
            }
            lemma_count_sessions_push(
                pre.sessions,
                SessionFilter::ActiveForBlock(block_id as int),
                sv,
            );
        }
        Ok(ParkingResp { id, vehicle_id, checkin: checkin_dt, block_id })
    }

    /// Finds the vehicle's single active session without touching the
    /// store: the row a checkout would close. Fails exactly as the checkout
    /// does when the vehicle has no active session, or more than one.
    pub fn find_active_session(&self, vehicle_id: &str) -> (r: Result<ParkingSession, Error>)
        requires
            self.wf(),
        ensures
            match r {
                Ok(s) => {
                    &&& active_vehicle_count(self@.sessions, vehicle_id@) == 1
                    &&& exists|i: int|
                        {
                            &&& 0 <= i < self@.sessions.len()
                            &&& session_selected(
                                SessionFilter::ActiveForVehicle(vehicle_id@),
                                #[trigger] self@.sessions[i],
                            )
                            &&& s@ == self@.sessions[i]
                        }
                },
                Err(Error::NoActiveSession) => active_vehicle_count(self@.sessions, vehicle_id@)
                    == 0,
                Err(Error::MultipleActiveSessions) => active_vehicle_count(
                    self@.sessions,
                    vehicle_id@,
                ) >= 2,
                _ => false,
            },
    {
        let v: String = vehicle_id.to_owned();
        let ghost fv = SessionFilter::ActiveForVehicle(vehicle_id@);
        let mut i: usize = 0;
        let mut found: usize = 0;
        let mut idx: usize = 0;
        while i < self.sessions.len()
            invariant
                i <= self.sessions.len(),
                found <= i,
                v@ == vehicle_id@,
                fv == SessionFilter::ActiveForVehicle(vehicle_id@),
                found as int == count_sessions(self@.sessions.take(i as int), fv),
                found >= 1 ==> idx < i && session_selected(
                    fv,
                    self@.sessions[idx as int],
                ),
            decreases self.sessions.len() - i,
        {
            proof {
                assert(self@.sessions[i as int] == self.sessions@[i as int]@);
                lemma_count_sessions_take_step(self@.sessions, fv, i as int);
            }
            let is_match = self.sessions[i].vehicle_id == v && self.sessions[i].checkout.is_none();
            if is_match {
                idx = i;
                found += 1;
            }
            i += 1;
        }
        proof {
            lemma_count_sessions_take_all(self@.sessions, fv);
        }
        if found == 0 {
            return Err(Error::NoActiveSession);
        }
        if found > 1 {
            return Err(Error::MultipleActiveSessions);
        }
        let row = ParkingSession {
            id: self.sessions[idx].id,
            vehicle_id: self.sessions[idx].vehicle_id.clone(),
            checkin: self.sessions[idx].checkin.clone(),
            checkout: None,
            block_id: self.sessions[idx].block_id,
        };
        proof {
            assert(row@ == self@.sessions[idx as int]);
        }
        Ok(row)
    }

    /// Closes the vehicle's single active session: stamps it with the given
    /// checkout timestamp and returns the closed row. When the vehicle has no
    /// active session, or more than one, the store is left untouched and the
    /// matching error is returned.
    pub fn checkout_parking(&mut self, vehicle_id: &str, checkout_dt: String) -> (r: Result<
        Checkout,
        Error,
    >)
        requires
            old(self).wf(),
        ensures
            final(self).wf(),
            match r {
                Ok(c) => {
                    &&& active_vehicle_count(old(self)@.sessions, vehicle_id@) == 1
                    &&& c.checkout@ == checkout_dt@
                    &&& exists|i: int|
                        {
                            &&& 0 <= i < old(self)@.sessions.len()
                            &&& session_selected(
                                SessionFilter::ActiveForVehicle(vehicle_id@),
                                #[trigger] old(self)@.sessions[i],
                            )
                            &&& c.vehicle_id@ == old(self)@.sessions[i].vehicle_id
                            &&& c.checkin@ == old(self)@.sessions[i].checkin
                            &&& c.block_id as int == old(self)@.sessions[i].block_id
                            &&& final(self)@.sessions =~= old(self)@.sessions.update(
                                i,
                                SessionView {
                                    id: old(self)@.sessions[i].id,
                                    vehicle_id: old(self)@.sessions[i].vehicle_id,
                                    checkin: old(self)@.sessions[i].checkin,
                                    checkout: Some(checkout_dt@),
                                    block_id: old(self)@.sessions[i].block_id,
                                },
                            )
                        }
                    &&& block_id_exists(old(self)@.blocks, c.block_id as int)
                    &&& final(self)@.blocks == old(self)@.blocks
                    &&& final(self)@.next_block_id == old(self)@.next_block_id
                    &&& final(self)@.next_session_id == old(self)@.next_session_id
                    &&& active_count(final(self)@.sessions, c.block_id as int) == active_count(
                        old(self)@.sessions,
                        c.block_id as int,
                    ) - 1
                },
                Err(Error::NoActiveSession) => {
                    &&& active_vehicle_count(old(self)@.sessions, vehicle_id@) == 0
                    &&& *final(self) == *old(self)
                },
                Err(Error::MultipleActiveSessions) => {
                    &&& active_vehicle_count(old(self)@.sessions, vehicle_id@) >= 2
                    &&& *final(self) == *old(self)
                },
                _ => false,
            },
    {
        let v: String = vehicle_id.to_owned();
        let ghost fv = SessionFilter::ActiveForVehicle(vehicle_id@);
        let mut i: usize = 0;
        let mut found: usize = 0;
        let mut idx: usize = 0;
        while i < self.sessions.len()
            invariant
                i <= self.sessions.len(),
                found <= i,
                v@ == vehicle_id@,
                fv == SessionFilter::ActiveForVehicle(vehicle_id@),
                found as int == count_sessions(self@.sessions.take(i as int), fv),
                found >= 1 ==> idx < i && session_selected(
                    fv,
                    self@.sessions[idx as int],
                ),
            decreases self.sessions.len() - i,
        {
            proof {
                assert(self@.sessions[i as int] == self.sessions@[i as int]@);
                lemma_count_sessions_take_step(self@.sessions, fv, i as int);
            }
            let is_match = self.sessions[i].vehicle_id == v && self.sessions[i].checkout.is_none();
            if is_match {
                idx = i;
                found += 1;
            }
            i += 1;
        }
        proof {
            lemma_count_sessions_take_all(self@.sessions, fv);
        }
        if found == 0 {
            return Err(Error::NoActiveSession);
        }
        if found > 1 {
            return Err(Error::MultipleActiveSessions);
        }
        let ghost pre = self@;
        let checkin_text = self.sessions[idx].checkin.clone();
        let vehicle_text = self.sessions[idx].vehicle_id.clone();
        let block_ref = self.sessions[idx].block_id;
        self.sessions[idx].checkout = Some(checkout_dt.clone());
        let ghost closed = SessionView {
            id: pre.sessions[idx as int].id,
            vehicle_id: pre.sessions[idx as int].vehicle_id,
            checkin: pre.sessions[idx as int].checkin,
            checkout: Some(checkout_dt@),
            block_id: pre.sessions[idx as int].block_id,
        };
        proof {
            assert(self@.sessions =~= pre.sessions.update(idx as int, closed));
            assert(self@.blocks =~= pre.blocks);
            assert(forall|k: int|
                0 <= k < pre.sessions.len() && k != idx as int ==> #[trigger] self@.sessions[k]
                    == pre.sessions[k]);
            assert(self@.sessions[idx as int] == closed);
            assert forall|k: int| 0 <= k < self@.blocks.len() implies active_count(
                self@.sessions,
                (#[trigger] self@.blocks[k]).id,
            ) <= self@.blocks[k].availability by {
                lemma_count_sessions_update(
                    pre.sessions,
                    idx as int,
                    closed,
                    SessionFilter::ActiveForBlock(self@.blocks[k].id),
                );
            }
            assert forall|s: int| 0 <= s < self@.sessions.len() implies block_id_exists(
                self@.blocks,
                (#[trigger] self@.sessions[s]).block_id,
            ) by {
                assert(block_id_exists(pre.blocks, pre.sessions[s].block_id));
            }
            lemma_count_sessions_update(
                pre.sessions,
                idx as int,
                closed,
                SessionFilter::ActiveForBlock(block_ref as int),
            );
            assert(block_id_exists(pre.blocks, pre.sessions[idx as int].block_id));
        }
        Ok(Checkout {
            vehicle_id: vehicle_text,
            checkin: checkin_text,
            checkout: checkout_dt,
            block_id: block_ref,
        })
    }
}

/// The capacity invariant: in a well-formed store, no block ever holds more
/// active sessions than its capacity. Every operation of the store requires
/// and re-establishes well-formedness, so this bound holds at every point in
/// a run that starts from `initiate_database`.
pub proof fn lemma_capacity_invariant(lot: ParkingLot)
    requires
        lot.wf(),
    ensures
        forall|i: int|
            0 <= i < lot@.blocks.len() ==> active_count(
                lot@.sessions,
                (#[trigger] lot@.blocks[i]).id,
            ) <= lot@.blocks[i].availability,
{
}

/// Availability arithmetic: the active sessions of a block are exactly the
/// check-ins recorded against it minus those checked out again, so after m
/// check-ins of which k were checked out, the effective availability
/// capacity - active equals capacity - (m - k).
pub proof fn lemma_availability_arithmetic(
    sessions: Seq<SessionView>,
    block_id: int,
    capacity: int,
    m: int,
    k: int,
)
    requires
        total_count(sessions, block_id) == m,
        closed_count(sessions, block_id) == k,
    ensures
        capacity - active_count(sessions, block_id) == capacity - (m - k),
{
    lemma_active_is_total_minus_closed(sessions, block_id);
}

/// Round-trip of a created block: when the block table grows by a block with
/// a fresh id, the availability listing for that block's vehicle type grows
/// by exactly one entry, which reports the block's name, hourly rate and
/// floor unchanged, and its full capacity as available.
pub proof fn lemma_create_block_roundtrip(pre: LotView, post: LotView, b: BlockView)
    requires
        lot_wf(pre),
        post.blocks == pre.blocks.push(b),
        post.sessions == pre.sessions,
        !block_id_exists(pre.blocks, b.id),
    ensures
        active_count(post.sessions, b.id) == 0,
        effective_listing(post.blocks, post.sessions, b.vehicle_type) == effective_listing(
            pre.blocks,
            pre.sessions,
            b.vehicle_type,
        ).push(
            AvailView {
                name: b.name,
                availability: b.availability,
                hourly_rate: b.hourly_rate,
                floor: b.floor,
            },
        ),
{
    assert forall|s: int| 0 <= s < post.sessions.len() implies !session_selected(
        SessionFilter::ActiveForBlock(b.id),
        #[trigger] post.sessions[s],
    ) by {
        assert(block_id_exists(pre.blocks, pre.sessions[s].block_id));
    }
    lemma_count_sessions_zero(post.sessions, SessionFilter::ActiveForBlock(b.id));
    assert(post.blocks.drop_last() =~= pre.blocks);
    assert(post.blocks.last() == b);
    assert(effective_entry(b, post.sessions) == AvailView {
        name: b.name,
        availability: b.availability,
        hourly_rate: b.hourly_rate,
        floor: b.floor,
    });
    assert(effective_listing(post.blocks, post.sessions, b.vehicle_type) == effective_listing(
        pre.blocks,
        post.sessions,
        b.vehicle_type,
    ).push(effective_entry(b, post.sessions)));
}

} // verus!
