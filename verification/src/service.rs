use vstd::prelude::*;

use crate::codec::bytes_eq;
use crate::codec::decode_gig;
use crate::codec::encode_gig;
use crate::codec::gig_encoding;
use crate::codec::lemma_parse_encoding;
use crate::codec::MAX_RECORD_BYTES;
use crate::gig::Gig;
use crate::gig::GigError;
use crate::gig::GigModel;
use crate::gig::GigPayload;
use crate::gig::GigStatus;
use crate::gig::PayloadModel;
use crate::store::counter_get;
use crate::store::counter_set;
use crate::store::counter_value;
use crate::store::open_backing;
use crate::store::store_contents;
use crate::store::store_get;
use crate::store::store_insert;
use crate::store::store_remove;
use crate::store::CounterCell;
use crate::store::StableGigMap;
use vstd::string::StringExecFns;

verus! {

/// The record a post operation creates.
pub open spec fn posted_model(id: u64, p: PayloadModel, employer: Seq<char>, now: u64) -> GigModel {
    GigModel {
        id,
        title: p.title,
        description: p.description,
        employer,
        deadline: p.deadline,
        assigned_to: Option::None,
        status: GigStatus::Open,
        created_at: now,
        updated_at: Option::None,
    }
}

/// The record an assignment turns an open record into.
pub open spec fn assigned_model(m: GigModel, worker: Seq<char>, now: u64) -> GigModel {
    GigModel { assigned_to: Option::Some(worker), status: GigStatus::Assigned, updated_at: Option::Some(now), ..m }
}

/// The record an approval turns a record into.
pub open spec fn approved_model(m: GigModel, now: u64) -> GigModel {
    GigModel { status: GigStatus::Approved, updated_at: Option::Some(now), ..m }
}

/// The record an update turns a record into.
pub open spec fn updated_model(m: GigModel, p: PayloadModel, now: u64) -> GigModel {
    GigModel {
        title: p.title,
        description: p.description,
        deadline: p.deadline,
        updated_at: Option::Some(now),
        ..m
    }
}

/// The gig service: the allocator counter, the durable record store, and the
/// mathematical model of what the store holds.
pub struct GigService {
    counter: CounterCell,
    store: StableGigMap,
    model: Ghost<Map<u64, GigModel>>,
}

impl View for GigService {
    type V = Map<u64, GigModel>;

    closed spec fn view(&self) -> Map<u64, GigModel> {
        self.model@
    }
}

impl GigService {
    /// The id the allocator handed out last; the next record gets this plus one.
    pub closed spec fn next_id(self) -> u64 {
        counter_value(self.counter)
    }

    /// Well-formedness: the durable store holds exactly the serialized form
    /// of every modeled record, each record sits under its own id, employers
    /// are never empty, every record fits the byte budget, and no id exceeds
    /// the allocator counter (so ids are never reused, even after deletion).
    pub closed spec fn wf(self) -> bool {
        &&& forall|k: u64| #[trigger]
            self.model@.contains_key(k) ==> store_contents(self.store).contains_key(k)
        &&& forall|k: u64| #[trigger]
            store_contents(self.store).contains_key(k) ==> self.model@.contains_key(k)
        &&& forall|k: u64| #[trigger] self.model@.contains_key(k) ==> {
            &&& store_contents(self.store)[k] == gig_encoding(self.model@[k])
            &&& self.model@[k].id == k
            &&& self.model@[k].employer.len() > 0
            &&& gig_encoding(self.model@[k]).len() <= MAX_RECORD_BYTES
            &&& 1 <= k && k <= counter_value(self.counter)
        }
    }

    /// Opens the service over the process's durable backing: restored from
    /// durable storage if present, else starting empty with the counter at
    /// zero. Every restored record is validated — it must parse back to a
    /// record that re-serializes to the stored bytes, sit under its own id,
    /// name an employer, fit the byte budget, and lie within the allocator
    /// counter. An image that fails validation was not written by this
    /// library; opening then fails with a storage fault rather than serving
    /// records whose invariants do not hold.
    #[verifier::rlimit(100)]
    pub fn new() -> (r: Result<GigService, GigError>)
        ensures
            match r {
                Result::Ok(s) => s.wf(),
                Result::Err(e) => e == GigError::StorageFault,
            },
    {
        let (counter, store) = open_backing();
        let cnt = counter_get(&counter);
        let entries = crate::store::store_entries(&store);
        let n = entries.len();
        let ghost contents = store_contents(store);
        let mut model: Ghost<Map<u64, GigModel>> = Ghost(Map::empty());
        let mut idx: usize = 0;
        while idx < n
            invariant
                cnt == counter_value(counter),
                contents == store_contents(store),
                n == entries@.len(),
                idx <= n,
                forall|i: int|
                    0 <= i < entries@.len() ==> #[trigger] contents.contains_key(entries@[i].0)
                        && entries@[i].1@ == contents[entries@[i].0],
                forall|k: u64|
                    #[trigger] contents.contains_key(k) ==> exists|i: int|
                        0 <= i < entries@.len() && entries@[i].0 == k,
                forall|i: int, j: int|
                    0 <= i < j < entries@.len() ==> entries@[i].0 < entries@[j].0,
                forall|i: int| 0 <= i < idx ==> model@.contains_key(#[trigger] entries@[i].0),
                forall|k: u64|
                    #[trigger] model@.contains_key(k) ==> exists|i: int|
                        0 <= i < idx && entries@[i].0 == k,
                forall|k: u64| #[trigger] model@.contains_key(k) ==> {
                    &&& contents[k] == gig_encoding(model@[k])
                    &&& model@[k].id == k
                    &&& model@[k].employer.len() > 0
                    &&& gig_encoding(model@[k]).len() <= MAX_RECORD_BYTES
                    &&& 1 <= k && k <= cnt
                },
            decreases n - idx,
        {
            let pair = &entries[idx];
            let k = pair.0;
            let g = match decode_gig(&pair.1) {
                Option::None => {
                    return Result::Err(GigError::StorageFault);
                },
                Option::Some(g) => g,
            };
            if g.id != k {
                return Result::Err(GigError::StorageFault);
            }
            if g.employer.as_str().is_empty() {
                return Result::Err(GigError::StorageFault);
            }
            if k < 1 || k > cnt {
                return Result::Err(GigError::StorageFault);
            }
            if pair.1.len() > MAX_RECORD_BYTES {
                return Result::Err(GigError::StorageFault);
            }
            let canonical = encode_gig(&g);
            if !bytes_eq(&canonical, &pair.1) {
                return Result::Err(GigError::StorageFault);
            }
            proof {
                assert(contents.contains_key(entries@[idx as int].0));
                assert(entries@[idx as int].1@ == contents[entries@[idx as int].0]);
                assert(contents[k] == gig_encoding(g@));
                assert(g@.employer.len() > 0);
            }
            model = Ghost(model@.insert(k, g@));
            idx = idx + 1;
        }
        let s = GigService { counter, store, model };
        proof {
            assert forall|k: u64| #[trigger]
                store_contents(s.store).contains_key(k) implies s.model@.contains_key(k) by {
                let i = choose|i: int| 0 <= i < entries@.len() && entries@[i].0 == k;
                assert(s.model@.contains_key(entries@[i].0));
            }
        }
        Result::Ok(s)
    }

    /// Looks a record up and materializes it from its serialized form.
    fn fetch(&self, id: u64) -> (r: Option<Gig>)
        requires
            self.wf(),
        ensures
            match r {
                Option::Some(g) => self@.contains_key(id) && g@ == self@[id],
                Option::None => !self@.contains_key(id),
            },
    {
        let bytes = match store_get(&self.store, id) {
            Option::None => {
                return Option::None;
            },
            Option::Some(b) => b,
        };
        proof {
            lemma_parse_encoding(self.model@[id]);
        }
        match decode_gig(&bytes) {
            Option::Some(g) => Option::Some(g),
            Option::None => {
                proof {
                    assert(false);
                }
                Option::None
            },
        }
    }

    /// Upserts a record under its id, within the byte budget. The id must
    /// already be allocated, so no insertion can ever claim a fresh id.
    pub fn do_insert_gig(&mut self, gig: &Gig) -> (r: Result<(), GigError>)
        requires
            old(self).wf(),
            1 <= gig@.id && gig@.id <= old(self).next_id(),
            gig@.employer.len() > 0,
        ensures
            final(self).wf(),
            final(self).next_id() == old(self).next_id(),
            match r {
                Result::Ok(_) => gig_encoding(gig@).len() <= MAX_RECORD_BYTES && final(self)@
                    == old(self)@.insert(gig@.id, gig@),
                Result::Err(GigError::RecordTooLarge) => gig_encoding(gig@).len()
                    > MAX_RECORD_BYTES && final(self)@ == old(self)@,
                Result::Err(_) => false,
            },
    {
        let bytes = encode_gig(gig);
        if bytes.len() > MAX_RECORD_BYTES {
            return Result::Err(GigError::RecordTooLarge);
        }
        store_insert(&mut self.store, gig.id, bytes);
        self.model = Ghost(self.model@.insert(gig.id, gig@));
        Result::Ok(())
    }

    /// Posts a new gig: allocates the next id, stores an open record owned by
    /// the caller, and returns it. Rejects a record over the byte budget
    /// without consuming an id.
    pub fn post_gig(&mut self, payload: GigPayload, caller: String, now: u64) -> (r: Result<
        Gig,
        GigError,
    >)
        requires
            old(self).wf(),
            old(self).next_id() < u64::MAX,
            caller@.len() > 0,
        ensures
            final(self).wf(),
            match r {
                Result::Ok(g) => {
                    &&& g@ == posted_model((old(self).next_id() + 1) as u64, payload@, caller@, now)
                    &&& gig_encoding(g@).len() <= MAX_RECORD_BYTES
                    &&& final(self).next_id() == old(self).next_id() + 1
                    &&& final(self)@ == old(self)@.insert(g@.id, g@)
                },
                Result::Err(GigError::RecordTooLarge) => {
                    &&& gig_encoding(
                        posted_model((old(self).next_id() + 1) as u64, payload@, caller@, now),
                    ).len() > MAX_RECORD_BYTES
                    &&& final(self).next_id() == old(self).next_id()
                    &&& final(self)@ == old(self)@
                },
                Result::Err(_) => false,
            },
    {
        let c = counter_get(&self.counter);
        let id = c + 1;
        let gig = Gig {
            id,
            title: payload.title,
            description: payload.description,
            employer: caller,
            deadline: payload.deadline,
            assigned_to: Option::None,
            status: GigStatus::Open,
            created_at: now,
            updated_at: Option::None,
        };
        let bytes = encode_gig(&gig);
        if bytes.len() > MAX_RECORD_BYTES {
            return Result::Err(GigError::RecordTooLarge);
        }
        counter_set(&mut self.counter, id);
        match self.do_insert_gig(&gig) {
            Result::Ok(_) => Result::Ok(gig),
            Result::Err(e) => {
                proof {
                    assert(false);
                }
                Result::Err(e)
            },
        }
    }

    /// Assigns an open gig to a worker. Only the employer may assign, and
    /// only while the gig is open.
    pub fn assign_gig(&mut self, id: u64, worker: String, caller: String, now: u64) -> (r: Result<
        Gig,
        GigError,
    >)
        requires
            old(self).wf(),
        ensures
            final(self).wf(),
            final(self).next_id() == old(self).next_id(),
            match r {
                Result::Ok(g) => {
                    &&& old(self)@.contains_key(id)
                    &&& old(self)@[id].employer == caller@
                    &&& old(self)@[id].status == GigStatus::Open
                    &&& g@ == assigned_model(old(self)@[id], worker@, now)
                    &&& gig_encoding(g@).len() <= MAX_RECORD_BYTES
                    &&& final(self)@ == old(self)@.insert(id, g@)
                },
                Result::Err(GigError::NotFound) => !old(self)@.contains_key(id) && final(self)@
                    == old(self)@,
                Result::Err(GigError::Unauthorized) => old(self)@.contains_key(id) && old(self)@[id].employer != caller@ && final(self)@ == old(self)@,
                Result::Err(GigError::InvalidState) => old(self)@.contains_key(id) && old(self)@[id].employer == caller@ && old(self)@[id].status != GigStatus::Open && final(self)@ == old(self)@,
                Result::Err(GigError::RecordTooLarge) => old(self)@.contains_key(id) && old(self)@[id].employer == caller@ && old(self)@[id].status == GigStatus::Open
                    && gig_encoding(assigned_model(old(self)@[id], worker@, now)).len()
                    > MAX_RECORD_BYTES && final(self)@ == old(self)@,
                Result::Err(GigError::StorageFault) => false,
            },
    {
        let mut gig = match self.fetch(id) {
            Option::None => {
                return Result::Err(GigError::NotFound);
            },
            Option::Some(g) => g,
        };
        if gig.employer != caller {
            return Result::Err(GigError::Unauthorized);
        }
        if gig.status != GigStatus::Open {
            return Result::Err(GigError::InvalidState);
        }
        gig.assigned_to = Option::Some(worker);
        gig.status = GigStatus::Assigned;
        gig.updated_at = Option::Some(now);
        match self.do_insert_gig(&gig) {
            Result::Ok(_) => Result::Ok(gig),
            Result::Err(_) => Result::Err(GigError::RecordTooLarge),
        }
    }

    /// Approves a gig. Only the employer may approve; any current status is
    /// accepted, deliberately (approving an already approved or a disputed
    /// gig succeeds).
    pub fn approve_gig(&mut self, id: u64, caller: String, now: u64) -> (r: Result<Gig, GigError>)
        requires
            old(self).wf(),
        ensures
            final(self).wf(),
            final(self).next_id() == old(self).next_id(),
            match r {
                Result::Ok(g) => {
                    &&& old(self)@.contains_key(id)
                    &&& old(self)@[id].employer == caller@
                    &&& g@ == approved_model(old(self)@[id], now)
                    &&& gig_encoding(g@).len() <= MAX_RECORD_BYTES
                    &&& final(self)@ == old(self)@.insert(id, g@)
                },
                Result::Err(GigError::NotFound) => !old(self)@.contains_key(id) && final(self)@
                    == old(self)@,
                Result::Err(GigError::Unauthorized) => old(self)@.contains_key(id) && old(self)@[id].employer != caller@ && final(self)@ == old(self)@,
                Result::Err(GigError::RecordTooLarge) => old(self)@.contains_key(id) && old(self)@[id].employer == caller@ && gig_encoding(approved_model(old(self)@[id], now)).len()
                    > MAX_RECORD_BYTES && final(self)@ == old(self)@,
                Result::Err(_) => false,
            },
    {
        let mut gig = match self.fetch(id) {
            Option::None => {
                return Result::Err(GigError::NotFound);
            },
            Option::Some(g) => g,
        };
        if gig.employer != caller {
            return Result::Err(GigError::Unauthorized);
        }
        gig.status = GigStatus::Approved;
        gig.updated_at = Option::Some(now);
        match self.do_insert_gig(&gig) {
            Result::Ok(_) => Result::Ok(gig),
            Result::Err(_) => Result::Err(GigError::RecordTooLarge),
        }
    }

    /// Replaces a gig's mutable fields. Only the employer may update, and an
    /// approved gig can no longer be updated.
    pub fn update_gig(&mut self, id: u64, payload: GigPayload, caller: String, now: u64) -> (r:
        Result<Gig, GigError>)
        requires
            old(self).wf(),
        ensures
            final(self).wf(),
            final(self).next_id() == old(self).next_id(),
            match r {
                Result::Ok(g) => {
                    &&& old(self)@.contains_key(id)
                    &&& old(self)@[id].employer == caller@
                    &&& old(self)@[id].status != GigStatus::Approved
                    &&& g@ == updated_model(old(self)@[id], payload@, now)
                    &&& gig_encoding(g@).len() <= MAX_RECORD_BYTES
                    &&& final(self)@ == old(self)@.insert(id, g@)
                },
                Result::Err(GigError::NotFound) => !old(self)@.contains_key(id) && final(self)@
                    == old(self)@,
                Result::Err(GigError::Unauthorized) => old(self)@.contains_key(id) && old(self)@[id].employer != caller@ && final(self)@ == old(self)@,
                Result::Err(GigError::InvalidState) => old(self)@.contains_key(id) && old(self)@[id].employer == caller@ && old(self)@[id].status == GigStatus::Approved && final(self)@ == old(self)@,
                Result::Err(GigError::RecordTooLarge) => old(self)@.contains_key(id) && old(self)@[id].employer == caller@ && old(self)@[id].status != GigStatus::Approved
                    && gig_encoding(updated_model(old(self)@[id], payload@, now)).len()
                    > MAX_RECORD_BYTES && final(self)@ == old(self)@,
                Result::Err(GigError::StorageFault) => false,
            },
    {
        let mut gig = match self.fetch(id) {
            Option::None => {
                return Result::Err(GigError::NotFound);
            },
            Option::Some(g) => g,
        };
        if gig.employer != caller {
            return Result::Err(GigError::Unauthorized);
        }
        if gig.status == GigStatus::Approved {
            return Result::Err(GigError::InvalidState);
        }
        gig.title = payload.title;
        gig.description = payload.description;
        gig.deadline = payload.deadline;
        gig.updated_at = Option::Some(now);
        match self.do_insert_gig(&gig) {
            Result::Ok(_) => Result::Ok(gig),
            Result::Err(_) => Result::Err(GigError::RecordTooLarge),
        }
    }

    /// Deletes a gig. Only the employer may delete; the id is never handed
    /// out again, since the allocator counter is untouched.
    pub fn delete_gig(&mut self, id: u64, caller: String) -> (r: Result<String, GigError>)
        requires
            old(self).wf(),
        ensures
            final(self).wf(),
            final(self).next_id() == old(self).next_id(),
            match r {
                Result::Ok(msg) => old(self)@.contains_key(id) && old(self)@[id].employer
                    == caller@ && final(self)@ == old(self)@.remove(id) && msg@
                    == "Gig deleted successfully"@,
                Result::Err(GigError::NotFound) => !old(self)@.contains_key(id) && final(self)@
                    == old(self)@,
                Result::Err(GigError::Unauthorized) => old(self)@.contains_key(id) && old(self)@[id].employer != caller@ && final(self)@ == old(self)@,
                Result::Err(_) => false,
            },
    {
        let gig = match self.fetch(id) {
            Option::None => {
                return Result::Err(GigError::NotFound);
            },
            Option::Some(g) => g,
        };
        if gig.employer != caller {
            return Result::Err(GigError::Unauthorized);
        }
        store_remove(&mut self.store, id);
        self.model = Ghost(self.model@.remove(id));
        Result::Ok(String::from_str("Gig deleted successfully"))
    }

    /// The current allocator counter value: the id handed out last, zero if
    /// none was.
    pub fn current_counter(&self) -> (v: u64)
        ensures
            v == self.next_id(),
    {
        counter_get(&self.counter)
    }

    /// Looks a gig up by id.
    pub fn get_gig(&self, id: u64) -> (r: Option<Gig>)
        requires
            self.wf(),
        ensures
            match r {
                Option::Some(g) => self@.contains_key(id) && g@ == self@[id],
                Option::None => !self@.contains_key(id),
            },
    {
        self.fetch(id)
    }

    /// Lists every stored gig, in ascending id order: a full snapshot.
    pub fn get_all_gigs(&self) -> (r: Vec<Gig>)
        requires
            self.wf(),
        ensures
            forall|i: int|
                0 <= i < r@.len() ==> self@.contains_key(#[trigger] r@[i]@.id) && r@[i]@
                    == self@[r@[i]@.id],
            forall|k: u64|
                #[trigger] self@.contains_key(k) ==> exists|i: int|
                    0 <= i < r@.len() && r@[i]@.id == k,
            forall|i: int, j: int| 0 <= i < j < r@.len() ==> r@[i]@.id < r@[j]@.id,
    {
        let entries = crate::store::store_entries(&self.store);
        let n = entries.len();
        let mut out: Vec<Gig> = Vec::new();
        let mut idx: usize = 0;
        while idx < n
            invariant
                self.wf(),
                n == entries@.len(),
                idx <= n,
                out@.len() == idx,
                forall|i: int|
                    0 <= i < entries@.len() ==> #[trigger] store_contents(
                        self.store,
                    ).contains_key(entries@[i].0) && entries@[i].1@ == store_contents(
                        self.store,
                    )[entries@[i].0],
                forall|k: u64|
                    #[trigger] store_contents(self.store).contains_key(k) ==> exists|i: int|
                        0 <= i < entries@.len() && entries@[i].0 == k,
                forall|i: int, j: int|
                    0 <= i < j < entries@.len() ==> entries@[i].0 < entries@[j].0,
                forall|i: int|
                    0 <= i < idx ==> #[trigger] out@[i]@.id == entries@[i].0 && self@.contains_key(
                        out@[i]@.id,
                    ) && out@[i]@ == self@[out@[i]@.id],
            decreases n - idx,
        {
            let pair = &entries[idx];
            proof {
                assert(store_contents(self.store).contains_key(entries@[idx as int].0));
                assert(self.model@.contains_key(entries@[idx as int].0));
                lemma_parse_encoding(self.model@[pair.0]);
            }
            match decode_gig(&pair.1) {
                Option::Some(g) => {
                    out.push(g);
                },
                Option::None => {
                    proof {
                        assert(false);
                    }
                },
            }
            idx = idx + 1;
        }
        proof {
            assert forall|k: u64| #[trigger] self@.contains_key(k) implies exists|i: int|
                0 <= i < out@.len() && out@[i]@.id == k by {
                assert(store_contents(self.store).contains_key(k));
                let j = choose|j: int| 0 <= j < entries@.len() && entries@[j].0 == k;
                assert(out@[j]@.id == k);
            }
        }
        out
    }
}

/// Any id present in a well-formed service is at least one and no greater
/// than the allocator counter. Together with each operation's contract —
/// posting returns exactly counter plus one and no operation ever lowers the
/// counter — a freshly allocated id can never collide with an id that is
/// present now, was present earlier, or was deleted.
pub proof fn lemma_present_ids_bounded(s: GigService, id: u64)
    requires
        s.wf(),
        s@.contains_key(id),
    ensures
        1 <= id && id <= s.next_id(),
{
}

/// Deletion frees no id: a post from any later state (no operation ever
/// lowers the allocator counter) allocates an id strictly greater than every
/// id present in the earlier state, deleted since or not.
pub proof fn lemma_no_id_reuse(earlier: GigService, later: GigService, id: u64)
    requires
        earlier.wf(),
        earlier@.contains_key(id),
        later.next_id() >= earlier.next_id(),
    ensures
        id < later.next_id() + 1,
{
    lemma_present_ids_bounded(earlier, id);
}

} // verus!
