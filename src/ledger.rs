use vstd::prelude::*;

use crate::model::{
    count_status, creation_event, find_index, has_recall, history_of, is_tracking_kind, lemma_find_index_range,
    may_recall, meds_by_manufacturer, meds_by_product, new_record, LedgerState,
};
use crate::laws::lemma_wf_preserved;
use crate::types::{
    events_view, meds_view, metadata_view, EventKind, EventView, LedgerError, MedicationData,
    PolicyView, RecallPolicy, Status, TrackingEvent, VerificationResult, VerificationStats,
};

verus! {

/// Collapses a result to its success or its error.
pub open spec fn outcome<T>(r: Result<T, LedgerError>) -> Result<(), LedgerError> {
    match r {
        Ok(_) => Ok(()),
        Err(e) => Err(e),
    }
}

/// Position of the last record of `meds` registered under `id`.
fn find_in(meds: &Vec<MedicationData>, id: &String) -> (r: Option<usize>)
    ensures
        match r {
            Some(k) => k < meds.len() && k as int == find_index(
                meds_view(meds@),
                id@,
                meds.len() as int,
            ) && meds@[k as int].id@ == id@,
            None => find_index(meds_view(meds@), id@, meds.len() as int) == -1,
        },
{
    let ghost mv = meds_view(meds@);
    let mut i: usize = meds.len();
    while i > 0
        invariant
            i <= meds.len(),
            mv == meds_view(meds@),
            find_index(mv, id@, meds.len() as int) == find_index(mv, id@, i as int),
        decreases i,
    {
        assert(mv[i - 1] == meds@[i - 1]@);
        if meds[i - 1].id == *id {
            return Some(i - 1);
        }
        i = i - 1;
    }
    None
}

/// Whether the tables satisfy the ledger's invariant.
fn records_wf(
    medications: &Vec<MedicationData>,
    events: &Vec<TrackingEvent>,
    Ghost(policy): Ghost<PolicyView>,
) -> (r: bool)
    ensures
        r == (LedgerState {
            meds: meds_view(medications@),
            events: events_view(events@),
            policy,
        }).wf(),
{
    let ghost st = LedgerState {
        meds: meds_view(medications@),
        events: events_view(events@),
        policy,
    };
    let n = medications.len();
    let mut i: usize = 0;
    while i < n
        invariant
            n == medications.len(),
            i <= n,
            st.meds == meds_view(medications@),
            forall|j: int| 0 <= j < i ==> #[trigger] st.index_of(st.meds[j].id) == j,
        decreases n - i,
    {
        let k = find_in(medications, &medications[i].id);
        proof {
            assert(st.meds[i as int].id == medications@[i as int].id@);
            lemma_find_index_range(st.meds, st.meds[i as int].id, n as int);
        }
        match k {
            Some(k) => {
                if k != i {
                    proof {
                        assert(st.meds[k as int].id == st.meds[i as int].id);
                    }
                    return false;
                }
            },
            None => {
                return false;
            },
        }
        i = i + 1;
    }
    assert forall|a: int, b: int|
        0 <= a < st.meds.len() && 0 <= b < st.meds.len() && a != b implies #[trigger] st.meds[a].id
        != #[trigger] st.meds[b].id by {
        assert(st.index_of(st.meds[a].id) == a);
        assert(st.index_of(st.meds[b].id) == b);
    }
    let m = events.len();
    let mut j: usize = 0;
    while j < m
        invariant
            m == events.len(),
            j <= m,
            st.meds == meds_view(medications@),
            st.events == events_view(events@),
            forall|x: int| 0 <= x < j ==> st.lookup(#[trigger] st.events[x].medication_id) is Some,
        decreases m - j,
    {
        proof {
            assert(st.events[j as int].medication_id == events@[j as int].medication_id@);
        }
        if find_in(medications, &events[j].medication_id).is_none() {
            return false;
        }
        j = j + 1;
    }
    true
}

/// The ledger: an entity registry, an append-only event log and the recall
/// policy it was configured with.
pub struct DrugTraceability {
    medications: Vec<MedicationData>,
    events: Vec<TrackingEvent>,
    policy: RecallPolicy,
}

impl View for DrugTraceability {
    type V = LedgerState;

    closed spec fn view(&self) -> LedgerState {
        LedgerState {
            meds: meds_view(self.medications@),
            events: events_view(self.events@),
            policy: self.policy@,
        }
    }
}

impl DrugTraceability {
    /// An empty ledger whose recalls follow `policy`.
    pub fn new(policy: RecallPolicy) -> (r: DrugTraceability)
        ensures
            r@ == LedgerState::empty(policy@),
            r@.wf(),
    {
        let r = DrugTraceability { medications: Vec::new(), events: Vec::new(), policy };
        proof {
            assert(r@.meds =~= Seq::empty());
            assert(r@.events =~= Seq::empty());
        }
        r
    }

    /// A ledger over stored tables (the registry in insertion order, the event
    /// log in append order), or `None` when they break the invariant.
    pub fn from_records(
        policy: RecallPolicy,
        medications: Vec<MedicationData>,
        events: Vec<TrackingEvent>,
    ) -> (r: Option<DrugTraceability>)
        ensures
            ({
                let st = LedgerState {
                    meds: meds_view(medications@),
                    events: events_view(events@),
                    policy: policy@,
                };
                &&& r is Some <==> st.wf()
                &&& r matches Some(l) ==> l@ == st
            }),
    {
        if records_wf(&medications, &events, Ghost(policy@)) {
            Some(DrugTraceability { medications, events, policy })
        } else {
            None
        }
    }

    /// The two tables, for storing.
    pub fn into_records(self) -> (r: (Vec<MedicationData>, Vec<TrackingEvent>))
        ensures
            meds_view(r.0@) == self@.meds,
            events_view(r.1@) == self@.events,
    {
        (self.medications, self.events)
    }

    /// Position of the record registered under `id`.
    fn find(&self, id: &String) -> (r: Option<usize>)
        ensures
            match r {
                Some(k) => k < self.medications.len() && k as int == self@.index_of(id@)
                    && self.medications@[k as int].id@ == id@
                    && self@.lookup(id@) == Some(self.medications@[k as int]@),
                None => self@.lookup(id@) is None,
            },
    {
        let r = find_in(&self.medications, id);
        proof {
            if let Some(k) = r {
                assert(self@.meds[k as int] == self.medications@[k as int]@);
            }
        }
        r
    }

    /// Whether the policy lets `issuer` recall `m`.
    fn may_recall_exec(&self, m: &MedicationData, issuer: &String) -> (r: bool)
        ensures
            r == may_recall(self@.policy, m@, issuer@),
    {
        match &self.policy {
            RecallPolicy::ManufacturerOnly => *issuer == m.manufacturer,
            RecallPolicy::ManufacturerOrRegulator(regulator) => *issuer == m.manufacturer
                || *issuer == *regulator,
            RecallPolicy::Open => true,
        }
    }

    /// Replaces the record at `k`, the one of `e`'s entity, and appends `e`.
    fn replace_and_log(&mut self, k: usize, m: MedicationData, e: TrackingEvent)
        requires
            k < old(self).medications.len(),
            k as int == old(self)@.index_of(e.medication_id@),
        ensures
            final(self)@ == old(self)@.set_and_log(e.medication_id@, m@, e@),
    {
        let ghost pre = self@;
        self.medications.set(k, m);
        self.events.push(e);
        proof {
            assert(self@.meds =~= pre.meds.update(k as int, m@));
            assert(self@.events =~= pre.events.push(e@));
        }
    }

    /// Registers a medication under `medication_id`, owned by its manufacturer,
    /// with status active, and logs its creation event.
    pub fn commission_medication(
        &mut self,
        medication_id: String,
        gtin: String,
        batch: String,
        serial_number: String,
        expiry_date: String,
        manufacturer: String,
        product_name: String,
        location: String,
        now: u64,
    ) -> (r: Result<MedicationData, LedgerError>)
        requires
            old(self)@.wf(),
        ensures
            final(self)@.wf(),
            final(self)@ == old(self)@.commission(
                new_record(
                    medication_id@,
                    gtin@,
                    batch@,
                    serial_number@,
                    expiry_date@,
                    manufacturer@,
                    product_name@,
                    location@,
                    now,
                ),
            ),
            outcome(r) == old(self)@.commission_outcome(medication_id@),
            r matches Ok(m) ==> m@ == new_record(
                medication_id@,
                gtin@,
                batch@,
                serial_number@,
                expiry_date@,
                manufacturer@,
                product_name@,
                location@,
                now,
            ),
    {
        if self.find(&medication_id).is_some() {
            return Err(LedgerError::AlreadyExists);
        }
        let ghost pre = self@;
        let event = TrackingEvent {
            event: EventKind::Creation,
            medication_id: medication_id.clone(),
            from: manufacturer.clone(),
            to: manufacturer.clone(),
            location: location.clone(),
            timestamp: now,
            signature: String::new(),
            metadata: Vec::new(),
        };
        let rec = MedicationData {
            id: medication_id,
            gtin,
            batch,
            serial_number,
            expiry_date,
            owner: manufacturer.clone(),
            manufacturer,
            product_name,
            location,
            status: Status::Active,
            commission_time: now,
            recall_reason: None,
        };
        let out = rec.snapshot();
        proof {
            assert(metadata_view(event.metadata@) =~= Seq::empty());
            assert(event@ == creation_event(rec@));
            lemma_wf_preserved(
                pre,
                rec@,
                rec@.id,
                rec@.owner,
                rec@.owner,
                Seq::empty(),
                Status::Active,
                Seq::empty(),
                event@,
                now,
            );
        }
        self.medications.push(rec);
        self.events.push(event);
        proof {
            assert(self@.meds =~= pre.meds.push(rec@));
            assert(self@.events =~= pre.events.push(event@));
        }
        Ok(out)
    }

    /// Moves custody of `medication_id` from `from` to `to`, logging a transfer
    /// event that carries `metadata`. Fails with `NotFound` for an unknown id and
    /// with `Unauthorized` when `from` is not the current owner; a failure
    /// changes nothing.
    pub fn transfer_medication(
        &mut self,
        medication_id: &String,
        from: &String,
        to: String,
        metadata: Vec<(String, String)>,
        now: u64,
    ) -> (r: Result<MedicationData, LedgerError>)
        requires
            old(self)@.wf(),
        ensures
            final(self)@.wf(),
            final(self)@ == old(self)@.transfer(
                medication_id@,
                from@,
                to@,
                metadata_view(metadata@),
                now,
            ),
            outcome(r) == old(self)@.transfer_outcome(medication_id@, from@),
            r matches Ok(m) ==> final(self)@.lookup(medication_id@) == Some(m@),
    {
        let k = match self.find(medication_id) {
            Some(k) => k,
            None => return Err(LedgerError::NotFound),
        };
        if !(self.medications[k].owner == *from) {
            return Err(LedgerError::Unauthorized);
        }
        let ghost pre = self@;
        let mut m = self.medications[k].snapshot();
        m.owner = to.clone();
        let event = TrackingEvent {
            event: EventKind::Transfer,
            medication_id: medication_id.clone(),
            from: from.clone(),
            to,
            location: m.location.clone(),
            timestamp: now,
            signature: String::new(),
            metadata,
        };
        let out = m.snapshot();
        proof {
            pre.lemma_set_lookup(medication_id@, m@, medication_id@);
            lemma_wf_preserved(
                pre,
                m@,
                medication_id@,
                from@,
                m@.owner,
                event@.metadata,
                Status::Active,
                Seq::empty(),
                event@,
                now,
            );
        }
        self.replace_and_log(k, m, event);
        Ok(out)
    }

    /// Sets the status of `medication_id`, logging a status event. Only the
    /// manufacturer may do so, and only while the record is not recalled: a
    /// recall is final. `Unauthorized` otherwise, `NotFound` for an unknown id;
    /// a failure changes nothing.
    pub fn update_medication_status(
        &mut self,
        medication_id: &String,
        status: Status,
        authorizer: &String,
        now: u64,
    ) -> (r: Result<MedicationData, LedgerError>)
        requires
            old(self)@.wf(),
        ensures
            final(self)@.wf(),
            final(self)@ == old(self)@.update_status(medication_id@, status, authorizer@, now),
            outcome(r) == old(self)@.status_outcome(medication_id@, authorizer@),
            r matches Ok(m) ==> final(self)@.lookup(medication_id@) == Some(m@),
    {
        let k = match self.find(medication_id) {
            Some(k) => k,
            None => return Err(LedgerError::NotFound),
        };
        if !(self.medications[k].manufacturer == *authorizer) || self.medications[k].status
            == Status::Recalled {
            return Err(LedgerError::Unauthorized);
        }
        let ghost pre = self@;
        let mut m = self.medications[k].snapshot();
        m.status = status;
        let event = TrackingEvent {
            event: EventKind::StatusUpdate,
            medication_id: medication_id.clone(),
            from: authorizer.clone(),
            to: m.owner.clone(),
            location: m.location.clone(),
            timestamp: now,
            signature: String::new(),
            metadata: Vec::new(),
        };
        let out = m.snapshot();
        proof {
            assert(metadata_view(event.metadata@) =~= Seq::empty());
            pre.lemma_set_lookup(medication_id@, m@, medication_id@);
            lemma_wf_preserved(
                pre,
                m@,
                medication_id@,
                authorizer@,
                authorizer@,
                Seq::empty(),
                status,
                Seq::empty(),
                event@,
                now,
            );
        }
        self.replace_and_log(k, m, event);
        Ok(out)
    }

    /// Recalls `medication_id`: logs a recall event by `issuer`, sets the status
    /// to recalled and stamps `reason`. The ledger's recall policy decides who
    /// may recall: `Unauthorized` for another issuer, `NotFound` for an unknown
    /// id; a failure changes nothing.
    pub fn issue_medication_recall(
        &mut self,
        medication_id: &String,
        reason: String,
        issuer: &String,
        now: u64,
    ) -> (r: Result<(), LedgerError>)
        requires
            old(self)@.wf(),
        ensures
            final(self)@.wf(),
            final(self)@ == old(self)@.recall(medication_id@, reason@, issuer@, now),
            r == old(self)@.recall_outcome(medication_id@, issuer@),
    {
        let k = match self.find(medication_id) {
            Some(k) => k,
            None => return Err(LedgerError::NotFound),
        };
        if !self.may_recall_exec(&self.medications[k], issuer) {
            return Err(LedgerError::Unauthorized);
        }
        let ghost pre = self@;
        let ghost reason_v = reason@;
        let mut m = self.medications[k].snapshot();
        m.status = Status::Recalled;
        m.recall_reason = Some(reason);
        let event = TrackingEvent {
            event: EventKind::Recall,
            medication_id: medication_id.clone(),
            from: issuer.clone(),
            to: m.owner.clone(),
            location: m.location.clone(),
            timestamp: now,
            signature: String::new(),
            metadata: Vec::new(),
        };
        proof {
            assert(metadata_view(event.metadata@) =~= Seq::empty());
            lemma_wf_preserved(
                pre,
                m@,
                medication_id@,
                issuer@,
                issuer@,
                Seq::empty(),
                Status::Recalled,
                reason_v,
                event@,
                now,
            );
        }
        self.replace_and_log(k, m, event);
        Ok(())
    }

    /// Logs a custody step of kind `event` (commission, ship, receive or
    /// dispense) on a registered id: `caller` must be the current owner, and
    /// `actor` becomes the owner and holder, at `location`. `NotFound` for an
    /// unknown id; `Unauthorized` when the caller is not the owner or the kind
    /// has an operation of its own; a failure changes nothing.
    pub fn add_tracking_event(
        &mut self,
        medication_id: String,
        event: EventKind,
        location: String,
        actor: String,
        signature: String,
        caller: &String,
        now: u64,
    ) -> (r: Result<(), LedgerError>)
        requires
            old(self)@.wf(),
        ensures
            final(self)@.wf(),
            final(self)@ == old(self)@.track(
                EventView {
                    event,
                    medication_id: medication_id@,
                    from: caller@,
                    to: actor@,
                    location: location@,
                    timestamp: now,
                    signature: signature@,
                    metadata: Seq::empty(),
                },
            ),
            r == old(self)@.track_outcome(
                EventView {
                    event,
                    medication_id: medication_id@,
                    from: caller@,
                    to: actor@,
                    location: location@,
                    timestamp: now,
                    signature: signature@,
                    metadata: Seq::empty(),
                },
            ),
    {
        let k = match self.find(&medication_id) {
            Some(k) => k,
            None => return Err(LedgerError::NotFound),
        };
        if !(self.medications[k].owner == *caller) || !tracking_kind(event) {
            return Err(LedgerError::Unauthorized);
        }
        let ghost pre = self@;
        let mut m = self.medications[k].snapshot();
        m.owner = actor.clone();
        m.location = location.clone();
        let e = TrackingEvent {
            event,
            medication_id: medication_id.clone(),
            from: caller.clone(),
            to: actor,
            location,
            timestamp: now,
            signature,
            metadata: Vec::new(),
        };
        proof {
            assert(metadata_view(e.metadata@) =~= Seq::empty());
            lemma_wf_preserved(
                pre,
                m@,
                medication_id@,
                e@.from,
                e@.from,
                Seq::empty(),
                Status::Active,
                Seq::empty(),
                e@,
                now,
            );
        }
        self.replace_and_log(k, m, e);
        Ok(())
    }

    /// The record registered under `medication_id`; `NotFound` if there is none.
    pub fn get_medication(&self, medication_id: &String) -> (r: Result<MedicationData, LedgerError>)
        ensures
            match self@.lookup(medication_id@) {
                Some(m) => r matches Ok(d) && d@ == m,
                None => r == Err::<MedicationData, LedgerError>(LedgerError::NotFound),
            },
    {
        match self.find(medication_id) {
            Some(k) => Ok(self.medications[k].snapshot()),
            None => Err(LedgerError::NotFound),
        }
    }

    /// The events of `medication_id` in append order; empty, never an error,
    /// when it has none.
    pub fn get_tracking_history(&self, medication_id: &String) -> (r: Vec<TrackingEvent>)
        ensures
            events_view(r@) == self@.history(medication_id@),
    {
        let ghost all = self@.events;
        let mut out: Vec<TrackingEvent> = Vec::new();
        let mut i: usize = 0;
        proof {
            assert(events_view(out@) =~= Seq::empty());
            assert(all.take(0).len() == 0);
        }
        while i < self.events.len()
            invariant
                i <= self.events.len(),
                all == self@.events,
                all.len() == self.events.len(),
                events_view(out@) == history_of(all.take(i as int), medication_id@),
            decreases self.events.len() - i,
        {
            let ghost prev = out@;
            proof {
                assert(all.take(i as int + 1).drop_last() =~= all.take(i as int));
                assert(all[i as int] == self.events@[i as int]@);
            }
            if self.events[i].medication_id == *medication_id {
                out.push(self.events[i].snapshot());
                proof {
                    assert(events_view(out@) =~= events_view(prev).push(all[i as int]));
                }
            }
            i = i + 1;
        }
        proof {
            assert(all.take(self.events.len() as int) =~= all);
        }
        out
    }

    /// Authenticity check: for a registered id, valid when the status is active
    /// and no recall event was ever logged; the holder is the receiving party
    /// of the last event, or the manufacturer when there is none. For an
    /// unknown id, an invalid answer with nothing attached.
    pub fn verify_medication(&self, medication_id: &String) -> (r: VerificationResult)
        ensures
            r@ == self@.verify(medication_id@),
    {
        match self.find(medication_id) {
            None => {
                let r = VerificationResult {
                    is_valid: false,
                    medication_data: None,
                    tracking_history: Vec::new(),
                    current_holder: None,
                };
                proof {
                    assert(r@.history =~= Seq::empty());
                }
                r
            },
            Some(k) => {
                let m = self.medications[k].snapshot();
                let history = self.get_tracking_history(medication_id);
                let recalled = any_recall(&history);
                let n = history.len();
                let holder = if n > 0 {
                    history[n - 1].to.clone()
                } else {
                    m.manufacturer.clone()
                };
                proof {
                    if n > 0 {
                        assert(events_view(history@).last() == history@[n - 1]@);
                    }
                }
                VerificationResult {
                    is_valid: m.status == Status::Active && !recalled,
                    medication_data: Some(m),
                    tracking_history: history,
                    current_holder: Some(holder),
                }
            },
        }
    }

    /// The records made by `manufacturer`, in registration order.
    pub fn get_medications_by_manufacturer(&self, manufacturer: &String) -> (r: Vec<MedicationData>)
        ensures
            meds_view(r@) == meds_by_manufacturer(self@.meds, manufacturer@),
    {
        let ghost all = self@.meds;
        let mut out: Vec<MedicationData> = Vec::new();
        let mut i: usize = 0;
        proof {
            assert(meds_view(out@) =~= Seq::empty());
        }
        while i < self.medications.len()
            invariant
                i <= self.medications.len(),
                all == self@.meds,
                all.len() == self.medications.len(),
                meds_view(out@) == meds_by_manufacturer(all.take(i as int), manufacturer@),
            decreases self.medications.len() - i,
        {
            let ghost prev = out@;
            proof {
                assert(all.take(i as int + 1).drop_last() =~= all.take(i as int));
                assert(all[i as int] == self.medications@[i as int]@);
            }
            if self.medications[i].manufacturer == *manufacturer {
                out.push(self.medications[i].snapshot());
                proof {
                    assert(meds_view(out@) =~= meds_view(prev).push(all[i as int]));
                }
            }
            i = i + 1;
        }
        proof {
            assert(all.take(self.medications.len() as int) =~= all);
        }
        out
    }

    /// The records whose product name is exactly `query`, in registration order.
    pub fn search_medications(&self, query: &String) -> (r: Vec<MedicationData>)
        ensures
            meds_view(r@) == meds_by_product(self@.meds, query@),
    {
        let ghost all = self@.meds;
        let mut out: Vec<MedicationData> = Vec::new();
        let mut i: usize = 0;
        proof {
            assert(meds_view(out@) =~= Seq::empty());
        }
        while i < self.medications.len()
            invariant
                i <= self.medications.len(),
                all == self@.meds,
                all.len() == self.medications.len(),
                meds_view(out@) == meds_by_product(all.take(i as int), query@),
            decreases self.medications.len() - i,
        {
            let ghost prev = out@;
            proof {
                assert(all.take(i as int + 1).drop_last() =~= all.take(i as int));
                assert(all[i as int] == self.medications@[i as int]@);
            }
            if self.medications[i].product_name == *query {
                out.push(self.medications[i].snapshot());
                proof {
                    assert(meds_view(out@) =~= meds_view(prev).push(all[i as int]));
                }
            }
            i = i + 1;
        }
        proof {
            assert(all.take(self.medications.len() as int) =~= all);
        }
        out
    }

    /// Counts of all records, of the active ones and of the recalled ones.
    pub fn get_verification_stats(&self) -> (r: VerificationStats)
        ensures
            r.total == self@.meds.len(),
            r.active == count_status(self@.meds, Status::Active),
            r.recalled == count_status(self@.meds, Status::Recalled),
    {
        let ghost all = self@.meds;
        let mut active: usize = 0;
        let mut recalled: usize = 0;
        let mut i: usize = 0;
        while i < self.medications.len()
            invariant
                i <= self.medications.len(),
                all == self@.meds,
                all.len() == self.medications.len(),
                active <= i,
                recalled <= i,
                active == count_status(all.take(i as int), Status::Active),
                recalled == count_status(all.take(i as int), Status::Recalled),
            decreases self.medications.len() - i,
        {
            proof {
                assert(all.take(i as int + 1).drop_last() =~= all.take(i as int));
                assert(all[i as int] == self.medications@[i as int]@);
            }
            if self.medications[i].status == Status::Active {
                active = active + 1;
            } else if self.medications[i].status == Status::Recalled {
                recalled = recalled + 1;
            }
            i = i + 1;
        }
        proof {
            assert(all.take(self.medications.len() as int) =~= all);
        }
        VerificationStats { total: self.medications.len(), active, recalled }
    }
}

/// Whether `k` may be logged as a tracking event.
fn tracking_kind(k: EventKind) -> (r: bool)
    ensures
        r == is_tracking_kind(k),
{
    match k {
        EventKind::Commission | EventKind::Ship | EventKind::Receive | EventKind::Dispense => true,
        _ => false,
    }
}

/// Whether some event of `h` is a recall.
fn any_recall(h: &Vec<TrackingEvent>) -> (r: bool)
    ensures
        r == has_recall(events_view(h@)),
{
    let mut i: usize = 0;
    while i < h.len()
        invariant
            i <= h.len(),
            forall|j: int| 0 <= j < i ==> #[trigger] h@[j].event != EventKind::Recall,
        decreases h.len() - i,
    {
        if h[i].event == EventKind::Recall {
            proof {
                assert(events_view(h@)[i as int].event == EventKind::Recall);
            }
            return true;
        }
        i = i + 1;
    }
    proof {
        assert forall|j: int| 0 <= j < events_view(h@).len() implies #[trigger] events_view(
            h@,
        )[j].event != EventKind::Recall by {
            assert(h@[j].event != EventKind::Recall);
        }
    }
    false
}

} // verus!
