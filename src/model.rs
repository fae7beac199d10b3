use vstd::prelude::*;

use crate::types::{
    EventKind, EventView, LedgerError, MedicationView, PolicyView, Status, VerificationView,
};

verus! {

/// Abstract state of the ledger: the entity registry in insertion order and
/// the event log in append order.
pub struct LedgerState {
    pub meds: Seq<MedicationView>,
    pub events: Seq<EventView>,
    /// Who may issue a recall.
    pub policy: PolicyView,
}

/// Whether `policy` lets `issuer` recall the record `m`.
pub open spec fn may_recall(policy: PolicyView, m: MedicationView, issuer: Seq<char>) -> bool {
    match policy {
        PolicyView::ManufacturerOnly => issuer == m.manufacturer,
        PolicyView::ManufacturerOrRegulator(regulator) => issuer == m.manufacturer || issuer
            == regulator,
        PolicyView::Open => true,
    }
}

/// Index of the last record among the first `n` whose id is `id`, or -1.
pub open spec fn find_index(meds: Seq<MedicationView>, id: Seq<char>, n: int) -> int
    decreases n,
{
    if n <= 0 {
        -1
    } else if meds[n - 1].id == id {
        n - 1
    } else {
        find_index(meds, id, n - 1)
    }
}

/// The events of `events` that belong to `id`, in append order.
pub open spec fn history_of(events: Seq<EventView>, id: Seq<char>) -> Seq<EventView>
    decreases events.len(),
{
    if events.len() == 0 {
        Seq::empty()
    } else if events.last().medication_id == id {
        history_of(events.drop_last(), id).push(events.last())
    } else {
        history_of(events.drop_last(), id)
    }
}

/// The records made by `manufacturer`, in registry order.
pub open spec fn meds_by_manufacturer(meds: Seq<MedicationView>, manufacturer: Seq<char>) -> Seq<
    MedicationView,
>
    decreases meds.len(),
{
    if meds.len() == 0 {
        Seq::empty()
    } else if meds.last().manufacturer == manufacturer {
        meds_by_manufacturer(meds.drop_last(), manufacturer).push(meds.last())
    } else {
        meds_by_manufacturer(meds.drop_last(), manufacturer)
    }
}

/// The records whose product name is exactly `query`, in registry order.
pub open spec fn meds_by_product(meds: Seq<MedicationView>, query: Seq<char>) -> Seq<
    MedicationView,
>
    decreases meds.len(),
{
    if meds.len() == 0 {
        Seq::empty()
    } else if meds.last().product_name == query {
        meds_by_product(meds.drop_last(), query).push(meds.last())
    } else {
        meds_by_product(meds.drop_last(), query)
    }
}

/// How many records have status `st`.
pub open spec fn count_status(meds: Seq<MedicationView>, st: Status) -> nat
    decreases meds.len(),
{
    if meds.len() == 0 {
        0
    } else if meds.last().status == st {
        count_status(meds.drop_last(), st) + 1
    } else {
        count_status(meds.drop_last(), st)
    }
}

/// The kinds that a tracking event may have: creation, transfer, status
/// changes and recalls each have an operation of their own.
pub open spec fn is_tracking_kind(k: EventKind) -> bool {
    match k {
        EventKind::Commission | EventKind::Ship | EventKind::Receive | EventKind::Dispense => true,
        _ => false,
    }
}

/// Whether some event of `h` is a recall.
pub open spec fn has_recall(h: Seq<EventView>) -> bool {
    exists|i: int| 0 <= i < h.len() && #[trigger] h[i].event == EventKind::Recall
}

/// The record that a registration stores.
pub open spec fn new_record(
    id: Seq<char>,
    gtin: Seq<char>,
    batch: Seq<char>,
    serial_number: Seq<char>,
    expiry_date: Seq<char>,
    manufacturer: Seq<char>,
    product_name: Seq<char>,
    location: Seq<char>,
    now: u64,
) -> MedicationView {
    MedicationView {
        id,
        gtin,
        batch,
        serial_number,
        expiry_date,
        manufacturer,
        owner: manufacturer,
        product_name,
        location,
        status: Status::Active,
        commission_time: now,
        recall_reason: None,
    }
}

/// An event with no signature and no annotations.
pub open spec fn plain_event(
    kind: EventKind,
    id: Seq<char>,
    from: Seq<char>,
    to: Seq<char>,
    location: Seq<char>,
    now: u64,
) -> EventView {
    EventView {
        event: kind,
        medication_id: id,
        from,
        to,
        location,
        timestamp: now,
        signature: Seq::empty(),
        metadata: Seq::empty(),
    }
}

/// The event that a registration appends: from and to are the manufacturer.
pub open spec fn creation_event(rec: MedicationView) -> EventView {
    plain_event(
        EventKind::Creation,
        rec.id,
        rec.manufacturer,
        rec.manufacturer,
        rec.location,
        rec.commission_time,
    )
}

impl LedgerState {
    pub open spec fn empty(policy: PolicyView) -> LedgerState {
        LedgerState { meds: Seq::empty(), events: Seq::empty(), policy }
    }

    /// No two records share an id.
    pub open spec fn ids_unique(self) -> bool {
        forall|i: int, j: int|
            0 <= i < self.meds.len() && 0 <= j < self.meds.len() && i != j ==> #[trigger] self.meds[i].id
                != #[trigger] self.meds[j].id
    }

    /// Every event belongs to a registered record.
    pub open spec fn events_registered(self) -> bool {
        forall|i: int|
            #![trigger self.events[i]]
            0 <= i < self.events.len() ==> self.lookup(self.events[i].medication_id) is Some
    }

    /// The ledger's invariant: exactly one record per id, and no event for an
    /// id that has none.
    pub open spec fn wf(self) -> bool {
        self.ids_unique() && self.events_registered()
    }

    pub open spec fn index_of(self, id: Seq<char>) -> int {
        find_index(self.meds, id, self.meds.len() as int)
    }

    /// The record registered under `id`, if any.
    pub open spec fn lookup(self, id: Seq<char>) -> Option<MedicationView> {
        if 0 <= self.index_of(id) {
            Some(self.meds[self.index_of(id)])
        } else {
            None
        }
    }

    /// The events recorded for `id`, in append order.
    pub open spec fn history(self, id: Seq<char>) -> Seq<EventView> {
        history_of(self.events, id)
    }

    /// Replaces the record of `id` and appends `e`.
    pub open spec fn set_and_log(self, id: Seq<char>, m: MedicationView, e: EventView) -> LedgerState {
        LedgerState {
            meds: self.meds.update(self.index_of(id), m),
            events: self.events.push(e),
            policy: self.policy,
        }
    }

    pub open spec fn commission_outcome(self, id: Seq<char>) -> Result<(), LedgerError> {
        if self.lookup(id) is Some {
            Err(LedgerError::AlreadyExists)
        } else {
            Ok(())
        }
    }

    /// Registration: stores `rec` and its creation event unless the id is taken.
    pub open spec fn commission(self, rec: MedicationView) -> LedgerState {
        if self.lookup(rec.id) is Some {
            self
        } else {
            LedgerState {
                meds: self.meds.push(rec),
                events: self.events.push(creation_event(rec)),
                policy: self.policy,
            }
        }
    }

    pub open spec fn transfer_outcome(self, id: Seq<char>, from: Seq<char>) -> Result<(), LedgerError> {
        match self.lookup(id) {
            None => Err(LedgerError::NotFound),
            Some(m) => if m.owner == from {
                Ok(())
            } else {
                Err(LedgerError::Unauthorized)
            },
        }
    }

    /// Ownership transfer: owner becomes `to` and a transfer event is appended.
    pub open spec fn transfer(
        self,
        id: Seq<char>,
        from: Seq<char>,
        to: Seq<char>,
        metadata: Seq<(Seq<char>, Seq<char>)>,
        now: u64,
    ) -> LedgerState {
        match self.lookup(id) {
            Some(m) if m.owner == from => self.set_and_log(
                id,
                MedicationView { owner: to, ..m },
                EventView {
                    event: EventKind::Transfer,
                    medication_id: id,
                    from,
                    to,
                    location: m.location,
                    timestamp: now,
                    signature: Seq::empty(),
                    metadata,
                },
            ),
            _ => self,
        }
    }

    /// Only the manufacturer may change a status, and a recalled record keeps
    /// its status for good.
    pub open spec fn status_outcome(self, id: Seq<char>, authorizer: Seq<char>) -> Result<
        (),
        LedgerError,
    > {
        match self.lookup(id) {
            None => Err(LedgerError::NotFound),
            Some(m) => if m.manufacturer == authorizer && m.status != Status::Recalled {
                Ok(())
            } else {
                Err(LedgerError::Unauthorized)
            },
        }
    }

    /// Status change by the manufacturer out of active or investigation;
    /// custody is unchanged.
    pub open spec fn update_status(
        self,
        id: Seq<char>,
        status: Status,
        authorizer: Seq<char>,
        now: u64,
    ) -> LedgerState {
        match self.lookup(id) {
            Some(m) if m.manufacturer == authorizer && m.status != Status::Recalled => self.set_and_log(
                id,
                MedicationView { status, ..m },
                plain_event(EventKind::StatusUpdate, id, authorizer, m.owner, m.location, now),
            ),
            _ => self,
        }
    }

    pub open spec fn recall_outcome(self, id: Seq<char>, issuer: Seq<char>) -> Result<(), LedgerError> {
        match self.lookup(id) {
            None => Err(LedgerError::NotFound),
            Some(m) => if may_recall(self.policy, m, issuer) {
                Ok(())
            } else {
                Err(LedgerError::Unauthorized)
            },
        }
    }

    /// Recall by an issuer that the policy admits: a recall event is appended,
    /// the status becomes recalled and the reason is stamped.
    pub open spec fn recall(self, id: Seq<char>, reason: Seq<char>, issuer: Seq<char>, now: u64) -> LedgerState {
        match self.lookup(id) {
            Some(m) if may_recall(self.policy, m, issuer) => self.set_and_log(
                id,
                MedicationView { status: Status::Recalled, recall_reason: Some(reason), ..m },
                plain_event(EventKind::Recall, id, issuer, m.owner, m.location, now),
            ),
            _ => self,
        }
    }

    /// A tracking event moves custody of a registered record: it is made by
    /// the current owner (`e.from`), is of a kind without an operation of its
    /// own, and names the next holder (`e.to`).
    pub open spec fn track_outcome(self, e: EventView) -> Result<(), LedgerError> {
        match self.lookup(e.medication_id) {
            None => Err(LedgerError::NotFound),
            Some(m) => if m.owner == e.from && is_tracking_kind(e.event) {
                Ok(())
            } else {
                Err(LedgerError::Unauthorized)
            },
        }
    }

    /// An admitted tracking event is appended; the record's owner becomes the
    /// event's receiving party and its location the event's.
    pub open spec fn track(self, e: EventView) -> LedgerState {
        match self.lookup(e.medication_id) {
            Some(m) if m.owner == e.from && is_tracking_kind(e.event) => self.set_and_log(
                e.medication_id,
                MedicationView { owner: e.to, location: e.location, ..m },
                e,
            ),
            _ => self,
        }
    }

    /// The holder named by the last event, or the manufacturer without events.
    pub open spec fn holder(self, m: MedicationView) -> Seq<char> {
        let h = self.history(m.id);
        if h.len() > 0 {
            h.last().to
        } else {
            m.manufacturer
        }
    }

    pub open spec fn verify(self, id: Seq<char>) -> VerificationView {
        match self.lookup(id) {
            None => VerificationView {
                is_valid: false,
                medication: None,
                history: Seq::empty(),
                current_holder: None,
            },
            Some(m) => VerificationView {
                is_valid: m.status == Status::Active && !has_recall(self.history(id)),
                medication: Some(m),
                history: self.history(id),
                current_holder: Some(self.holder(m)),
            },
        }
    }
}

/// `find_index` is -1 or the index of a record with that id.
pub proof fn lemma_find_index_range(meds: Seq<MedicationView>, id: Seq<char>, n: int)
    requires
        0 <= n <= meds.len(),
    ensures
        -1 <= find_index(meds, id, n) < n,
        0 <= find_index(meds, id, n) ==> meds[find_index(meds, id, n)].id == id,
        find_index(meds, id, n) == -1 ==> forall|i: int| 0 <= i < n ==> meds[i].id != id,
    decreases n,
{
    if n > 0 {
        lemma_find_index_range(meds, id, n - 1);
    }
}

/// Appending a record does not move what a prefix search finds.
pub proof fn lemma_find_index_push(meds: Seq<MedicationView>, m: MedicationView, id: Seq<char>, n: int)
    requires
        0 <= n <= meds.len(),
    ensures
        find_index(meds.push(m), id, n) == find_index(meds, id, n),
    decreases n,
{
    if n > 0 {
        lemma_find_index_push(meds, m, id, n - 1);
    }
}

/// Replacing a record by one with the same id does not move any search.
pub proof fn lemma_find_index_update(
    meds: Seq<MedicationView>,
    k: int,
    m: MedicationView,
    id: Seq<char>,
    n: int,
)
    requires
        0 <= k < meds.len(),
        m.id == meds[k].id,
        0 <= n <= meds.len(),
    ensures
        find_index(meds.update(k, m), id, n) == find_index(meds, id, n),
    decreases n,
{
    if n > 0 {
        lemma_find_index_update(meds, k, m, id, n - 1);
    }
}

/// Appending an event extends exactly the history of its own entity.
pub proof fn lemma_history_push(events: Seq<EventView>, e: EventView, id: Seq<char>)
    ensures
        history_of(events.push(e), id) == if e.medication_id == id {
            history_of(events, id).push(e)
        } else {
            history_of(events, id)
        },
{
    assert(events.push(e).drop_last() =~= events);
}

/// A log with no event of `id` gives it an empty history.
pub proof fn lemma_history_absent(events: Seq<EventView>, id: Seq<char>)
    requires
        forall|i: int| 0 <= i < events.len() ==> #[trigger] events[i].medication_id != id,
    ensures
        history_of(events, id) == Seq::<EventView>::empty(),
    decreases events.len(),
{
    if events.len() > 0 {
        assert(events.last().medication_id != id);
        lemma_history_absent(events.drop_last(), id);
    }
}

impl LedgerState {
    /// After replacing the record at `index_of(id)` by one with the same id,
    /// `id` finds the new record and every other id finds what it found.
    pub proof fn lemma_set_lookup(self, id: Seq<char>, m: MedicationView, other: Seq<char>)
        requires
            self.lookup(id) is Some,
            m.id == id,
        ensures
            (LedgerState { meds: self.meds.update(self.index_of(id), m), ..self }).lookup(
                other,
            ) == if other == id {
                Some(m)
            } else {
                self.lookup(other)
            },
    {
        let k = self.index_of(id);
        lemma_find_index_range(self.meds, id, self.meds.len() as int);
        lemma_find_index_update(self.meds, k, m, other, self.meds.len() as int);
        lemma_find_index_update(self.meds, k, m, id, self.meds.len() as int);
        lemma_find_index_range(self.meds, other, self.meds.len() as int);
    }

    /// After appending a record, its id finds it and every other id finds what it found.
    pub proof fn lemma_push_lookup(self, m: MedicationView, other: Seq<char>)
        ensures
            (LedgerState { meds: self.meds.push(m), ..self }).lookup(other) == if other
                == m.id {
                Some(m)
            } else {
                self.lookup(other)
            },
    {
        lemma_find_index_push(self.meds, m, other, self.meds.len() as int);
        lemma_find_index_range(self.meds, other, self.meds.len() as int);
    }
}

} // verus!
