use vstd::prelude::*;

use crate::model::{
    has_recall,
    creation_event, is_tracking_kind, lemma_find_index_range, lemma_history_absent, lemma_history_push, may_recall,
    new_record, plain_event, LedgerState,
};
use crate::types::{EventKind, EventView, LedgerError, MedicationView, Status};

verus! {

/// Registering an id a second time fails with `AlreadyExists` and leaves the
/// ledger, and so the record of the first registration, as it was.
pub proof fn lemma_commission_twice(s: LedgerState, first: MedicationView, second: MedicationView)
    requires
        second.id == first.id,
    ensures
        s.commission(first).lookup(first.id) is Some,
        s.commission(first).commission_outcome(second.id) == Err::<(), LedgerError>(
            LedgerError::AlreadyExists,
        ),
        s.commission(first).commission(second) == s.commission(first),
        s.commission(first).commission(second).lookup(first.id) == s.commission(first).lookup(
            first.id,
        ),
{
    if s.lookup(first.id) is None {
        s.lemma_push_lookup(first, first.id);
    }
}

/// After a registration of a fresh id by `manufacturer`, the record is owned by
/// the manufacturer and active, and its history is exactly one creation event,
/// from and to the manufacturer.
pub proof fn lemma_commission_then_get(
    s: LedgerState,
    id: Seq<char>,
    gtin: Seq<char>,
    batch: Seq<char>,
    serial_number: Seq<char>,
    expiry_date: Seq<char>,
    manufacturer: Seq<char>,
    product_name: Seq<char>,
    location: Seq<char>,
    now: u64,
)
    requires
        s.wf(),
        s.lookup(id) is None,
    ensures
        ({
            let rec = new_record(
                id,
                gtin,
                batch,
                serial_number,
                expiry_date,
                manufacturer,
                product_name,
                location,
                now,
            );
            let s1 = s.commission(rec);
            &&& s1.commission_outcome(id) is Err
            &&& s1.lookup(id) == Some(rec)
            &&& rec.owner == manufacturer
            &&& rec.status == Status::Active
            &&& s1.history(id) == seq![creation_event(rec)]
            &&& s1.history(id)[0].event == EventKind::Creation
            &&& s1.history(id)[0].from == manufacturer
            &&& s1.history(id)[0].to == manufacturer
        }),
{
    let rec = new_record(
        id,
        gtin,
        batch,
        serial_number,
        expiry_date,
        manufacturer,
        product_name,
        location,
        now,
    );
    s.lemma_push_lookup(rec, id);
    assert forall|i: int| 0 <= i < s.events.len() implies #[trigger] s.events[i].medication_id
        != id by {
        assert(s.lookup(s.events[i].medication_id) is Some);
    }
    lemma_history_absent(s.events, id);
    lemma_history_push(s.events, creation_event(rec), id);
    assert(s.history(id).push(creation_event(rec)) =~= seq![creation_event(rec)]);
}

/// A transfer from a party that is not the owner, or of an unknown id, fails
/// and neither changes the owner nor appends an event.
pub proof fn lemma_transfer_rejected(
    s: LedgerState,
    id: Seq<char>,
    from: Seq<char>,
    to: Seq<char>,
    metadata: Seq<(Seq<char>, Seq<char>)>,
    now: u64,
)
    requires
        !(s.lookup(id) matches Some(m) && m.owner == from),
    ensures
        s.transfer_outcome(id, from) is Err,
        s.transfer(id, from, to, metadata, now) == s,
        s.transfer(id, from, to, metadata, now).history(id) == s.history(id),
{
}

/// A transfer by the owner succeeds: the new owner is `to`, and the history
/// grows by exactly one event, whose receiving party is `to`.
pub proof fn lemma_transfer_by_owner(
    s: LedgerState,
    id: Seq<char>,
    from: Seq<char>,
    to: Seq<char>,
    metadata: Seq<(Seq<char>, Seq<char>)>,
    now: u64,
)
    requires
        s.lookup(id) matches Some(m) && m.owner == from,
    ensures
        s.transfer_outcome(id, from) is Ok,
        s.transfer(id, from, to, metadata, now).lookup(id) matches Some(m) && m.owner == to,
        s.transfer(id, from, to, metadata, now).history(id).len() == s.history(id).len() + 1,
        s.transfer(id, from, to, metadata, now).history(id).last().to == to,
        s.transfer(id, from, to, metadata, now).history(id).last().event == EventKind::Transfer,
{
    let m = s.lookup(id).unwrap();
    let e = EventView {
        event: EventKind::Transfer,
        medication_id: id,
        from,
        to,
        location: m.location,
        timestamp: now,
        signature: Seq::empty(),
        metadata,
    };
    lemma_find_index_range(s.meds, id, s.meds.len() as int);
    s.lemma_set_lookup(id, MedicationView { owner: to, ..m }, id);
    lemma_history_push(s.events, e, id);
}

/// A tracking event by a party that is not the owner, on an unknown id, or of
/// a kind with an operation of its own, fails and changes nothing: no event,
/// no new owner, no new location.
pub proof fn lemma_tracking_rejected(s: LedgerState, e: EventView)
    requires
        !(s.lookup(e.medication_id) matches Some(m) && m.owner == e.from && is_tracking_kind(
            e.event,
        )),
    ensures
        s.track_outcome(e) is Err,
        s.track(e) == s,
{
}

/// A tracking event by the owner succeeds: the receiving party becomes the
/// owner, the history grows by exactly that event, and it never brings in a
/// recall, so only a recall admitted by the policy can.
pub proof fn lemma_tracking_by_owner(s: LedgerState, e: EventView)
    requires
        s.lookup(e.medication_id) matches Some(m) && m.owner == e.from && is_tracking_kind(
            e.event,
        ),
    ensures
        s.track_outcome(e) is Ok,
        s.track(e).lookup(e.medication_id) matches Some(n) && n.owner == e.to && n.location
            == e.location,
        s.track(e).history(e.medication_id) == s.history(e.medication_id).push(e),
        has_recall(s.track(e).history(e.medication_id)) == has_recall(s.history(e.medication_id)),
{
    let m = s.lookup(e.medication_id).unwrap();
    let id = e.medication_id;
    lemma_find_index_range(s.meds, id, s.meds.len() as int);
    s.lemma_set_lookup(id, MedicationView { owner: e.to, location: e.location, ..m }, id);
    lemma_history_push(s.events, e, id);
    let h = s.history(id);
    let h2 = h.push(e);
    assert(e.event != EventKind::Recall);
    if has_recall(h2) {
        let i = choose|i: int| 0 <= i < h2.len() && #[trigger] h2[i].event == EventKind::Recall;
        assert(i < h.len());
        assert(h[i].event == EventKind::Recall);
    }
    if has_recall(h) {
        let i = choose|i: int| 0 <= i < h.len() && #[trigger] h[i].event == EventKind::Recall;
        assert(h2[i].event == EventKind::Recall);
    }
}

/// A recall of a registered id by an issuer that the policy admits, whatever
/// the status was, leaves it recalled and makes verification answer invalid.
pub proof fn lemma_recall_invalidates(
    s: LedgerState,
    id: Seq<char>,
    reason: Seq<char>,
    issuer: Seq<char>,
    now: u64,
)
    requires
        s.lookup(id) matches Some(m) && may_recall(s.policy, m, issuer),
    ensures
        s.recall_outcome(id, issuer) is Ok,
        s.recall(id, reason, issuer, now).lookup(id) matches Some(m) && m.status
            == Status::Recalled,
        !s.recall(id, reason, issuer, now).verify(id).is_valid,
{
    let m = s.lookup(id).unwrap();
    let e = plain_event(EventKind::Recall, id, issuer, m.owner, m.location, now);
    lemma_find_index_range(s.meds, id, s.meds.len() as int);
    s.lemma_set_lookup(
        id,
        MedicationView { status: Status::Recalled, recall_reason: Some(reason), ..m },
        id,
    );
    lemma_history_push(s.events, e, id);
}

/// Replacing the record of a registered id by one with the same id, and
/// logging an event of that id, keeps the invariant.
proof fn lemma_set_keeps_wf(s: LedgerState, id: Seq<char>, m: MedicationView, e: EventView)
    requires
        s.wf(),
        s.lookup(id) is Some,
        m.id == id,
        e.medication_id == id,
    ensures
        s.set_and_log(id, m, e).wf(),
{
    lemma_find_index_range(s.meds, id, s.meds.len() as int);
    let t = s.set_and_log(id, m, e);
    assert forall|i: int, j: int|
        0 <= i < t.meds.len() && 0 <= j < t.meds.len() && i != j implies #[trigger] t.meds[i].id
        != #[trigger] t.meds[j].id by {
        assert(t.meds[i].id == s.meds[i].id);
        assert(t.meds[j].id == s.meds[j].id);
    }
    assert forall|i: int| 0 <= i < t.events.len() implies t.lookup(
        #[trigger] t.events[i].medication_id,
    ) is Some by {
        s.lemma_set_lookup(id, m, t.events[i].medication_id);
        if i < s.events.len() {
            assert(t.events[i] == s.events[i]);
        }
    }
}

/// The empty ledger has the invariant, and every operation keeps it: exactly
/// one record per id, and no event for an id without a record.
pub proof fn lemma_wf_preserved(
    s: LedgerState,
    rec: MedicationView,
    id: Seq<char>,
    from: Seq<char>,
    to: Seq<char>,
    metadata: Seq<(Seq<char>, Seq<char>)>,
    status: Status,
    reason: Seq<char>,
    e: EventView,
    now: u64,
)
    requires
        s.wf(),
    ensures
        LedgerState::empty(s.policy).wf(),
        s.commission(rec).wf(),
        s.transfer(id, from, to, metadata, now).wf(),
        s.update_status(id, status, from, now).wf(),
        s.recall(id, reason, from, now).wf(),
        s.track(e).wf(),
{
    lemma_find_index_range(s.meds, id, s.meds.len() as int);
    lemma_find_index_range(s.meds, rec.id, s.meds.len() as int);
    lemma_find_index_range(s.meds, e.medication_id, s.meds.len() as int);
    if s.lookup(rec.id) is None {
        let t = s.commission(rec);
        assert forall|i: int, j: int|
            0 <= i < t.meds.len() && 0 <= j < t.meds.len() && i != j implies #[trigger] t.meds[i].id
            != #[trigger] t.meds[j].id by {
            if i < s.meds.len() && j < s.meds.len() {
                assert(t.meds[i] == s.meds[i]);
                assert(t.meds[j] == s.meds[j]);
            } else if i < s.meds.len() {
                assert(t.meds[i] == s.meds[i]);
            } else {
                assert(t.meds[j] == s.meds[j]);
            }
        }
        assert forall|i: int| 0 <= i < t.events.len() implies t.lookup(
            #[trigger] t.events[i].medication_id,
        ) is Some by {
            s.lemma_push_lookup(rec, t.events[i].medication_id);
            if i < s.events.len() {
                assert(t.events[i] == s.events[i]);
            }
        }
    }
    if let Some(m) = s.lookup(id) {
        if m.owner == from {
            lemma_set_keeps_wf(
                s,
                id,
                MedicationView { owner: to, ..m },
                EventView {
                    event: EventKind::Transfer,
                    medication_id: id,
                    from,
                    to,
                    location: m.location,
                    timestamp: now,
                    signature: Seq::empty(),
                    metadata,
                },
            );
        }
        if m.manufacturer == from && m.status != Status::Recalled {
            lemma_set_keeps_wf(
                s,
                id,
                MedicationView { status, ..m },
                plain_event(EventKind::StatusUpdate, id, from, m.owner, m.location, now),
            );
        }
        if may_recall(s.policy, m, from) {
            lemma_set_keeps_wf(
                s,
                id,
                MedicationView { status: Status::Recalled, recall_reason: Some(reason), ..m },
                plain_event(EventKind::Recall, id, from, m.owner, m.location, now),
            );
        }
    }
    if let Some(m) = s.lookup(e.medication_id) {
        if m.owner == e.from && is_tracking_kind(e.event) {
            lemma_set_keeps_wf(
                s,
                e.medication_id,
                MedicationView { owner: e.to, location: e.location, ..m },
                e,
            );
        }
    }
}

/// Verification of an id that was never registered answers invalid, with no
/// record, no history and no holder.
pub proof fn lemma_verify_unknown(s: LedgerState, id: Seq<char>)
    requires
        s.lookup(id) is None,
    ensures
        !s.verify(id).is_valid,
        s.verify(id).medication is None,
        s.verify(id).history.len() == 0,
        s.verify(id).current_holder is None,
{
}

/// What a step from `s` to `t` keeps of `id`: a record stays registered with
/// the same identity, manufacturer, descriptive fields and commission time; a
/// recalled record stays recalled and invalid; the history is only extended at
/// its end.
pub open spec fn keeps(s: LedgerState, t: LedgerState, id: Seq<char>) -> bool {
    &&& (s.lookup(id) matches Some(m) ==> t.lookup(id) matches Some(n) && n.id == m.id
        && n.manufacturer == m.manufacturer && n.gtin == m.gtin && n.batch == m.batch
        && n.serial_number == m.serial_number && n.expiry_date == m.expiry_date
        && n.product_name == m.product_name && n.commission_time == m.commission_time && (
        m.status == Status::Recalled ==> n.status == Status::Recalled && !t.verify(id).is_valid))
    &&& s.history(id).len() <= t.history(id).len()
    &&& t.history(id).subrange(0, s.history(id).len() as int) == s.history(id)
}

proof fn lemma_set_keeps(s: LedgerState, key: Seq<char>, m: MedicationView, e: EventView, id: Seq<char>)
    requires
        s.lookup(key) matches Some(old_m) && m.id == key && m.manufacturer == old_m.manufacturer
            && m.gtin == old_m.gtin && m.batch == old_m.batch && m.serial_number
            == old_m.serial_number && m.expiry_date == old_m.expiry_date && m.product_name
            == old_m.product_name && m.commission_time == old_m.commission_time && (old_m.status
            == Status::Recalled ==> m.status == Status::Recalled),
        e.medication_id == key,
    ensures
        keeps(s, s.set_and_log(key, m, e), id),
{
    lemma_find_index_range(s.meds, key, s.meds.len() as int);
    s.lemma_set_lookup(key, m, id);
    lemma_history_push(s.events, e, id);
    assert(s.history(id).push(e).subrange(0, s.history(id).len() as int) =~= s.history(id));
    assert(s.history(id).subrange(0, s.history(id).len() as int) =~= s.history(id));
}

/// Records are never deleted and their identifying fields never change; a
/// recalled record stays recalled and invalid for good; each entity's history
/// is append-only: no operation reorders or truncates it.
pub proof fn lemma_records_and_history_persist(
    s: LedgerState,
    id: Seq<char>,
    rec: MedicationView,
    key: Seq<char>,
    from: Seq<char>,
    to: Seq<char>,
    metadata: Seq<(Seq<char>, Seq<char>)>,
    status: Status,
    reason: Seq<char>,
    e: EventView,
    now: u64,
)
    ensures
        keeps(s, s.commission(rec), id),
        keeps(s, s.transfer(key, from, to, metadata, now), id),
        keeps(s, s.update_status(key, status, from, now), id),
        keeps(s, s.recall(key, reason, from, now), id),
        keeps(s, s.track(e), id),
{
    assert(s.history(id).subrange(0, s.history(id).len() as int) =~= s.history(id));
    if s.lookup(rec.id) is None {
        s.lemma_push_lookup(rec, id);
        lemma_history_push(s.events, creation_event(rec), id);
        assert(s.history(id).push(creation_event(rec)).subrange(0, s.history(id).len() as int)
            =~= s.history(id));
    }
    if let Some(m) = s.lookup(key) {
        lemma_find_index_range(s.meds, key, s.meds.len() as int);
        if m.owner == from {
            lemma_set_keeps(
                s,
                key,
                MedicationView { owner: to, ..m },
                EventView {
                    event: EventKind::Transfer,
                    medication_id: key,
                    from,
                    to,
                    location: m.location,
                    timestamp: now,
                    signature: Seq::empty(),
                    metadata,
                },
                id,
            );
        }
        if m.manufacturer == from && m.status != Status::Recalled {
            lemma_set_keeps(
                s,
                key,
                MedicationView { status, ..m },
                plain_event(EventKind::StatusUpdate, key, from, m.owner, m.location, now),
                id,
            );
        }
        if may_recall(s.policy, m, from) {
            lemma_set_keeps(
                s,
                key,
                MedicationView { status: Status::Recalled, recall_reason: Some(reason), ..m },
                plain_event(EventKind::Recall, key, from, m.owner, m.location, now),
                id,
            );
        }
    }
    if let Some(m) = s.lookup(e.medication_id) {
        lemma_find_index_range(s.meds, e.medication_id, s.meds.len() as int);
        if m.owner == e.from && is_tracking_kind(e.event) {
            lemma_set_keeps(
                s,
                e.medication_id,
                MedicationView { owner: e.to, location: e.location, ..m },
                e,
                id,
            );
        }
    }
}

/// Only a custody step (a transfer, or a tracking event by the owner) moves a
/// record's owner, and only a status update or a recall changes its status:
/// a registration leaves every existing record as it was.
pub proof fn lemma_owner_and_status_change_only_by_their_operations(
    s: LedgerState,
    id: Seq<char>,
    rec: MedicationView,
    key: Seq<char>,
    from: Seq<char>,
    to: Seq<char>,
    metadata: Seq<(Seq<char>, Seq<char>)>,
    status: Status,
    reason: Seq<char>,
    e: EventView,
    now: u64,
)
    requires
        s.lookup(id) is Some,
    ensures
        s.commission(rec).lookup(id) == s.lookup(id),
        s.update_status(key, status, from, now).lookup(id) matches Some(n) && n.owner
            == s.lookup(id).unwrap().owner,
        s.recall(key, reason, from, now).lookup(id) matches Some(n) && n.owner == s.lookup(
            id,
        ).unwrap().owner,
        s.transfer(key, from, to, metadata, now).lookup(id) matches Some(n) && n.status
            == s.lookup(id).unwrap().status,
        s.track(e).lookup(id) matches Some(n) && n.status == s.lookup(id).unwrap().status,
{
    if s.lookup(rec.id) is None {
        s.lemma_push_lookup(rec, id);
    }
    if let Some(m) = s.lookup(key) {
        lemma_find_index_range(s.meds, key, s.meds.len() as int);
        s.lemma_set_lookup(key, MedicationView { owner: to, ..m }, id);
        s.lemma_set_lookup(key, MedicationView { status, ..m }, id);
        s.lemma_set_lookup(
            key,
            MedicationView { status: Status::Recalled, recall_reason: Some(reason), ..m },
            id,
        );
    }
    if let Some(m) = s.lookup(e.medication_id) {
        lemma_find_index_range(s.meds, e.medication_id, s.meds.len() as int);
        s.lemma_set_lookup(
            e.medication_id,
            MedicationView { owner: e.to, location: e.location, ..m },
            id,
        );
    }
}

} // verus!
