use drug_traceability::{
    DrugTraceability, EventKind, LedgerError, MedicationData, RecallPolicy, Status,
    TrackingEvent, VerificationStats,
};

fn s(x: &str) -> String {
    x.to_string()
}

fn register(l: &mut DrugTraceability, id: &str, maker: &str, product: &str, now: u64) -> Result<MedicationData, LedgerError> {
    l.commission_medication(
        s(id),
        s("05012345678900"),
        s("B42"),
        s("SN001"),
        s("2027-01"),
        s(maker),
        s(product),
        s("plant"),
        now,
    )
}

#[test]
fn register_transfer_verify_scenario() {
    let mut l = DrugTraceability::new(RecallPolicy::Open);
    register(&mut l, "D1", "Acme", "Aspirin", 10).unwrap();
    let t = l.transfer_medication(&s("D1"), &s("Acme"), s("Pharma"), vec![(s("lot"), s("7"))], 20);
    assert!(t.is_ok());
    let v = l.verify_medication(&s("D1"));
    assert!(v.is_valid);
    assert_eq!(v.current_holder, Some(s("Pharma")));
    assert_eq!(v.tracking_history.len(), 2);
    assert_eq!(v.tracking_history[0].event, EventKind::Creation);
    assert_eq!(v.tracking_history[1].event, EventKind::Transfer);
    assert_eq!(v.tracking_history[1].metadata, vec![(s("lot"), s("7"))]);
    assert_eq!(v.medication_data.unwrap().owner, s("Pharma"));
}

#[test]
fn register_twice_is_already_exists() {
    let mut l = DrugTraceability::new(RecallPolicy::Open);
    let first = register(&mut l, "A", "M", "Aspirin", 1).unwrap();
    let again = l.commission_medication(
        s("A"), s("g"), s("b"), s("n"), s("e"), s("Other"), s("Other product"), s("x"), 2,
    );
    assert_eq!(again.unwrap_err(), LedgerError::AlreadyExists);
    let now = l.get_medication(&s("A")).unwrap();
    assert_eq!(now.manufacturer, first.manufacturer);
    assert_eq!(now.product_name, s("Aspirin"));
    assert_eq!(now.commission_time, 1);
    assert_eq!(l.get_tracking_history(&s("A")).len(), 1);
}

#[test]
fn register_sets_owner_status_and_creation_event() {
    let mut l = DrugTraceability::new(RecallPolicy::Open);
    let r = register(&mut l, "A", "M", "Aspirin", 5).unwrap();
    assert_eq!(r.owner, s("M"));
    assert_eq!(r.status, Status::Active);
    assert_eq!(r.recall_reason, None);
    let g = l.get_medication(&s("A")).unwrap();
    assert_eq!(g.owner, s("M"));
    assert_eq!(g.status, Status::Active);
    let h = l.get_tracking_history(&s("A"));
    assert_eq!(h.len(), 1);
    assert_eq!(h[0].event, EventKind::Creation);
    assert_eq!(h[0].from, s("M"));
    assert_eq!(h[0].to, s("M"));
    assert_eq!(h[0].timestamp, 5);
    assert_eq!(h[0].medication_id, s("A"));
}

#[test]
fn transfer_by_non_owner_is_rejected() {
    let mut l = DrugTraceability::new(RecallPolicy::Open);
    register(&mut l, "A", "M", "Aspirin", 1).unwrap();
    let r = l.transfer_medication(&s("A"), &s("X"), s("Y"), vec![], 2);
    assert_eq!(r.unwrap_err(), LedgerError::Unauthorized);
    assert_eq!(l.get_medication(&s("A")).unwrap().owner, s("M"));
    assert_eq!(l.get_tracking_history(&s("A")).len(), 1);
}

#[test]
fn transfer_of_unknown_id_is_not_found() {
    let mut l = DrugTraceability::new(RecallPolicy::Open);
    let r = l.transfer_medication(&s("nope"), &s("X"), s("Y"), vec![], 2);
    assert_eq!(r.unwrap_err(), LedgerError::NotFound);
    assert!(l.get_tracking_history(&s("nope")).is_empty());
}

#[test]
fn transfer_by_owner_moves_custody() {
    let mut l = DrugTraceability::new(RecallPolicy::Open);
    register(&mut l, "A", "M", "Aspirin", 1).unwrap();
    let before = l.get_tracking_history(&s("A")).len();
    let r = l.transfer_medication(&s("A"), &s("M"), s("Y"), vec![], 3).unwrap();
    assert_eq!(r.owner, s("Y"));
    assert_eq!(l.get_medication(&s("A")).unwrap().owner, s("Y"));
    let h = l.get_tracking_history(&s("A"));
    assert_eq!(h.len(), before + 1);
    assert_eq!(h[h.len() - 1].to, s("Y"));
    assert_eq!(h[h.len() - 1].from, s("M"));
    // the previous owner may no longer transfer
    let again = l.transfer_medication(&s("A"), &s("M"), s("Z"), vec![], 4);
    assert_eq!(again.unwrap_err(), LedgerError::Unauthorized);
}

#[test]
fn recall_invalidates_whatever_the_status() {
    let mut l = DrugTraceability::new(RecallPolicy::Open);
    register(&mut l, "A", "M", "Aspirin", 1).unwrap();
    register(&mut l, "B", "M", "Aspirin", 1).unwrap();
    l.update_medication_status(&s("B"), Status::Investigation, &s("M"), 2).unwrap();
    assert_eq!(l.issue_medication_recall(&s("A"), s("contaminated"), &s("Regulator"), 3), Ok(()));
    assert_eq!(l.issue_medication_recall(&s("B"), s("label"), &s("Anyone"), 3), Ok(()));
    for id in ["A", "B"] {
        let m = l.get_medication(&s(id)).unwrap();
        assert_eq!(m.status, Status::Recalled);
        assert!(!l.verify_medication(&s(id)).is_valid);
    }
    assert_eq!(l.get_medication(&s("A")).unwrap().recall_reason, Some(s("contaminated")));
    let h = l.get_tracking_history(&s("A"));
    assert_eq!(h[h.len() - 1].event, EventKind::Recall);
    assert_eq!(h[h.len() - 1].from, s("Regulator"));
}

#[test]
fn recall_stays_invalid_after_reactivation() {
    let mut l = DrugTraceability::new(RecallPolicy::Open);
    register(&mut l, "A", "M", "Aspirin", 1).unwrap();
    l.issue_medication_recall(&s("A"), s("r"), &s("I"), 2).unwrap();
    let r = l.update_medication_status(&s("A"), Status::Active, &s("M"), 3);
    assert_eq!(r.unwrap_err(), LedgerError::Unauthorized);
    assert_eq!(l.get_medication(&s("A")).unwrap().status, Status::Recalled);
    assert_eq!(l.get_tracking_history(&s("A")).len(), 2);
    assert!(!l.verify_medication(&s("A")).is_valid);
}

#[test]
fn status_set_to_recalled_is_final() {
    let mut l = DrugTraceability::new(RecallPolicy::Open);
    register(&mut l, "A", "M", "Aspirin", 1).unwrap();
    l.update_medication_status(&s("A"), Status::Recalled, &s("M"), 2).unwrap();
    assert!(!l.verify_medication(&s("A")).is_valid);
    let r = l.update_medication_status(&s("A"), Status::Active, &s("M"), 3);
    assert_eq!(r.unwrap_err(), LedgerError::Unauthorized);
    assert_eq!(l.get_medication(&s("A")).unwrap().status, Status::Recalled);
    assert!(!l.verify_medication(&s("A")).is_valid);
}

#[test]
fn manufacturer_only_policy_rejects_others() {
    let mut l = DrugTraceability::new(RecallPolicy::ManufacturerOnly);
    register(&mut l, "A", "M", "Aspirin", 1).unwrap();
    let r = l.issue_medication_recall(&s("A"), s("r"), &s("Regulator"), 2);
    assert_eq!(r, Err(LedgerError::Unauthorized));
    assert_eq!(l.get_medication(&s("A")).unwrap().status, Status::Active);
    assert_eq!(l.get_tracking_history(&s("A")).len(), 1);
    assert_eq!(l.issue_medication_recall(&s("A"), s("r"), &s("M"), 3), Ok(()));
    assert!(!l.verify_medication(&s("A")).is_valid);
}

#[test]
fn regulator_policy_admits_regulator_only_besides_manufacturer() {
    let mut l = DrugTraceability::new(RecallPolicy::ManufacturerOrRegulator(s("FDA")));
    register(&mut l, "A", "M", "Aspirin", 1).unwrap();
    register(&mut l, "B", "M", "Aspirin", 1).unwrap();
    assert_eq!(l.issue_medication_recall(&s("A"), s("r"), &s("Shop"), 2), Err(LedgerError::Unauthorized));
    assert_eq!(l.issue_medication_recall(&s("A"), s("r"), &s("FDA"), 2), Ok(()));
    assert_eq!(l.issue_medication_recall(&s("B"), s("r"), &s("M"), 2), Ok(()));
    assert_eq!(l.get_verification_stats().recalled, 2);
}

#[test]
fn from_records_checks_the_invariant() {
    let mut l = DrugTraceability::new(RecallPolicy::Open);
    register(&mut l, "A", "M", "Aspirin", 1).unwrap();
    register(&mut l, "B", "M", "Aspirin", 1).unwrap();
    l.transfer_medication(&s("A"), &s("M"), s("Y"), vec![], 2).unwrap();
    let (meds, events) = l.into_records();
    let back = DrugTraceability::from_records(RecallPolicy::Open, meds.clone(), events.clone()).unwrap();
    assert_eq!(back.get_medication(&s("A")).unwrap().owner, s("Y"));
    assert_eq!(back.get_tracking_history(&s("A")).len(), 2);
    let mut dup = meds.clone();
    dup.push(meds[0].clone());
    assert!(DrugTraceability::from_records(RecallPolicy::Open, dup, events.clone()).is_none());
    let mut stray: Vec<TrackingEvent> = events.clone();
    let mut e = events[0].clone();
    e.medication_id = s("Z");
    stray.push(e);
    assert!(DrugTraceability::from_records(RecallPolicy::Open, meds, stray).is_none());
}

#[test]
fn recall_of_unknown_id_is_not_found() {
    let mut l = DrugTraceability::new(RecallPolicy::Open);
    assert_eq!(l.issue_medication_recall(&s("X"), s("r"), &s("I"), 1), Err(LedgerError::NotFound));
    assert!(l.get_tracking_history(&s("X")).is_empty());
}

#[test]
fn verify_unknown_id_is_negative() {
    let l = DrugTraceability::new(RecallPolicy::Open);
    let v = l.verify_medication(&s("ghost"));
    assert!(!v.is_valid);
    assert!(v.medication_data.is_none());
    assert!(v.tracking_history.is_empty());
    assert!(v.current_holder.is_none());
}

#[test]
fn history_without_events_is_empty() {
    let mut l = DrugTraceability::new(RecallPolicy::Open);
    assert!(l.get_tracking_history(&s("A")).is_empty());
    register(&mut l, "A", "M", "Aspirin", 1).unwrap();
    assert!(l.get_tracking_history(&s("B")).is_empty());
}

#[test]
fn get_unknown_is_not_found() {
    let l = DrugTraceability::new(RecallPolicy::Open);
    assert_eq!(l.get_medication(&s("A")).unwrap_err(), LedgerError::NotFound);
}

#[test]
fn status_update_requires_manufacturer() {
    let mut l = DrugTraceability::new(RecallPolicy::Open);
    register(&mut l, "A", "M", "Aspirin", 1).unwrap();
    l.transfer_medication(&s("A"), &s("M"), s("Y"), vec![], 2).unwrap();
    let r = l.update_medication_status(&s("A"), Status::Investigation, &s("Y"), 3);
    assert_eq!(r.unwrap_err(), LedgerError::Unauthorized);
    assert_eq!(l.get_tracking_history(&s("A")).len(), 2);
    let ok = l.update_medication_status(&s("A"), Status::Investigation, &s("M"), 4).unwrap();
    assert_eq!(ok.status, Status::Investigation);
    assert_eq!(ok.owner, s("Y"));
    let h = l.get_tracking_history(&s("A"));
    assert_eq!(h.len(), 3);
    assert_eq!(h[2].event, EventKind::StatusUpdate);
    // custody is unchanged by a status update
    assert_eq!(l.verify_medication(&s("A")).current_holder, Some(s("Y")));
    assert!(!l.verify_medication(&s("A")).is_valid);
    let missing = l.update_medication_status(&s("Z"), Status::Active, &s("M"), 5);
    assert_eq!(missing.unwrap_err(), LedgerError::NotFound);
}

#[test]
fn tracking_event_by_owner_moves_custody() {
    let mut l = DrugTraceability::new(RecallPolicy::Open);
    register(&mut l, "A", "M", "Aspirin", 1).unwrap();
    let r = l.add_tracking_event(s("A"), EventKind::Ship, s("port"), s("Carrier"), s("sig"), &s("M"), 2);
    assert_eq!(r, Ok(()));
    let m = l.get_medication(&s("A")).unwrap();
    assert_eq!(m.location, s("port"));
    assert_eq!(m.owner, s("Carrier"));
    let v = l.verify_medication(&s("A"));
    assert_eq!(v.current_holder, Some(s("Carrier")));
    assert!(v.is_valid);
    let h = l.get_tracking_history(&s("A"));
    assert_eq!(h.len(), 2);
    assert_eq!(h[1].signature, s("sig"));
    assert_eq!(h[1].event, EventKind::Ship);
    assert_eq!(h[1].from, s("M"));
    assert_eq!(h[1].to, s("Carrier"));
    // the carrier now holds the unit and may hand it on; the manufacturer may not
    let again = l.add_tracking_event(s("A"), EventKind::Receive, s("store"), s("Shop"), s(""), &s("M"), 3);
    assert_eq!(again, Err(LedgerError::Unauthorized));
    let next = l.add_tracking_event(s("A"), EventKind::Receive, s("store"), s("Shop"), s(""), &s("Carrier"), 3);
    assert_eq!(next, Ok(()));
    assert_eq!(l.get_medication(&s("A")).unwrap().owner, s("Shop"));
}

#[test]
fn tracking_event_by_non_owner_is_refused() {
    let mut l = DrugTraceability::new(RecallPolicy::Open);
    register(&mut l, "A", "M", "Aspirin", 1).unwrap();
    let r = l.add_tracking_event(s("A"), EventKind::Ship, s("dock"), s("Y"), s(""), &s("X"), 2);
    assert_eq!(r, Err(LedgerError::Unauthorized));
    let m = l.get_medication(&s("A")).unwrap();
    assert_eq!(m.owner, s("M"));
    assert_eq!(m.location, s("plant"));
    assert_eq!(l.get_tracking_history(&s("A")).len(), 1);
    assert_eq!(l.verify_medication(&s("A")).current_holder, Some(s("M")));
}

#[test]
fn tracking_event_for_unregistered_id_is_not_found() {
    let mut l = DrugTraceability::new(RecallPolicy::Open);
    let r = l.add_tracking_event(s("Q"), EventKind::Receive, s("store"), s("Shop"), s(""), &s("Shop"), 2);
    assert_eq!(r, Err(LedgerError::NotFound));
    assert!(l.get_tracking_history(&s("Q")).is_empty());
    assert_eq!(l.get_medication(&s("Q")).unwrap_err(), LedgerError::NotFound);
    assert!(!l.verify_medication(&s("Q")).is_valid);
}

#[test]
fn tracking_cannot_stand_in_for_other_operations() {
    let mut l = DrugTraceability::new(RecallPolicy::ManufacturerOnly);
    register(&mut l, "A", "M", "Aspirin", 1).unwrap();
    l.transfer_medication(&s("A"), &s("M"), s("X"), vec![], 2).unwrap();
    for kind in [EventKind::Recall, EventKind::Transfer, EventKind::Creation, EventKind::StatusUpdate] {
        let r = l.add_tracking_event(s("A"), kind, s("central"), s("X"), s(""), &s("X"), 3);
        assert_eq!(r, Err(LedgerError::Unauthorized));
    }
    assert_eq!(l.get_tracking_history(&s("A")).len(), 2);
    assert_eq!(l.get_medication(&s("A")).unwrap().status, Status::Active);
    assert!(l.verify_medication(&s("A")).is_valid);
}

#[test]
fn holder_is_manufacturer_without_events() {
    let mut l = DrugTraceability::new(RecallPolicy::Open);
    register(&mut l, "A", "M", "Aspirin", 1).unwrap();
    let v = l.verify_medication(&s("A"));
    assert_eq!(v.current_holder, Some(s("M")));
}

#[test]
fn list_by_manufacturer_keeps_registration_order() {
    let mut l = DrugTraceability::new(RecallPolicy::Open);
    register(&mut l, "C", "Acme", "Aspirin", 1).unwrap();
    register(&mut l, "A", "Other", "Aspirin", 1).unwrap();
    register(&mut l, "B", "Acme", "Ibuprofen", 1).unwrap();
    let r = l.get_medications_by_manufacturer(&s("Acme"));
    let ids: Vec<String> = r.iter().map(|m| m.id.clone()).collect();
    assert_eq!(ids, vec![s("C"), s("B")]);
    assert!(l.get_medications_by_manufacturer(&s("None")).is_empty());
}

#[test]
fn search_matches_product_name_exactly() {
    let mut l = DrugTraceability::new(RecallPolicy::Open);
    register(&mut l, "A", "M", "Aspirin", 1).unwrap();
    register(&mut l, "B", "M", "Aspirin 500", 1).unwrap();
    register(&mut l, "C", "N", "Aspirin", 1).unwrap();
    let ids: Vec<String> = l.search_medications(&s("Aspirin")).iter().map(|m| m.id.clone()).collect();
    assert_eq!(ids, vec![s("A"), s("C")]);
    assert!(l.search_medications(&s("aspirin")).is_empty());
}

#[test]
fn stats_tally_by_status() {
    let mut l = DrugTraceability::new(RecallPolicy::Open);
    assert_eq!(l.get_verification_stats(), VerificationStats { total: 0, active: 0, recalled: 0 });
    register(&mut l, "A", "M", "P", 1).unwrap();
    register(&mut l, "B", "M", "P", 1).unwrap();
    register(&mut l, "C", "M", "P", 1).unwrap();
    l.issue_medication_recall(&s("A"), s("r"), &s("I"), 2).unwrap();
    l.update_medication_status(&s("B"), Status::Investigation, &s("M"), 2).unwrap();
    assert_eq!(l.get_verification_stats(), VerificationStats { total: 3, active: 1, recalled: 1 });
}

#[test]
fn snapshot_copies_every_field() {
    let mut l = DrugTraceability::new(RecallPolicy::Open);
    register(&mut l, "A", "M", "P", 1).unwrap();
    l.issue_medication_recall(&s("A"), s("why"), &s("I"), 2).unwrap();
    let m = l.get_medication(&s("A")).unwrap();
    let c = m.snapshot();
    assert_eq!(c.id, m.id);
    assert_eq!(c.recall_reason, Some(s("why")));
    assert_eq!(c.serial_number, s("SN001"));
}
