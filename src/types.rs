use vstd::prelude::*;

verus! {

/// Lifecycle state of a registered medication.
#[derive(Clone, Copy, Debug, PartialEq, Eq, Structural)]
pub enum Status {
    Active,
    Investigation,
    Recalled,
}

/// The nature of a ledger event.
#[derive(Clone, Copy, Debug, PartialEq, Eq, Structural)]
pub enum EventKind {
    Creation,
    Transfer,
    StatusUpdate,
    Recall,
    Commission,
    Ship,
    Receive,
    Dispense,
}

/// Failure kinds of the mutating and lookup operations.
#[derive(Clone, Copy, Debug, PartialEq, Eq, Structural)]
pub enum LedgerError {
    AlreadyExists,
    NotFound,
    Unauthorized,
}

/// Who may issue a recall: configured explicitly for each ledger.
#[derive(Clone, Debug)]
pub enum RecallPolicy {
    /// Only the record's manufacturer.
    ManufacturerOnly,
    /// The record's manufacturer or the named regulator.
    ManufacturerOrRegulator(String),
    /// Any issuer.
    Open,
}

/// Mathematical value of a `RecallPolicy`.
pub enum PolicyView {
    ManufacturerOnly,
    ManufacturerOrRegulator(Seq<char>),
    Open,
}

impl View for RecallPolicy {
    type V = PolicyView;

    open spec fn view(&self) -> PolicyView {
        match self {
            RecallPolicy::ManufacturerOnly => PolicyView::ManufacturerOnly,
            RecallPolicy::ManufacturerOrRegulator(r) => PolicyView::ManufacturerOrRegulator(r@),
            RecallPolicy::Open => PolicyView::Open,
        }
    }
}

/// A registered medication unit.
#[derive(Clone, Debug)]
pub struct MedicationData {
    pub id: String,
    pub gtin: String,
    pub batch: String,
    pub serial_number: String,
    pub expiry_date: String,
    /// The registering party; only it may change the status.
    pub manufacturer: String,
    /// The current custodian; changed by transfers.
    pub owner: String,
    pub product_name: String,
    pub location: String,
    pub status: Status,
    pub commission_time: u64,
    pub recall_reason: Option<String>,
}

/// Mathematical value of a `MedicationData`.
pub struct MedicationView {
    pub id: Seq<char>,
    pub gtin: Seq<char>,
    pub batch: Seq<char>,
    pub serial_number: Seq<char>,
    pub expiry_date: Seq<char>,
    pub manufacturer: Seq<char>,
    pub owner: Seq<char>,
    pub product_name: Seq<char>,
    pub location: Seq<char>,
    pub status: Status,
    pub commission_time: u64,
    pub recall_reason: Option<Seq<char>>,
}

pub open spec fn opt_str_view(s: Option<String>) -> Option<Seq<char>> {
    match s {
        Some(t) => Some(t@),
        None => None,
    }
}

impl View for MedicationData {
    type V = MedicationView;

    open spec fn view(&self) -> MedicationView {
        MedicationView {
            id: self.id@,
            gtin: self.gtin@,
            batch: self.batch@,
            serial_number: self.serial_number@,
            expiry_date: self.expiry_date@,
            manufacturer: self.manufacturer@,
            owner: self.owner@,
            product_name: self.product_name@,
            location: self.location@,
            status: self.status,
            commission_time: self.commission_time,
            recall_reason: opt_str_view(self.recall_reason),
        }
    }
}

/// One immutable entry of an entity's history.
#[derive(Clone, Debug)]
pub struct TrackingEvent {
    pub event: EventKind,
    pub medication_id: String,
    /// The party that initiated the event.
    pub from: String,
    /// The party that holds the unit after the event.
    pub to: String,
    pub location: String,
    pub timestamp: u64,
    pub signature: String,
    /// Auxiliary key/value annotations, opaque to the ledger.
    pub metadata: Vec<(String, String)>,
}

/// Mathematical value of a `TrackingEvent`.
pub struct EventView {
    pub event: EventKind,
    pub medication_id: Seq<char>,
    pub from: Seq<char>,
    pub to: Seq<char>,
    pub location: Seq<char>,
    pub timestamp: u64,
    pub signature: Seq<char>,
    pub metadata: Seq<(Seq<char>, Seq<char>)>,
}

pub open spec fn pair_view(p: (String, String)) -> (Seq<char>, Seq<char>) {
    (p.0@, p.1@)
}

pub open spec fn metadata_view(m: Seq<(String, String)>) -> Seq<(Seq<char>, Seq<char>)> {
    m.map_values(|p: (String, String)| pair_view(p))
}

impl View for TrackingEvent {
    type V = EventView;

    open spec fn view(&self) -> EventView {
        EventView {
            event: self.event,
            medication_id: self.medication_id@,
            from: self.from@,
            to: self.to@,
            location: self.location@,
            timestamp: self.timestamp,
            signature: self.signature@,
            metadata: metadata_view(self.metadata@),
        }
    }
}

/// Answer of a verification query; never an error.
#[derive(Clone, Debug)]
pub struct VerificationResult {
    /// Active and never recalled.
    pub is_valid: bool,
    pub medication_data: Option<MedicationData>,
    pub tracking_history: Vec<TrackingEvent>,
    pub current_holder: Option<String>,
}

/// Mathematical value of a `VerificationResult`.
pub struct VerificationView {
    pub is_valid: bool,
    pub medication: Option<MedicationView>,
    pub history: Seq<EventView>,
    pub current_holder: Option<Seq<char>>,
}

pub open spec fn opt_med_view(m: Option<MedicationData>) -> Option<MedicationView> {
    match m {
        Some(d) => Some(d@),
        None => None,
    }
}

impl View for VerificationResult {
    type V = VerificationView;

    open spec fn view(&self) -> VerificationView {
        VerificationView {
            is_valid: self.is_valid,
            medication: opt_med_view(self.medication_data),
            history: events_view(self.tracking_history@),
            current_holder: opt_str_view(self.current_holder),
        }
    }
}

/// Tallies of the registry by status.
#[derive(Clone, Copy, Debug, PartialEq, Eq, Structural)]
pub struct VerificationStats {
    pub total: usize,
    pub active: usize,
    pub recalled: usize,
}

/// Views of a sequence of medication records.
pub open spec fn meds_view(s: Seq<MedicationData>) -> Seq<MedicationView> {
    s.map_values(|m: MedicationData| m@)
}

/// Views of a sequence of events.
pub open spec fn events_view(s: Seq<TrackingEvent>) -> Seq<EventView> {
    s.map_values(|e: TrackingEvent| e@)
}

fn copy_opt_string(s: &Option<String>) -> (r: Option<String>)
    ensures
        opt_str_view(r) == opt_str_view(*s),
{
    match s {
        Some(t) => Some(t.clone()),
        None => None,
    }
}

/// Copies annotations pair by pair.
fn copy_metadata(m: &Vec<(String, String)>) -> (r: Vec<(String, String)>)
    ensures
        metadata_view(r@) == metadata_view(m@),
{
    let mut r: Vec<(String, String)> = Vec::new();
    let mut i: usize = 0;
    while i < m.len()
        invariant
            i <= m.len(),
            metadata_view(r@) =~= metadata_view(m@.take(i as int)),
        decreases m.len() - i,
    {
        let k = m[i].0.clone();
        let v = m[i].1.clone();
        let ghost prev = r@;
        r.push((k, v));
        proof {
            assert(pair_view((k, v)) == pair_view(m@[i as int]));
            assert(m@.take(i as int + 1) =~= m@.take(i as int).push(m@[i as int]));
            assert(metadata_view(r@) =~= metadata_view(prev).push(pair_view((k, v))));
            assert(metadata_view(m@.take(i as int + 1)) =~= metadata_view(
                m@.take(i as int),
            ).push(pair_view(m@[i as int])));
        }
        i = i + 1;
    }
    proof {
        assert(m@.take(m.len() as int) =~= m@);
    }
    r
}

impl MedicationData {
    /// A field-by-field copy with the same view.
    pub fn snapshot(&self) -> (r: MedicationData)
        ensures
            r@ == self@,
    {
        MedicationData {
            id: self.id.clone(),
            gtin: self.gtin.clone(),
            batch: self.batch.clone(),
            serial_number: self.serial_number.clone(),
            expiry_date: self.expiry_date.clone(),
            manufacturer: self.manufacturer.clone(),
            owner: self.owner.clone(),
            product_name: self.product_name.clone(),
            location: self.location.clone(),
            status: self.status,
            commission_time: self.commission_time,
            recall_reason: copy_opt_string(&self.recall_reason),
        }
    }
}

impl TrackingEvent {
    /// A field-by-field copy with the same view.
    pub fn snapshot(&self) -> (r: TrackingEvent)
        ensures
            r@ == self@,
    {
        TrackingEvent {
            event: self.event,
            medication_id: self.medication_id.clone(),
            from: self.from.clone(),
            to: self.to.clone(),
            location: self.location.clone(),
            timestamp: self.timestamp,
            signature: self.signature.clone(),
            metadata: copy_metadata(&self.metadata),
        }
    }
}

} // verus!
