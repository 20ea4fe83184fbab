use vstd::prelude::*;

verus! {

/// The lifecycle status of a gig.
#[derive(Clone, Copy, Debug, PartialEq, Eq, Structural)]
pub enum GigStatus {
    /// The gig is open and not yet assigned.
    Open,
    /// The gig has been assigned to a worker.
    Assigned,
    /// The gig has been approved by the employer.
    Approved,
    /// There is a dispute over the gig.
    Disputed,
}

/// The errors a gig operation can report.
#[derive(Clone, Copy, Debug, PartialEq, Eq, Structural)]
pub enum GigError {
    /// No gig with the given id exists.
    NotFound,
    /// The caller is not the employer of the gig.
    Unauthorized,
    /// The operation is not permitted in the gig's current status.
    InvalidState,
    /// The serialized record would exceed the per-record byte budget.
    RecordTooLarge,
    /// The persistence substrate is unavailable.
    StorageFault,
}

impl Default for GigStatus {
    /// A gig starts out open.
    fn default() -> (r: GigStatus)
        ensures
            r == GigStatus::Open,
    {
        GigStatus::Open
    }
}

/// A gig record.
#[derive(Debug)]
pub struct Gig {
    pub id: u64,
    pub title: String,
    pub description: String,
    pub employer: String,
    pub deadline: u64,
    pub assigned_to: Option<String>,
    pub status: GigStatus,
    pub created_at: u64,
    pub updated_at: Option<u64>,
}

/// The mathematical model of a gig record: every text field as a sequence
/// of characters, everything else as a plain value.
pub ghost struct GigModel {
    pub id: u64,
    pub title: Seq<char>,
    pub description: Seq<char>,
    pub employer: Seq<char>,
    pub deadline: u64,
    pub assigned_to: Option<Seq<char>>,
    pub status: GigStatus,
    pub created_at: u64,
    pub updated_at: Option<u64>,
}

impl View for Gig {
    type V = GigModel;

    open spec fn view(&self) -> GigModel {
        GigModel {
            id: self.id,
            title: self.title@,
            description: self.description@,
            employer: self.employer@,
            assigned_to: match self.assigned_to {
                Option::None => Option::None,
                Option::Some(w) => Option::Some(w@),
            },
            deadline: self.deadline,
            status: self.status,
            created_at: self.created_at,
            updated_at: self.updated_at,
        }
    }
}

/// The fields a caller provides when posting or updating a gig.
#[derive(Debug)]
pub struct GigPayload {
    pub title: String,
    pub description: String,
    pub deadline: u64,
}

/// The mathematical model of a payload.
pub ghost struct PayloadModel {
    pub title: Seq<char>,
    pub description: Seq<char>,
    pub deadline: u64,
}

impl View for GigPayload {
    type V = PayloadModel;

    open spec fn view(&self) -> PayloadModel {
        PayloadModel {
            title: self.title@,
            description: self.description@,
            deadline: self.deadline,
        }
    }
}

} // verus!
