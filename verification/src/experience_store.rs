use vstd::prelude::*;
use vstd::string::*;

use crate::ids::{ActorId, ArtifactId, ChainId, CorrelationId, EventId, FactId, GateId, ProposalId, TenantId};
use crate::integrity::ContentHash;
use crate::text::{concat2, owned};
use crate::time::Timestamp;

verus! {

/// The kinds of engine experience events.
#[derive(Debug, Clone, Copy, PartialEq, Eq, Hash, Structural)]
pub enum ExperienceEventKind {
    ProposalCreated,
    ProposalValidated,
    FactPromoted,
    RecallExecuted,
    ReplayTraceRecorded,
    ReplayabilityDowngraded,
    ArtifactStateTransitioned,
    ArtifactRollbackRecorded,
    BackendInvoked,
    OutcomeRecorded,
    BudgetExceeded,
    PolicySnapshotCaptured,
    HypothesisResolved,
    GateDecisionRecorded,
}

/// The outcome of one contract check, as recorded in an event.
#[derive(Debug, Clone)]
pub struct ContractResultSnapshot {
    /// The contract's name.
    pub name: String,
    /// Whether it passed.
    pub passed: bool,
    /// Why it failed, if it did.
    pub failure_reason: Option<String>,
}

/// The result of a contract check made at the kernel boundary.
#[derive(Debug, Clone)]
pub struct ContractResult {
    /// The contract's name.
    pub name: String,
    /// Whether it passed.
    pub passed: bool,
    /// Why it failed, if it did.
    pub failure_reason: Option<String>,
}

impl From<ContractResult> for ContractResultSnapshot {
    fn from(result: ContractResult) -> (r: Self) {
        ContractResultSnapshot { name: result.name, passed: result.passed, failure_reason: result.failure_reason }
    }
}

impl vstd::std_specs::convert::FromSpecImpl<ContractResult> for ContractResultSnapshot {
    open spec fn obeys_from_spec() -> bool {
        true
    }

    open spec fn from_spec(result: ContractResult) -> Self {
        ContractResultSnapshot { name: result.name, passed: result.passed, failure_reason: result.failure_reason }
    }
}

/// Which budget was exceeded.
#[derive(Debug, Clone, PartialEq, Eq)]
pub enum BudgetResource {
    EngineBudget,
    Tokens,
    Facts,
    Cycles,
    Time,
    Cost,
    Other(String),
}

/// How a hypothesis was resolved.
#[derive(Debug, Clone, Copy, PartialEq, Eq, Structural)]
pub enum HypothesisOutcome {
    Confirmed,
    Falsified,
    Superseded,
    Unresolved,
}

/// The kind of a governed artifact.
#[derive(Debug, Clone, PartialEq, Eq, Hash)]
pub enum ArtifactKind {
    Adapter,
    Pack,
    Policy,
    TruthFile,
    EvalSuite,
    Other(String),
}

/// A time range; an absent end is open.
#[derive(Debug, Clone)]
pub struct TimeRange {
    /// Start of the range.
    pub start: Option<Timestamp>,
    /// End of the range.
    pub end: Option<Timestamp>,
}

/// A query over stored experience events; empty fields do not filter.
#[derive(Debug, Clone)]
pub struct EventQuery {
    pub tenant_id: Option<TenantId>,
    pub time_range: Option<TimeRange>,
    pub kinds: Vec<ExperienceEventKind>,
    pub correlation_id: Option<CorrelationId>,
    pub chain_id: Option<ChainId>,
    pub limit: Option<usize>,
}

impl Default for EventQuery {
    /// The query with no filter.
    fn default() -> (r: Self)
        ensures
            r.tenant_id is None,
            r.time_range is None,
            r.kinds@.len() == 0,
            r.correlation_id is None,
            r.chain_id is None,
            r.limit is None,
    {
        EventQuery {
            tenant_id: None,
            time_range: None,
            kinds: Vec::new(),
            correlation_id: None,
            chain_id: None,
            limit: None,
        }
    }
}

/// A query over governed artifacts; empty fields do not filter.
#[derive(Debug, Clone)]
pub struct ArtifactQuery {
    pub tenant_id: Option<TenantId>,
    pub artifact_id: Option<ArtifactId>,
    pub kind: Option<ArtifactKind>,
    pub limit: Option<usize>,
}

impl Default for ArtifactQuery {
    /// The query with no filter.
    fn default() -> (r: Self)
        ensures
            r.tenant_id is None,
            r.artifact_id is None,
            r.kind is None,
            r.limit is None,
    {
        ArtifactQuery { tenant_id: None, artifact_id: None, kind: None, limit: None }
    }
}

/// Errors of an experience store.
#[derive(Debug, Clone, PartialEq, Eq)]
pub enum ExperienceStoreError {
    /// The storage failed.
    StorageError { message: String },
    /// The query was invalid.
    InvalidQuery { message: String },
    /// Nothing was found.
    NotFound { message: String },
}

/// The message an experience store error displays.
pub open spec fn experience_store_error_text(e: ExperienceStoreError) -> Seq<char> {
    match e {
        ExperienceStoreError::StorageError { message } => "Storage error: "@ + message@,
        ExperienceStoreError::InvalidQuery { message } => "Invalid query: "@ + message@,
        ExperienceStoreError::NotFound { message } => "Not found: "@ + message@,
    }
}

impl ExperienceStoreError {
    /// The message its display form shows.
    pub fn to_text(&self) -> (r: String)
        ensures
            r@ == experience_store_error_text(*self),
    {
        match self {
            ExperienceStoreError::StorageError { message } => concat2("Storage error: ", message.as_str()),
            ExperienceStoreError::InvalidQuery { message } => concat2("Invalid query: ", message.as_str()),
            ExperienceStoreError::NotFound { message } => concat2("Not found: ", message.as_str()),
        }
    }
}

/// What a user override targets.
#[derive(Debug, Clone)]
pub enum OverrideTarget {
    Fact(FactId),
    Proposal(ProposalId),
    Constraint(String),
}

/// Events recorded on the user side.
#[derive(Debug, Clone)]
pub enum UserExperienceEvent {
    /// A user approved a gate request.
    UserApprovalGranted {
        gate_request_id: GateId,
        actor: ActorId,
        policy_snapshot_hash: Option<ContentHash>,
        reason: Option<String>,
    },
    /// A user overrode a fact, proposal or constraint.
    UserOverrideIssued {
        target: OverrideTarget,
        actor: ActorId,
        policy_snapshot_hash: Option<ContentHash>,
        reason: String,
    },
}

/// A user-side event with its identity, time, tenant and correlation.
#[derive(Debug, Clone)]
pub struct UserExperienceEventEnvelope {
    pub event_id: EventId,
    pub occurred_at: Timestamp,
    pub tenant_id: Option<TenantId>,
    pub correlation_id: Option<CorrelationId>,
    pub event: UserExperienceEvent,
}

impl UserExperienceEventEnvelope {
    /// An envelope stamped at the epoch, without tenant or correlation.
    pub fn new(event_id: &str, event: UserExperienceEvent) -> (r: Self)
        ensures
            r.event_id@ == event_id@,
            r.occurred_at@ == "1970-01-01T00:00:00Z"@,
            r.tenant_id is None,
            r.correlation_id is None,
            r.event == event,
    {
        UserExperienceEventEnvelope {
            event_id: owned(event_id),
            occurred_at: Timestamp::epoch(),
            tenant_id: None,
            correlation_id: None,
            event,
        }
    }

    /// Sets the tenant.
    pub fn with_tenant(self, tenant_id: &str) -> (r: Self)
        ensures
            r.tenant_id matches Some(t) && t@ == tenant_id@,
            r.event_id == self.event_id,
            r.occurred_at == self.occurred_at,
            r.correlation_id == self.correlation_id,
            r.event == self.event,
    {
        UserExperienceEventEnvelope { tenant_id: Some(owned(tenant_id)), ..self }
    }

    /// Sets the correlation identifier.
    pub fn with_correlation(self, correlation_id: &str) -> (r: Self)
        ensures
            r.correlation_id matches Some(t) && t@ == correlation_id@,
            r.event_id == self.event_id,
            r.occurred_at == self.occurred_at,
            r.tenant_id == self.tenant_id,
            r.event == self.event,
    {
        UserExperienceEventEnvelope { correlation_id: Some(owned(correlation_id)), ..self }
    }

    /// Sets the time of the event.
    pub fn with_timestamp(self, occurred_at: &str) -> (r: Self)
        ensures
            r.occurred_at@ == occurred_at@,
            r.event_id == self.event_id,
            r.tenant_id == self.tenant_id,
            r.correlation_id == self.correlation_id,
            r.event == self.event,
    {
        UserExperienceEventEnvelope { occurred_at: Timestamp::new(occurred_at), ..self }
    }
}

/// What recall reads of an engine-side event: the outcome when the event records one.
#[derive(Debug, Clone)]
pub struct EngineOutcome {
    /// Whether the run passed.
    pub passed: bool,
    /// Why the run stopped, when known.
    pub stop_reason: Option<crate::stop::StopReason>,
}

/// An engine-side event with its identity, time, tenant and correlation; `outcome` holds
/// the recorded outcome, and is `None` for every other kind of engine event.
#[derive(Debug, Clone)]
pub struct EngineRecordEnvelope {
    pub event_id: EventId,
    pub occurred_at: Timestamp,
    pub tenant_id: Option<TenantId>,
    pub correlation_id: Option<CorrelationId>,
    pub outcome: Option<EngineOutcome>,
}

/// A record of either ledger side, as a store query returns it.
#[derive(Debug, Clone)]
pub enum ExperienceRecord {
    Engine(EngineRecordEnvelope),
    User(UserExperienceEventEnvelope),
}

impl ExperienceRecord {
    /// The correlation identifier of the record, if any.
    pub fn correlation_id(&self) -> (r: Option<&CorrelationId>)
        ensures
            r is Some <==> (match self {
                ExperienceRecord::Engine(env) => env.correlation_id,
                ExperienceRecord::User(env) => env.correlation_id,
            }) is Some,
            r matches Some(t) ==> Some(*t) == (match self {
                ExperienceRecord::Engine(env) => env.correlation_id,
                ExperienceRecord::User(env) => env.correlation_id,
            }),
    {
        match self {
            ExperienceRecord::Engine(env) => env.correlation_id.as_ref(),
            ExperienceRecord::User(env) => env.correlation_id.as_ref(),
        }
    }

    /// The tenant of the record, if any.
    pub fn tenant_id(&self) -> (r: Option<&TenantId>)
        ensures
            r is Some <==> (match self {
                ExperienceRecord::Engine(env) => env.tenant_id,
                ExperienceRecord::User(env) => env.tenant_id,
            }) is Some,
            r matches Some(t) ==> Some(*t) == (match self {
                ExperienceRecord::Engine(env) => env.tenant_id,
                ExperienceRecord::User(env) => env.tenant_id,
            }),
    {
        match self {
            ExperienceRecord::Engine(env) => env.tenant_id.as_ref(),
            ExperienceRecord::User(env) => env.tenant_id.as_ref(),
        }
    }

    /// When the recorded event occurred.
    pub fn occurred_at(&self) -> (r: &Timestamp)
        ensures
            *r == (match self {
                ExperienceRecord::Engine(env) => env.occurred_at,
                ExperienceRecord::User(env) => env.occurred_at,
            }),
    {
        match self {
            ExperienceRecord::Engine(env) => &env.occurred_at,
            ExperienceRecord::User(env) => &env.occurred_at,
        }
    }
}

/// The read side of an experience store that recall uses; implemented by storage
/// backends.
pub trait ExperienceStore {
    /// The records of both ledger sides that match the query, oldest first.
    fn query_records(&self, query: &EventQuery) -> Result<Vec<ExperienceRecord>, ExperienceStoreError>;
}

} // verus!
