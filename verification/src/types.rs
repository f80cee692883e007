//! Shared identifier types and the clock/identifier sources.

use vstd::prelude::*;

verus! {

/// Identifies a domain (e.g. "backend", "frontend").
///
/// A domain identifier is an opaque string; equality is exact string
/// equality. Configuration guarantees that every identifier admitted
/// into the domain set is non-empty.
#[derive(Debug)]
pub struct DomainId(pub String);

impl View for DomainId {
    type V = Seq<char>;

    open spec fn view(&self) -> Seq<char> {
        self.0@
    }
}

impl DomainId {
    pub fn new(name: &str) -> (r: DomainId)
        ensures
            r@ == name@,
    {
        DomainId(name.to_owned())
    }

    pub fn as_str(&self) -> (r: &str)
        ensures
            r@ == self@,
    {
        self.0.as_str()
    }

    pub fn clone_id(&self) -> (r: DomainId)
        ensures
            r@ == self@,
    {
        DomainId(self.0.clone())
    }

    /// Exact string equality of two identifiers.
    pub fn eq_id(&self, other: &DomainId) -> (r: bool)
        ensures
            r == (self@ == other@),
    {
        self.0 == other.0
    }
}

/// Milliseconds since the Unix epoch, as reported by the system clock.
///
/// Relies on std's `SystemTime::now`; nothing can be promised of the
/// clock's reading, so no `ensures` is stated. A clock before the
/// epoch, or too far past it for `u64` milliseconds, reads as zero
/// rather than panicking.
#[verifier::external_body]
pub fn now_millis() -> u64 {
    std::time::SystemTime::now()
        .duration_since(std::time::UNIX_EPOCH)
        .ok()
        .and_then(|d| u64::try_from(d.as_millis()).ok())
        .unwrap_or(0)
}

/// The text of a freshly generated random (version 4) UUID.
///
/// Relies on uuid's `Uuid::new_v4` and its hyphenated `to_string`,
/// which the crate documents as 36 characters. The value itself is
/// random, so nothing more is stated.
#[verifier::external_body]
pub fn fresh_uuid() -> (r: String)
    ensures
        r@.len() == 36,
{
    uuid::Uuid::new_v4().to_string()
}

/// Unique identifier for a routed message.
#[derive(Debug)]
pub struct MessageId(pub String);

impl View for MessageId {
    type V = Seq<char>;

    open spec fn view(&self) -> Seq<char> {
        self.0@
    }
}

impl MessageId {
    pub fn new() -> (r: MessageId)
        ensures
            r@.len() == 36,
    {
        MessageId(fresh_uuid())
    }
}

impl Default for MessageId {
    fn default() -> (r: MessageId)
        ensures
            r@.len() == 36,
    {
        MessageId::new()
    }
}

/// Agent lifecycle state.
pub enum AgentState {
    Idle,
    Working,
    Blocked,
    Complete,
}

/// Agent status, as published beside a domain's message directories.
pub struct AgentStatus {
    pub domain: String,
    pub status: AgentState,
    pub current_task: Option<String>,
    /// Milliseconds since the Unix epoch.
    pub last_heartbeat: u64,
    pub artifacts_produced: Vec<String>,
    pub blocked_on: Option<String>,
}

impl AgentStatus {
    /// Create a new idle status for the given domain, stamped with the
    /// current clock reading.
    pub fn new_idle(domain: &DomainId) -> (r: AgentStatus)
        ensures
            r.domain@ == domain@,
            r.status is Idle,
            r.current_task is None,
            r.artifacts_produced@ =~= Seq::<String>::empty(),
            r.blocked_on is None,
    {
        AgentStatus {
            domain: domain.0.clone(),
            status: AgentState::Idle,
            current_task: None,
            last_heartbeat: now_millis(),
            artifacts_produced: Vec::new(),
            blocked_on: None,
        }
    }
}

} // verus!
