use vstd::prelude::*;
use vstd::string::*;
use vstd::utf8::*;

use crate::ids::ProposalId;
use crate::integrity::{text_hash, ContentHash};
use crate::text::{join, owned, push_joined, texts};

verus! {

/// Outcome of one validation check.
#[derive(Debug, Clone, PartialEq, Eq)]
pub struct CheckResult {
    pub name: String,
    pub passed: bool,
    pub message: Option<String>,
}

impl CheckResult {
    /// A passed check.
    pub fn passed(name: &str) -> (r: Self)
        ensures
            r.name@ == name@,
            r.passed,
            r.message is None,
    {
        CheckResult { name: owned(name), passed: true, message: None }
    }

    /// A failed check with its message.
    pub fn failed(name: &str, message: &str) -> (r: Self)
        ensures
            r.name@ == name@,
            !r.passed,
            r.message matches Some(m) && m@ == message@,
    {
        CheckResult { name: owned(name), passed: false, message: Some(owned(message)) }
    }
}

/// Policy defining the checks a proposal must pass.
#[derive(Debug, Clone)]
pub struct ValidationPolicy {
    pub required_checks: Vec<String>,
    version_hash: ContentHash,
}

/// The version hash of a policy: the hash of its check names, one per line.
pub open spec fn policy_hash(checks: Seq<Seq<char>>) -> Seq<u8> {
    text_hash(join(checks, "\n"@))
}

impl ValidationPolicy {
    /// The policy version hash.
    pub closed spec fn version_spec(&self) -> Seq<u8> {
        self.version_hash@
    }

    /// Names of the required checks, in order.
    pub closed spec fn checks_spec(&self) -> Seq<Seq<char>> {
        texts(self.required_checks@)
    }

    /// Whether the version hash matches the required checks.
    pub closed spec fn wf(&self) -> bool {
        self.version_hash@ == policy_hash(texts(self.required_checks@))
    }

    fn rehash(checks: &Vec<String>) -> (r: ContentHash)
        ensures
            r@ == policy_hash(texts(checks@)),
    {
        let mut s = String::new();
        push_joined(&mut s, checks, "\n");
        assert(s@ == join(texts(checks@), "\n"@));
        ContentHash::compute(s.as_str())
    }

    /// A policy without required checks.
    pub fn new() -> (r: Self)
        ensures
            r.wf(),
            r.checks_spec().len() == 0,
    {
        let checks: Vec<String> = Vec::new();
        let version_hash = Self::rehash(&checks);
        ValidationPolicy { required_checks: checks, version_hash }
    }

    /// Adds a required check.
    pub fn with_required_check(self, name: &str) -> (r: Self)
        ensures
            r.wf(),
            r.checks_spec() == self.checks_spec().push(name@),
    {
        let mut checks = self.required_checks;
        checks.push(owned(name));
        let version_hash = Self::rehash(&checks);
        proof {
            assert(texts(checks@) =~= texts(self.required_checks@).push(name@));
        }
        ValidationPolicy { required_checks: checks, version_hash }
    }

    /// The required check names.
    pub fn required(&self) -> (r: &Vec<String>)
        ensures
            texts(r@) == self.checks_spec(),
    {
        &self.required_checks
    }

    /// The policy version hash.
    pub fn version_hash(&self) -> (r: &ContentHash)
        ensures
            r@ == self.version_spec(),
    {
        &self.version_hash
    }
}

/// Tenant and session metadata for a validation.
#[derive(Debug, Clone, Default)]
pub struct ValidationContext {
    pub tenant_id: Option<String>,
    pub session_id: Option<String>,
}

impl ValidationContext {
    /// An empty validation context.
    pub fn new() -> (r: Self)
        ensures
            r.tenant_id is None,
            r.session_id is None,
    {
        ValidationContext { tenant_id: None, session_id: None }
    }
}

/// Proof that validation occurred; only a promotion gate constructs it.
#[derive(Debug, Clone)]
pub struct ValidationReport {
    proposal_id: ProposalId,
    checks: Vec<CheckResult>,
    policy_version: ContentHash,
}

/// The views of a list of check results: name and outcome.
pub open spec fn check_views(s: Seq<CheckResult>) -> Seq<(Seq<char>, bool)> {
    s.map_values(|c: CheckResult| (c.name@, c.passed))
}

impl ValidationReport {
    /// The validated proposal's identifier.
    pub closed spec fn proposal_spec(&self) -> Seq<char> {
        self.proposal_id@
    }

    /// Names and outcomes of the checks, in order.
    pub closed spec fn checks_spec(&self) -> Seq<(Seq<char>, bool)> {
        check_views(self.checks@)
    }

    /// The policy version the checks ran under.
    pub closed spec fn policy_spec(&self) -> Seq<u8> {
        self.policy_version@
    }

    pub(crate) fn new(proposal_id: ProposalId, checks: Vec<CheckResult>, policy_version: ContentHash) -> (r: Self)
        ensures
            r.proposal_spec() == proposal_id@,
            r.checks_spec() == check_views(checks@),
            r.policy_spec() == policy_version@,
    {
        ValidationReport { proposal_id, checks, policy_version }
    }

    /// The validated proposal's identifier.
    pub fn proposal_id(&self) -> (r: &ProposalId)
        ensures
            r@ == self.proposal_spec(),
    {
        &self.proposal_id
    }

    /// The check results.
    pub fn checks(&self) -> (r: &[CheckResult])
        ensures
            check_views(r@) == self.checks_spec(),
    {
        self.checks.as_slice()
    }

    /// The policy version hash.
    pub fn policy_version(&self) -> (r: &ContentHash)
        ensures
            r@ == self.policy_spec(),
    {
        &self.policy_version
    }

    /// Whether every check passed.
    pub fn all_passed(&self) -> (r: bool)
        ensures
            r == forall|i: int| 0 <= i < self.checks_spec().len() ==> (#[trigger] self.checks_spec()[i]).1,
    {
        let mut i: usize = 0;
        while i < self.checks.len()
            invariant
                i <= self.checks@.len(),
                forall|k: int| 0 <= k < i ==> (#[trigger] check_views(self.checks@)[k]).1,
            decreases self.checks.len() - i,
        {
            if !self.checks[i].passed {
                assert(!check_views(self.checks@)[i as int].1);
                assert(!self.checks_spec()[i as int].1);
                return false;
            }
            i = i + 1;
        }
        assert(self.checks_spec() == check_views(self.checks@));
        true
    }
}

/// Error raised by validation.
#[derive(Debug, Clone, PartialEq, Eq)]
pub enum ValidationError {
    /// One or more checks failed.
    CheckFailed { name: String, reason: String },
}

} // verus!
