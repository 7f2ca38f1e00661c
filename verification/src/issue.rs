//! Policy violation records: the output of a check run.

use vstd::prelude::*;

verus! {

/// Which policy a dependency violated. A closed set: extending the checker
/// means adding a variant here.
#[derive(Clone, Copy, Debug, PartialEq, Eq, Structural)]
pub enum IssueKind {
    /// The pin floats on a branch or tag outside the allow-list.
    Disallowed,
    /// The pin is older than the freshness threshold.
    Outdated,
    /// The repository owner is not the expected upstream identity.
    NonUpstream,
}

impl IssueKind {
    pub fn is_disallowed(&self) -> (r: bool)
        ensures
            r == (*self is Disallowed),
    {
        matches!(self, IssueKind::Disallowed)
    }

    pub fn is_outdated(&self) -> (r: bool)
        ensures
            r == (*self is Outdated),
    {
        matches!(self, IssueKind::Outdated)
    }

    pub fn is_non_upstream(&self) -> (r: bool)
        ensures
            r == (*self is NonUpstream),
    {
        matches!(self, IssueKind::NonUpstream)
    }
}

/// The kind-specific payload of a violation, as plain data.
#[derive(Clone, Debug, PartialEq, Eq)]
pub enum IssueDetails {
    Disallowed { input: String, git_ref: String },
    Outdated { input: String, num_days_old: i64 },
    NonUpstream { input: String, owner: String },
}

/// The mathematical value of an [`IssueDetails`].
pub enum IssueDetailsSpec {
    Disallowed { input: Seq<char>, git_ref: Seq<char> },
    Outdated { input: Seq<char>, num_days_old: int },
    NonUpstream { input: Seq<char>, owner: Seq<char> },
}

impl View for IssueDetails {
    type V = IssueDetailsSpec;

    open spec fn view(&self) -> IssueDetailsSpec {
        match self {
            IssueDetails::Disallowed { input, git_ref } => IssueDetailsSpec::Disallowed {
                input: input@,
                git_ref: git_ref@,
            },
            IssueDetails::Outdated { input, num_days_old } => IssueDetailsSpec::Outdated {
                input: input@,
                num_days_old: *num_days_old as int,
            },
            IssueDetails::NonUpstream { input, owner } => IssueDetailsSpec::NonUpstream {
                input: input@,
                owner: owner@,
            },
        }
    }
}

/// One policy violation: the dependency it concerns, the policy violated,
/// and the kind-specific payload.
#[derive(Clone, Debug, PartialEq, Eq)]
pub struct Issue {
    pub dependency: String,
    pub kind: IssueKind,
    pub details: IssueDetails,
}

/// The mathematical value of an [`Issue`].
pub struct IssueSpec {
    pub dependency: Seq<char>,
    pub kind: IssueKind,
    pub details: IssueDetailsSpec,
}

impl View for Issue {
    type V = IssueSpec;

    open spec fn view(&self) -> IssueSpec {
        IssueSpec { dependency: self.dependency@, kind: self.kind, details: self.details@ }
    }
}

/// The sequence of models of a sequence of issues.
pub open spec fn issues_view(s: Seq<Issue>) -> Seq<IssueSpec> {
    Seq::new(s.len(), |i: int| s[i]@)
}

} // verus!
