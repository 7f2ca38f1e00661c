//! The aggregate usage-telemetry report.
//!
//! A report carries no lock-file content: only one integer count per
//! violation kind, a version string, a CI flag, and an opaque correlation
//! id. Reading the environment and transmitting the report are a caller's
//! business; this module only aggregates and derives.

use vstd::prelude::*;
use vstd::string::StringExecFns;

use sha2::Digest;

use crate::issue::{issues_view, Issue, IssueKind, IssueSpec};

verus! {

/// How many violations of `kind` the list holds.
pub open spec fn count_kind(issues: Seq<IssueSpec>, kind: IssueKind) -> int
    decreases issues.len(),
{
    if issues.len() == 0 {
        0
    } else {
        count_kind(issues.drop_last(), kind) + (if issues.last().kind == kind {
            1int
        } else {
            0int
        })
    }
}

/// A telemetry report to identify trends in outdated locks against nixpkgs.
#[derive(Debug)]
pub struct TelemetryReport {
    pub distinct_id: String,
    pub version: String,
    pub is_ci: bool,
    pub disallowed: usize,
    pub outdated: usize,
    pub non_upstream: usize,
}

impl TelemetryReport {
    /// Aggregates one count per violation kind. The identity fields — the
    /// correlation id, the crate version and the CI flag — are read from the
    /// environment by the caller and passed in as plain values.
    #[verifier::loop_isolation(false)]
    pub fn new(issues: &Vec<Issue>, distinct_id: String, version: String, is_ci: bool) -> (r:
        TelemetryReport)
        ensures
            r.distinct_id@ == distinct_id@,
            r.version@ == version@,
            r.is_ci == is_ci,
            r.disallowed as int == count_kind(issues_view(issues@), IssueKind::Disallowed),
            r.outdated as int == count_kind(issues_view(issues@), IssueKind::Outdated),
            r.non_upstream as int == count_kind(issues_view(issues@), IssueKind::NonUpstream),
    {
        let ghost iv = issues_view(issues@);
        let mut disallowed: usize = 0;
        let mut outdated: usize = 0;
        let mut non_upstream: usize = 0;
        let mut i: usize = 0;
        proof {
            assert(iv.subrange(0, 0) =~= Seq::<IssueSpec>::empty());
        }
        while i < issues.len()
            invariant
                i <= issues@.len(),
                disallowed as int == count_kind(iv.subrange(0, i as int), IssueKind::Disallowed),
                outdated as int == count_kind(iv.subrange(0, i as int), IssueKind::Outdated),
                non_upstream as int == count_kind(iv.subrange(0, i as int), IssueKind::NonUpstream),
                disallowed <= i && outdated <= i && non_upstream <= i,
            decreases issues@.len() - i,
        {
            proof {
                assert(iv.subrange(0, i + 1).drop_last() =~= iv.subrange(0, i as int));
                assert(iv.subrange(0, i + 1).last() == iv[i as int]);
            }
            match issues[i].kind {
                IssueKind::Disallowed => {
                    disallowed = disallowed + 1;
                },
                IssueKind::Outdated => {
                    outdated = outdated + 1;
                },
                IssueKind::NonUpstream => {
                    non_upstream = non_upstream + 1;
                },
            }
            i = i + 1;
        }
        proof {
            assert(iv.subrange(0, iv.len() as int) =~= iv);
        }
        TelemetryReport { distinct_id, version, is_ci, disallowed, outdated, non_upstream }
    }
}

/// What the SHA-256 digest of a text renders to as lowercase hexadecimal.
/// The digest is a function of the hashed bytes alone, so the same text
/// always yields the same id.
pub uninterp spec fn sha256_hex_of(s: Seq<char>) -> Seq<char>;

/// Relies on `sha2::Sha256` (via the `Digest` trait) and on lowercase-hex
/// formatting of the finalized digest: the result depends on the hashed
/// bytes alone, and the 32-byte digest renders as exactly 64 zero-padded
/// hex digits.
#[verifier::external_body]
fn sha256_hex(data: &str) -> (r: String)
    ensures
        r@ == sha256_hex_of(data@),
        r@.len() == 64,
{
    let mut hasher = sha2::Sha256::new();
    hasher.update(data.as_bytes());
    format!("{:x}", hasher.finalize())
}

/// Derives the opaque correlation id: the SHA-256 digest, in hex, of the
/// repository, repository id, owner and owner id concatenated in that
/// order. Hashing the concatenation feeds the hasher the same bytes as
/// hashing the four parts in sequence.
pub fn calculate_opaque_id(
    repository: &str,
    repository_id: &str,
    owner: &str,
    owner_id: &str,
) -> (r: String)
    ensures
        r@ == sha256_hex_of(repository@ + repository_id@ + owner@ + owner_id@),
        r@.len() == 64,
{
    let mut s = String::from_str(repository);
    s.append(repository_id);
    s.append(owner);
    s.append(owner_id);
    sha256_hex(s.as_str())
}

} // verus!
