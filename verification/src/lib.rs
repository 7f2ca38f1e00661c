//! Checks a flake lock file against a small set of supply-chain policies:
//! whether the pinned branch of the tracked dependency is on an approved
//! list, whether the pin is stale, and whether the repository owner matches
//! the expected upstream identity.

pub mod error;
pub mod flake;
pub mod issue;
pub mod json;
pub mod telemetry;

pub use error::FlakeCheckerError;
pub use flake::check_flake_lock;
pub use flake::check_flake_lock_at;
pub use flake::FlakeCheckConfig;
pub use flake::FlakeLock;
pub use issue::Issue;
pub use issue::IssueDetails;
pub use issue::IssueKind;

