//! Key management, key escrow, identities and the audit ledger.

pub mod audit;
pub mod escrow;
pub mod identity;
pub mod kms;

pub use audit::AuditLogger;
pub use escrow::KeyEscrow;
pub use identity::IdentityManager;
pub use kms::KmsClient;
