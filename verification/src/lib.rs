//! Role-synchronization bridge core: a verified mapping table between local
//! role identifiers and remote role identifiers, the partition of the table
//! against a member's current role set, the wire encoding of the resulting
//! sync request, and the classification of the remote server's outcome.

pub mod partition;
pub mod service;
pub mod store;
pub mod types;
pub mod wire;

pub use service::{BotState, SyncOutcome, complete_sync};
pub use partition::{member_holds_role, partition_roles};
pub use store::{RoleStore, has_link, has_local_id, has_remote_id, linked_account_of};
pub use wire::encode_sync_request;
pub use types::{LinkedAccount, Member, RoleMapping, RoleSyncError, StoreError, SyncRequest};
