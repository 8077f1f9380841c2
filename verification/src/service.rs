//! The role sync service: the two entry points that prepare a sync request
//! for a member, the administrative mapping-table operations, and the
//! classification of the remote server's outcome.
//!
//! The service computes everything up to and including the request body;
//! the caller performs the one outbound POST of the body to
//! `{base_url}/gsp/sync_roles` with the shared secret as `Authorization`
//! header, and hands the outcome back to [`complete_sync`].

use vstd::prelude::*;
use vstd::string::StrSliceExecFns;
use vstd::string::StringExecFns;

use crate::partition::{keep_of, local_ids, member_role_ids, partition_roles, remove_of};
use crate::store::{RoleStore, has_link, has_local_id, has_remote_id, linked_account_of};
use crate::types::{
    Member, RoleMapping, RoleMappingV, RoleSyncError, StoreError, SyncRequest, row_views, str_views,
};

verus! {

/// The service state: the configuration fixed at startup and the store.
#[derive(Debug)]
pub struct BotState {
    pub base_url: String,
    pub server_password: String,
    pub guild_id: u64,
    pub store: RoleStore,
}

/// A base URL with one trailing slash stripped.
pub open spec fn normalized_base_url(u: Seq<char>) -> Seq<char> {
    if u.len() > 0 && u.last() == '/' {
        u.drop_last()
    } else {
        u
    }
}

/// `2xx` is success.
pub open spec fn is_success_status(status: u16) -> bool {
    200 <= status < 300
}

/// What the caller observed of the one outbound POST.
#[derive(Debug)]
pub enum SyncOutcome {
    /// The call could not complete at the transport level; carries a
    /// description of the underlying cause.
    Transport(String),
    /// The server answered; carries the status and the response body text.
    Response(u16, String),
}

/// Maps the observed outcome of the outbound POST to the typed result of a
/// sync call: success on any `2xx` status, `RemoteRejection` with status
/// and body otherwise, `TransportFailure` when no response came.
pub fn complete_sync(outcome: SyncOutcome) -> (r: Result<(), RoleSyncError>)
    ensures
        (match outcome {
            SyncOutcome::Transport(m) => r == Err::<(), RoleSyncError>(
                RoleSyncError::TransportFailure(m),
            ),
            SyncOutcome::Response(status, body) => if is_success_status(status) {
                r == Ok::<(), RoleSyncError>(())
            } else {
                r == Err::<(), RoleSyncError>(RoleSyncError::RemoteRejection(status, body))
            },
        }),
{
    match outcome {
        SyncOutcome::Transport(m) => Err(RoleSyncError::TransportFailure(m)),
        SyncOutcome::Response(status, body) => {
            if 200 <= status && status < 300 {
                Ok(())
            } else {
                Err(RoleSyncError::RemoteRejection(status, body))
            }
        },
    }
}

/// The local identifiers of all given rows, in order.
fn collect_local_ids(rows: &Vec<RoleMapping>) -> (r: Vec<String>)
    ensures
        str_views(r@) == local_ids(row_views(rows@)),
{
    let mut out: Vec<String> = Vec::new();
    let n = rows.len();
    let mut i: usize = 0;
    while i < n
        invariant
            n == rows@.len(),
            i <= n,
            str_views(out@) == local_ids(row_views(rows@)).take(i as int),
        decreases n - i,
    {
        let id = rows[i].local_id.clone();
        let ghost prev = out@;
        out.push(id);
        proof {
            assert(str_views(out@) =~= str_views(prev).push(rows@[i as int].local_id@));
            assert(str_views(out@) =~= local_ids(row_views(rows@)).take(i as int + 1));
        }
        i = i + 1;
    }
    proof {
        assert(local_ids(row_views(rows@)).take(n as int) =~= local_ids(row_views(rows@)));
    }
    out
}

impl BotState {
    /// A fresh service over an empty store; strips one trailing slash from
    /// the base URL.
    pub fn new(base_url: String, server_password: String, guild_id: u64) -> (r: BotState)
        ensures
            r.base_url@ == normalized_base_url(base_url@),
            r.server_password@ == server_password@,
            r.guild_id == guild_id,
            r.store.wf(),
            r.store.mappings@.len() == 0,
            r.store.links@.len() == 0,
    {
        let n = base_url.as_str().unicode_len();
        let stripped: String = if n > 0 && base_url.as_str().get_char(n - 1) == '/' {
            let t = base_url.as_str().substring_char(0, n - 1);
            proof {
                assert(t@ =~= base_url@.drop_last());
            }
            String::from_str(t)
        } else {
            base_url
        };
        BotState { base_url: stripped, server_password, guild_id, store: RoleStore::new() }
    }

    /// The endpoint the prepared request body is POSTed to.
    pub fn sync_url(&self) -> (r: String)
        ensures
            r@ == self.base_url@ + "/gsp/sync_roles"@,
    {
        let mut u = self.base_url.clone();
        u.append("/gsp/sync_roles");
        u
    }

    /// Prepares the sync request for a member: fails with `NotLinked` when
    /// the member has no linked account, and otherwise partitions the
    /// mapping table against the member's current role set. Mutates
    /// nothing.
    pub fn sync_roles(&self, member: &Member) -> (r: Result<SyncRequest, RoleSyncError>)
        requires
            self.store.wf(),
        ensures
            (if has_link(self.store.links@, member.id as i64) {
                {
                    &&& r matches Ok(req)
                    &&& req.account_id == linked_account_of(
                        self.store.links@,
                        member.id as i64,
                    ) as i32
                    &&& str_views(req.keep@) == keep_of(
                        row_views(self.store.mappings@),
                        member_role_ids(member.roles@),
                    )
                    &&& str_views(req.remove@) == remove_of(
                        row_views(self.store.mappings@),
                        member_role_ids(member.roles@),
                    )
                }
            } else {
                r matches Err(RoleSyncError::NotLinked)
            }),
    {
        let member_id = member.id as i64;
        let linked = match self.store.lookup_link(member_id) {
            Ok(l) => l,
            Err(e) => {
                return Err(RoleSyncError::from(e));
            },
        };
        let db_roles = match self.get_all_roles() {
            Ok(v) => v,
            Err(e) => {
                return Err(RoleSyncError::from(e));
            },
        };
        let (kept, removed) = partition_roles(&db_roles, &member.roles);
        Ok(SyncRequest { account_id: linked.remote_account_id as i32, keep: kept, remove: removed })
    }

    /// Unlinks a member: fails with `NotLinked` when no link exists, and
    /// otherwise deletes the link row and prepares the request that revokes
    /// every mapped role. The local deletion is committed by this call,
    /// before the caller attempts the remote notification, so a remote
    /// failure leaves the member unlinked locally.
    pub fn handle_unlink(&mut self, member: &Member) -> (r: Result<SyncRequest, RoleSyncError>)
        requires
            old(self).store.wf(),
        ensures
            final(self).store.wf(),
            (if has_link(old(self).store.links@, member.id as i64) {
                {
                    &&& r matches Ok(req)
                    &&& req.account_id == linked_account_of(
                        old(self).store.links@,
                        member.id as i64,
                    ) as i32
                    &&& req.keep@.len() == 0
                    &&& str_views(req.remove@) == local_ids(row_views(old(self).store.mappings@))
                    &&& final(self).store.links@ == old(self).store.links@.filter(
                        |l: crate::types::LinkedAccount| l.community_member_id != member.id as i64,
                    )
                    &&& !has_link(final(self).store.links@, member.id as i64)
                    &&& final(self).store.mappings@ == old(self).store.mappings@
                    &&& final(self).base_url == old(self).base_url
                    &&& final(self).server_password == old(self).server_password
                    &&& final(self).guild_id == old(self).guild_id
                }
            } else {
                r matches Err(RoleSyncError::NotLinked) && *final(self) == *old(self)
            }),
    {
        let member_id = member.id as i64;
        let linked = match self.store.lookup_link(member_id) {
            Ok(l) => l,
            Err(e) => {
                return Err(RoleSyncError::from(e));
            },
        };
        let db_roles = match self.get_all_roles() {
            Ok(v) => v,
            Err(e) => {
                return Err(RoleSyncError::from(e));
            },
        };
        self.store.delete_link(member_id);
        let removed = collect_local_ids(&db_roles);
        Ok(SyncRequest {
            account_id: linked.remote_account_id as i32,
            keep: Vec::new(),
            remove: removed,
        })
    }

    /// Inserts a mapping row; fails with `UniqueViolation` iff either
    /// identifier is already mapped, leaving the table unchanged.
    pub fn add_role(&mut self, role_id: i64, local_role_id: &str) -> (r: Result<(), StoreError>)
        requires
            old(self).store.wf(),
        ensures
            final(self).store.wf(),
            final(self).store.links@ == old(self).store.links@,
            final(self).base_url == old(self).base_url,
            final(self).server_password == old(self).server_password,
            final(self).guild_id == old(self).guild_id,
            (if has_remote_id(row_views(old(self).store.mappings@), role_id) || has_local_id(
                row_views(old(self).store.mappings@),
                local_role_id@,
            ) {
                &&& r matches Err(StoreError::UniqueViolation)
                &&& final(self).store.mappings@ == old(self).store.mappings@
            } else {
                &&& r matches Ok(())
                &&& row_views(final(self).store.mappings@) == row_views(
                    old(self).store.mappings@,
                ).push((RoleMappingV { local_id: local_role_id@, remote_id: role_id }))
            }),
    {
        let row = RoleMapping { local_id: String::from_str(local_role_id), remote_id: role_id };
        self.store.insert_mapping(row)
    }

    /// Deletes the mapping row of the given remote role identifier;
    /// succeeds as a no-op when none exists.
    pub fn remove_role(&mut self, role_id: i64) -> (r: Result<(), StoreError>)
        requires
            old(self).store.wf(),
        ensures
            final(self).store.wf(),
            final(self).store.links@ == old(self).store.links@,
            final(self).base_url == old(self).base_url,
            final(self).server_password == old(self).server_password,
            final(self).guild_id == old(self).guild_id,
            r matches Ok(()),
            row_views(final(self).store.mappings@) == row_views(old(self).store.mappings@).filter(
                |m: RoleMappingV| m.remote_id != role_id,
            ),
    {
        self.store.delete_mapping_by_remote(role_id);
        Ok(())
    }

    /// Deletes the mapping row of the given local role identifier;
    /// succeeds as a no-op when none exists.
    pub fn remove_role_by_local_id(&mut self, role: &str) -> (r: Result<(), StoreError>)
        requires
            old(self).store.wf(),
        ensures
            final(self).store.wf(),
            final(self).store.links@ == old(self).store.links@,
            final(self).base_url == old(self).base_url,
            final(self).server_password == old(self).server_password,
            final(self).guild_id == old(self).guild_id,
            r matches Ok(()),
            row_views(final(self).store.mappings@) == row_views(old(self).store.mappings@).filter(
                |m: RoleMappingV| m.local_id != role@,
            ),
    {
        self.store.delete_mapping_by_local(role);
        Ok(())
    }

    /// All mapping rows, in table order.
    pub fn get_all_roles(&self) -> (r: Result<Vec<RoleMapping>, StoreError>)
        ensures
            r matches Ok(v) && row_views(v@) == row_views(self.store.mappings@),
    {
        Ok(self.store.all_mappings())
    }

    /// Records a link for a member, as the external linking flow does;
    /// fails with `UniqueViolation` iff the member already has one.
    pub fn link_account(&mut self, member_id: i64, remote_account_id: i64) -> (r: Result<
        (),
        StoreError,
    >)
        requires
            old(self).store.wf(),
        ensures
            final(self).store.wf(),
            final(self).store.mappings@ == old(self).store.mappings@,
            final(self).base_url == old(self).base_url,
            final(self).server_password == old(self).server_password,
            final(self).guild_id == old(self).guild_id,
            (if has_link(old(self).store.links@, member_id) {
                &&& r matches Err(StoreError::UniqueViolation)
                &&& final(self).store.links@ == old(self).store.links@
            } else {
                &&& r matches Ok(())
                &&& final(self).store.links@ == old(self).store.links@.push(
                    (crate::types::LinkedAccount { community_member_id: member_id, remote_account_id }),
                )
            }),
    {
        self.store.insert_link(
            crate::types::LinkedAccount { community_member_id: member_id, remote_account_id },
        )
    }
}

} // verus!
