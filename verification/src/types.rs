//! Data model of the role-synchronization core: mapping rows, linked
//! accounts, the member value handed in by the caller, the transient sync
//! request, and the error taxonomy.

use vstd::prelude::*;
use vstd::string::StringExecFns;

verus! {

/// A row of the role mapping table: one local (string) role identifier
/// bound to one remote (numeric) role identifier.
#[derive(Debug)]
pub struct RoleMapping {
    pub local_id: String,
    pub remote_id: i64,
}

/// Mathematical image of a `RoleMapping` row.
pub ghost struct RoleMappingV {
    pub local_id: Seq<char>,
    pub remote_id: i64,
}

impl View for RoleMapping {
    type V = RoleMappingV;

    open spec fn view(&self) -> RoleMappingV {
        RoleMappingV { local_id: self.local_id@, remote_id: self.remote_id }
    }
}

impl Clone for RoleMapping {
    fn clone(&self) -> (r: Self)
        ensures
            r@ == self@,
    {
        RoleMapping { local_id: self.local_id.clone(), remote_id: self.remote_id }
    }
}

/// The views of a sequence of mapping rows.
pub open spec fn row_views(rows: Seq<RoleMapping>) -> Seq<RoleMappingV> {
    rows.map_values(|m: RoleMapping| m@)
}

/// The views of a sequence of strings.
pub open spec fn str_views(ss: Seq<String>) -> Seq<Seq<char>> {
    ss.map_values(|s: String| s@)
}

/// The link between a chat-platform member and a remote game account.
#[derive(Debug, Clone, Copy, PartialEq, Eq, Structural)]
pub struct LinkedAccount {
    pub community_member_id: i64,
    pub remote_account_id: i64,
}

/// What this core reads of a community member: its numeric identifier and
/// the set of platform role identifiers it currently holds.
#[derive(Debug)]
pub struct Member {
    pub id: u64,
    pub roles: Vec<u64>,
}

/// The transient request pushed to the remote server: the roles to retain
/// and the roles to revoke for one remote account.
#[derive(Debug)]
pub struct SyncRequest {
    pub account_id: i32,
    pub keep: Vec<String>,
    pub remove: Vec<String>,
}

/// An error of the local relational store.
#[derive(Debug)]
pub enum StoreError {
    /// A lookup found no row.
    NotFound,
    /// An insert violated a uniqueness constraint.
    UniqueViolation,
}

/// The closed error taxonomy of the two sync entry points.
#[derive(Debug)]
pub enum RoleSyncError {
    /// The member has no linked remote account.
    NotLinked,
    /// The store failed for a reason other than "no row found".
    StoreFailure(StoreError),
    /// The outbound call could not complete at the transport level.
    TransportFailure(String),
    /// The remote server answered with a non-2xx status; carries the
    /// status and the response body text.
    RemoteRejection(u16, String),
    /// An invariant the implementation asserts can never occur in practice.
    InternalError,
}

impl From<StoreError> for RoleSyncError {
    /// "No row found" collapses to `NotLinked`; every other store error is
    /// surfaced as `StoreFailure`.
    fn from(value: StoreError) -> (r: Self) {
        match value {
            StoreError::NotFound => Self::NotLinked,
            v => Self::StoreFailure(v),
        }
    }
}

impl vstd::std_specs::convert::FromSpecImpl<StoreError> for RoleSyncError {
    open spec fn obeys_from_spec() -> bool {
        true
    }

    open spec fn from_spec(value: StoreError) -> Self {
        match value {
            StoreError::NotFound => Self::NotLinked,
            v => Self::StoreFailure(v),
        }
    }
}

/// The decimal digit character of `d`.
pub open spec fn digit_char(d: nat) -> char {
    if d == 0 {
        '0'
    } else if d == 1 {
        '1'
    } else if d == 2 {
        '2'
    } else if d == 3 {
        '3'
    } else if d == 4 {
        '4'
    } else if d == 5 {
        '5'
    } else if d == 6 {
        '6'
    } else if d == 7 {
        '7'
    } else if d == 8 {
        '8'
    } else {
        '9'
    }
}

/// The decimal digits of a natural number, as text.
pub open spec fn dec_chars(n: nat) -> Seq<char>
    decreases n,
{
    if n < 10 {
        seq![digit_char(n)]
    } else {
        dec_chars(n / 10).push(digit_char(n % 10))
    }
}

/// Appends the decimal digits of `n`.
fn push_dec_chars(s: &mut String, n: u16)
    ensures
        final(s)@ == old(s)@ + dec_chars(n as nat),
    decreases n,
{
    if n >= 10 {
        push_dec_chars(s, n / 10);
    }
    let d = n % 10;
    if d == 0 {
        s.append("0");
    } else if d == 1 {
        s.append("1");
    } else if d == 2 {
        s.append("2");
    } else if d == 3 {
        s.append("3");
    } else if d == 4 {
        s.append("4");
    } else if d == 5 {
        s.append("5");
    } else if d == 6 {
        s.append("6");
    } else if d == 7 {
        s.append("7");
    } else if d == 8 {
        s.append("8");
    } else {
        s.append("9");
    }
    proof {
        reveal_strlit("0");
        reveal_strlit("1");
        reveal_strlit("2");
        reveal_strlit("3");
        reveal_strlit("4");
        reveal_strlit("5");
        reveal_strlit("6");
        reveal_strlit("7");
        reveal_strlit("8");
        reveal_strlit("9");
        assert(s@ =~= old(s)@ + dec_chars(n as nat));
    }
}

impl StoreError {
    /// The diagnostic text of this store error.
    pub open spec fn message_spec(&self) -> Seq<char> {
        match self {
            StoreError::NotFound => "row not found"@,
            StoreError::UniqueViolation => "unique constraint violation"@,
        }
    }

    /// The diagnostic text of this store error.
    pub fn message_str(&self) -> (r: &str)
        ensures
            r@ == self.message_spec(),
    {
        match self {
            StoreError::NotFound => "row not found",
            StoreError::UniqueViolation => "unique constraint violation",
        }
    }
}

impl RoleSyncError {
    /// The user-facing description of this error.
    pub open spec fn message_spec(&self) -> Seq<char> {
        match self {
            RoleSyncError::NotLinked => "User not linked"@,
            RoleSyncError::StoreFailure(e) => "Database error: "@ + e.message_spec(),
            RoleSyncError::TransportFailure(m) => "Error making a request to the server: "@ + m@,
            RoleSyncError::InternalError => "Internal error"@,
            RoleSyncError::RemoteRejection(code, m) => "Server returned error (code "@ + dec_chars(
                *code as nat,
            ) + "): "@ + m@,
        }
    }

    /// The user-facing description of this error.
    pub fn message(&self) -> (r: String)
        ensures
            r@ == self.message_spec(),
    {
        match self {
            RoleSyncError::NotLinked => String::from_str("User not linked"),
            RoleSyncError::StoreFailure(e) => {
                let mut s = String::from_str("Database error: ");
                s.append(e.message_str());
                s
            },
            RoleSyncError::TransportFailure(m) => {
                let mut s = String::from_str("Error making a request to the server: ");
                s.append(m.as_str());
                s
            },
            RoleSyncError::InternalError => String::from_str("Internal error"),
            RoleSyncError::RemoteRejection(code, m) => {
                let mut s = String::from_str("Server returned error (code ");
                push_dec_chars(&mut s, *code);
                s.append("): ");
                s.append(m.as_str());
                proof {
                    assert(s@ =~= self.message_spec());
                }
                s
            },
        }
    }
}

} // verus!
