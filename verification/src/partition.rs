//! The partition of the role mapping table against a member's current role
//! set: a mapping row whose remote role identifier the member holds goes to
//! `keep`, every other row goes to `remove`.

use vstd::prelude::*;

use crate::store::{lemma_filter_contained, lemma_filter_take_step, mappings_wf};
use crate::types::{RoleMapping, RoleMappingV, row_views, str_views};

verus! {

/// The member's platform role identifiers, widened as the table stores them.
pub open spec fn member_role_ids(roles: Seq<u64>) -> Seq<i64> {
    roles.map_values(|u: u64| u as i64)
}

/// Holds of a mapping row whose remote role the member currently has.
pub open spec fn keeps(roles: Seq<i64>) -> spec_fn(RoleMappingV) -> bool {
    |m: RoleMappingV| roles.contains(m.remote_id)
}

/// Holds of a mapping row whose remote role the member does not have.
pub open spec fn removes(roles: Seq<i64>) -> spec_fn(RoleMappingV) -> bool {
    |m: RoleMappingV| !roles.contains(m.remote_id)
}

/// The local identifier of a mapping row.
pub open spec fn local_of() -> spec_fn(RoleMappingV) -> Seq<char> {
    |m: RoleMappingV| m.local_id
}

/// The local identifiers of all mapping rows, in table order.
pub open spec fn local_ids(rows: Seq<RoleMappingV>) -> Seq<Seq<char>> {
    rows.map_values(local_of())
}

/// The local identifiers the member retains, in table order.
pub open spec fn keep_of(rows: Seq<RoleMappingV>, roles: Seq<i64>) -> Seq<Seq<char>> {
    rows.filter(keeps(roles)).map_values(local_of())
}

/// The local identifiers revoked from the member, in table order.
pub open spec fn remove_of(rows: Seq<RoleMappingV>, roles: Seq<i64>) -> Seq<Seq<char>> {
    rows.filter(removes(roles)).map_values(local_of())
}

/// Whether the member holds the platform role mapped to `remote_id`.
pub fn member_holds_role(member_roles: &Vec<u64>, remote_id: i64) -> (r: bool)
    ensures
        r == member_role_ids(member_roles@).contains(remote_id),
{
    let n = member_roles.len();
    let mut i: usize = 0;
    while i < n
        invariant
            n == member_roles@.len(),
            i <= n,
            forall|k: int| 0 <= k < i ==> #[trigger] member_role_ids(member_roles@)[k] != remote_id,
        decreases n - i,
    {
        if member_roles[i] as i64 == remote_id {
            proof {
                assert(member_role_ids(member_roles@)[i as int] == remote_id);
            }
            return true;
        }
        proof {
            assert(member_role_ids(member_roles@)[i as int] == member_roles@[i as int] as i64);
        }
        i = i + 1;
    }
    proof {
        if member_role_ids(member_roles@).contains(remote_id) {
            let k = choose|k: int|
                0 <= k < member_role_ids(member_roles@).len() && member_role_ids(member_roles@)[k]
                    == remote_id;
            assert(member_role_ids(member_roles@)[k] != remote_id);
        }
    }
    false
}

/// Splits the mapping table into the local identifiers to keep and the
/// local identifiers to remove, both in table order.
pub fn partition_roles(mappings: &Vec<RoleMapping>, member_roles: &Vec<u64>) -> (r: (
    Vec<String>,
    Vec<String>,
))
    ensures
        str_views(r.0@) == keep_of(row_views(mappings@), member_role_ids(member_roles@)),
        str_views(r.1@) == remove_of(row_views(mappings@), member_role_ids(member_roles@)),
{
    let ghost rows = row_views(mappings@);
    let ghost roles = member_role_ids(member_roles@);
    let mut kept: Vec<String> = Vec::new();
    let mut removed: Vec<String> = Vec::new();
    let n = mappings.len();
    let mut i: usize = 0;
    while i < n
        invariant
            rows == row_views(mappings@),
            roles == member_role_ids(member_roles@),
            n == mappings@.len(),
            i <= n,
            str_views(kept@) == keep_of(rows.take(i as int), roles),
            str_views(removed@) == remove_of(rows.take(i as int), roles),
        decreases n - i,
    {
        proof {
            lemma_filter_take_step(rows, keeps(roles), i as int);
            lemma_filter_take_step(rows, removes(roles), i as int);
        }
        if member_holds_role(member_roles, mappings[i].remote_id) {
            let id = mappings[i].local_id.clone();
            let ghost prev = kept@;
            kept.push(id);
            proof {
                assert(str_views(kept@) =~= str_views(prev).push(rows[i as int].local_id));
                assert(keep_of(rows.take(i as int + 1), roles) =~= keep_of(
                    rows.take(i as int),
                    roles,
                ).push(rows[i as int].local_id));
                assert(remove_of(rows.take(i as int + 1), roles) =~= remove_of(
                    rows.take(i as int),
                    roles,
                ));
            }
        } else {
            let id = mappings[i].local_id.clone();
            let ghost prev = removed@;
            removed.push(id);
            proof {
                assert(str_views(removed@) =~= str_views(prev).push(rows[i as int].local_id));
                assert(remove_of(rows.take(i as int + 1), roles) =~= remove_of(
                    rows.take(i as int),
                    roles,
                ).push(rows[i as int].local_id));
                assert(keep_of(rows.take(i as int + 1), roles) =~= keep_of(
                    rows.take(i as int),
                    roles,
                ));
            }
        }
        i = i + 1;
    }
    proof {
        assert(rows.take(n as int) =~= rows);
    }
    (kept, removed)
}

/// A local identifier stands in `keep` exactly when some mapping row binds
/// it to a remote role the member holds.
pub proof fn lemma_keep_member(rows: Seq<RoleMappingV>, roles: Seq<i64>, x: Seq<char>)
    ensures
        keep_of(rows, roles).contains(x) <==> exists|i: int|
            0 <= i < rows.len() && (#[trigger] rows[i]).local_id == x && roles.contains(
                rows[i].remote_id,
            ),
{
    let fil = rows.filter(keeps(roles));
    if keep_of(rows, roles).contains(x) {
        let k = choose|k: int| 0 <= k < fil.len() && keep_of(rows, roles)[k] == x;
        assert(fil[k].local_id == x);
        Seq::lemma_filter_pred(rows, keeps(roles), k);
        lemma_filter_contained(rows, keeps(roles));
        assert(fil.contains(fil[k]));
        let m = choose|m: int| 0 <= m < rows.len() && rows[m] == fil[k];
        assert(rows[m].local_id == x && roles.contains(rows[m].remote_id));
    }
    if exists|i: int|
        0 <= i < rows.len() && (#[trigger] rows[i]).local_id == x && roles.contains(
            rows[i].remote_id,
        ) {
        let i = choose|i: int|
            0 <= i < rows.len() && (#[trigger] rows[i]).local_id == x && roles.contains(
                rows[i].remote_id,
            );
        Seq::lemma_filter_contains(rows, keeps(roles), i);
        let k = choose|k: int| 0 <= k < fil.len() && fil[k] == rows[i];
        assert(keep_of(rows, roles)[k] == x);
        assert(keep_of(rows, roles).contains(x));
    }
}

/// A local identifier stands in `remove` exactly when some mapping row
/// binds it to a remote role the member does not hold.
pub proof fn lemma_remove_member(rows: Seq<RoleMappingV>, roles: Seq<i64>, x: Seq<char>)
    ensures
        remove_of(rows, roles).contains(x) <==> exists|i: int|
            0 <= i < rows.len() && (#[trigger] rows[i]).local_id == x && !roles.contains(
                rows[i].remote_id,
            ),
{
    let fil = rows.filter(removes(roles));
    if remove_of(rows, roles).contains(x) {
        let k = choose|k: int| 0 <= k < fil.len() && remove_of(rows, roles)[k] == x;
        assert(fil[k].local_id == x);
        Seq::lemma_filter_pred(rows, removes(roles), k);
        lemma_filter_contained(rows, removes(roles));
        assert(fil.contains(fil[k]));
        let m = choose|m: int| 0 <= m < rows.len() && rows[m] == fil[k];
        assert(rows[m].local_id == x && !roles.contains(rows[m].remote_id));
    }
    if exists|i: int|
        0 <= i < rows.len() && (#[trigger] rows[i]).local_id == x && !roles.contains(
            rows[i].remote_id,
        ) {
        let i = choose|i: int|
            0 <= i < rows.len() && (#[trigger] rows[i]).local_id == x && !roles.contains(
                rows[i].remote_id,
            );
        Seq::lemma_filter_contains(rows, removes(roles), i);
        let k = choose|k: int| 0 <= k < fil.len() && fil[k] == rows[i];
        assert(remove_of(rows, roles)[k] == x);
        assert(remove_of(rows, roles).contains(x));
    }
}

/// Partition correctness: a mapping row's local identifier stands in
/// `keep` exactly when the member holds its remote role, and in `remove`
/// exactly when it does not.
pub proof fn lemma_partition_correctness(rows: Seq<RoleMappingV>, roles: Seq<i64>, i: int)
    requires
        mappings_wf(rows),
        0 <= i < rows.len(),
    ensures
        keep_of(rows, roles).contains(rows[i].local_id) <==> roles.contains(rows[i].remote_id),
        remove_of(rows, roles).contains(rows[i].local_id) <==> !roles.contains(rows[i].remote_id),
{
    lemma_keep_member(rows, roles, rows[i].local_id);
    lemma_remove_member(rows, roles, rows[i].local_id);
    if keep_of(rows, roles).contains(rows[i].local_id) {
        let j = choose|j: int|
            0 <= j < rows.len() && (#[trigger] rows[j]).local_id == rows[i].local_id
                && roles.contains(rows[j].remote_id);
        if i != j {
            assert(rows[i].local_id != rows[j].local_id);
        }
    }
    if remove_of(rows, roles).contains(rows[i].local_id) {
        let j = choose|j: int|
            0 <= j < rows.len() && (#[trigger] rows[j]).local_id == rows[i].local_id
                && !roles.contains(rows[j].remote_id);
        if i != j {
            assert(rows[i].local_id != rows[j].local_id);
        }
    }
}

/// Partition totality: `keep` and `remove` together are exactly the local
/// identifiers of the mapping table, and they share none.
pub proof fn lemma_partition_totality(rows: Seq<RoleMappingV>, roles: Seq<i64>)
    requires
        mappings_wf(rows),
    ensures
        keep_of(rows, roles).to_set().union(remove_of(rows, roles).to_set()) == local_ids(
            rows,
        ).to_set(),
        keep_of(rows, roles).to_set().disjoint(remove_of(rows, roles).to_set()),
{
    let keep = keep_of(rows, roles);
    let remove = remove_of(rows, roles);
    assert forall|x: Seq<char>| #[trigger] keep.to_set().union(remove.to_set()).contains(x)
        implies local_ids(rows).to_set().contains(x) by {
        lemma_keep_member(rows, roles, x);
        lemma_remove_member(rows, roles, x);
        let i = choose|i: int| 0 <= i < rows.len() && (#[trigger] rows[i]).local_id == x;
        assert(local_ids(rows)[i] == x);
        assert(local_ids(rows).contains(x));
    }
    assert forall|x: Seq<char>| #[trigger] local_ids(rows).to_set().contains(x) implies keep.to_set().union(
        remove.to_set(),
    ).contains(x) by {
        let k = choose|k: int| 0 <= k < local_ids(rows).len() && local_ids(rows)[k] == x;
        assert(rows[k].local_id == x);
        lemma_keep_member(rows, roles, x);
        lemma_remove_member(rows, roles, x);
    }
    assert(keep.to_set().union(remove.to_set()) =~= local_ids(rows).to_set());
    assert forall|x: Seq<char>| !(keep.to_set().contains(x) && remove.to_set().contains(x)) by {
        if keep.contains(x) && remove.contains(x) {
            lemma_keep_member(rows, roles, x);
            lemma_remove_member(rows, roles, x);
            let i = choose|i: int|
                0 <= i < rows.len() && (#[trigger] rows[i]).local_id == x && roles.contains(
                    rows[i].remote_id,
                );
            let j = choose|j: int|
                0 <= j < rows.len() && (#[trigger] rows[j]).local_id == x && !roles.contains(
                    rows[j].remote_id,
                );
            if i != j {
                assert(rows[i].local_id != rows[j].local_id);
            }
        }
    }
}

} // verus!
