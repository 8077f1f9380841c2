//! The local relational store, modelled as two in-memory tables with the
//! uniqueness constraints of the schema: the mapping table is unique on
//! both of its identifier columns, the link table on the member identifier.

use vstd::prelude::*;

use crate::types::{LinkedAccount, RoleMapping, RoleMappingV, StoreError, row_views};

verus! {

/// The two tables owned by the role sync service.
#[derive(Debug)]
pub struct RoleStore {
    pub mappings: Vec<RoleMapping>,
    pub links: Vec<LinkedAccount>,
}

/// Both identifier columns of the mapping table are unique.
pub open spec fn mappings_wf(rows: Seq<RoleMappingV>) -> bool {
    forall|i: int, j: int|
        0 <= i < j < rows.len() ==> (#[trigger] rows[i]).local_id != (#[trigger] rows[j]).local_id
            && rows[i].remote_id != rows[j].remote_id
}

/// The member identifier column of the link table is unique.
pub open spec fn links_wf(links: Seq<LinkedAccount>) -> bool {
    forall|i: int, j: int|
        0 <= i < j < links.len() ==> (#[trigger] links[i]).community_member_id != (
        #[trigger] links[j]).community_member_id
}

/// Whether some mapping row carries the given remote role identifier.
pub open spec fn has_remote_id(rows: Seq<RoleMappingV>, remote_id: i64) -> bool {
    exists|i: int| 0 <= i < rows.len() && (#[trigger] rows[i]).remote_id == remote_id
}

/// Whether some mapping row carries the given local role identifier.
pub open spec fn has_local_id(rows: Seq<RoleMappingV>, local_id: Seq<char>) -> bool {
    exists|i: int| 0 <= i < rows.len() && (#[trigger] rows[i]).local_id == local_id
}

/// Whether the link table holds a row for the given member.
pub open spec fn has_link(links: Seq<LinkedAccount>, member_id: i64) -> bool {
    exists|i: int| 0 <= i < links.len() && (#[trigger] links[i]).community_member_id == member_id
}

/// The remote account linked to the given member, read off the row that
/// carries its identifier.
pub open spec fn linked_account_of(links: Seq<LinkedAccount>, member_id: i64) -> i64 {
    links[choose|i: int|
        0 <= i < links.len() && (#[trigger] links[i]).community_member_id
            == member_id].remote_account_id
}

/// Every element of a filtered sequence is an element of the sequence it
/// was filtered from.
pub proof fn lemma_filter_contained<A>(s: Seq<A>, p: spec_fn(A) -> bool)
    ensures
        forall|x: A| #[trigger] s.filter(p).contains(x) ==> s.contains(x),
    decreases s.len(),
{
    reveal(Seq::filter);
    if s.len() > 0 {
        let prefix = s.drop_last();
        lemma_filter_contained(prefix, p);
        assert forall|x: A| #[trigger] s.filter(p).contains(x) implies s.contains(x) by {
            let out = s.filter(p);
            let k = choose|k: int| 0 <= k < out.len() && out[k] == x;
            let sub = prefix.filter(p);
            if p(s.last()) {
                if k < sub.len() {
                    assert(sub[k] == x);
                    assert(sub.contains(x));
                    let m = choose|m: int| 0 <= m < prefix.len() && prefix[m] == x;
                    assert(s[m] == x);
                } else {
                    assert(x == s.last());
                    assert(s[s.len() - 1] == x);
                }
            } else {
                assert(sub[k] == x);
                assert(sub.contains(x));
                let m = choose|m: int| 0 <= m < prefix.len() && prefix[m] == x;
                assert(s[m] == x);
            }
        }
    }
}

/// One step of a filter over a growing prefix.
pub proof fn lemma_filter_take_step<A>(s: Seq<A>, p: spec_fn(A) -> bool, i: int)
    requires
        0 <= i < s.len(),
    ensures
        s.take(i + 1).filter(p) == (if p(s[i]) {
            s.take(i).filter(p).push(s[i])
        } else {
            s.take(i).filter(p)
        }),
{
    reveal(Seq::filter);
    assert(s.take(i + 1).drop_last() =~= s.take(i));
    assert(s.take(i + 1).last() == s[i]);
}

/// Filtering the mapping table keeps its uniqueness constraints.
pub proof fn lemma_mappings_wf_filter(rows: Seq<RoleMappingV>, p: spec_fn(RoleMappingV) -> bool)
    requires
        mappings_wf(rows),
    ensures
        mappings_wf(rows.filter(p)),
    decreases rows.len(),
{
    reveal(Seq::filter);
    if rows.len() > 0 {
        let prefix = rows.drop_last();
        assert forall|i: int, j: int| 0 <= i < j < prefix.len() implies (
        #[trigger] prefix[i]).local_id != (#[trigger] prefix[j]).local_id && prefix[i].remote_id
            != prefix[j].remote_id by {
            assert(rows[i] == prefix[i]);
            assert(rows[j] == prefix[j]);
        }
        lemma_mappings_wf_filter(prefix, p);
        lemma_filter_contained(prefix, p);
        let sub = prefix.filter(p);
        if p(rows.last()) {
            let out = sub.push(rows.last());
            assert(rows.filter(p) == out);
            assert forall|i: int, j: int| 0 <= i < j < out.len() implies (
            #[trigger] out[i]).local_id != (#[trigger] out[j]).local_id && out[i].remote_id
                != out[j].remote_id by {
                if j < sub.len() {
                    assert(out[i] == sub[i]);
                    assert(out[j] == sub[j]);
                } else {
                    assert(out[j] == rows.last());
                    assert(out[i] == sub[i]);
                    assert(sub.contains(sub[i]));
                    assert(prefix.contains(sub[i]));
                    let m = choose|m: int| 0 <= m < prefix.len() && prefix[m] == sub[i];
                    assert(rows[m] == sub[i]);
                    assert(rows[m].local_id != rows[rows.len() - 1].local_id);
                }
            }
        }
    }
}

/// Filtering the link table keeps its uniqueness constraint.
pub proof fn lemma_links_wf_filter(links: Seq<LinkedAccount>, p: spec_fn(LinkedAccount) -> bool)
    requires
        links_wf(links),
    ensures
        links_wf(links.filter(p)),
    decreases links.len(),
{
    reveal(Seq::filter);
    if links.len() > 0 {
        let prefix = links.drop_last();
        assert forall|i: int, j: int| 0 <= i < j < prefix.len() implies (
        #[trigger] prefix[i]).community_member_id != (#[trigger] prefix[j]).community_member_id by {
            assert(links[i] == prefix[i]);
            assert(links[j] == prefix[j]);
        }
        lemma_links_wf_filter(prefix, p);
        lemma_filter_contained(prefix, p);
        let sub = prefix.filter(p);
        if p(links.last()) {
            let out = sub.push(links.last());
            assert(links.filter(p) == out);
            assert forall|i: int, j: int| 0 <= i < j < out.len() implies (
            #[trigger] out[i]).community_member_id != (#[trigger] out[j]).community_member_id by {
                if j < sub.len() {
                    assert(out[i] == sub[i]);
                    assert(out[j] == sub[j]);
                } else {
                    assert(out[j] == links.last());
                    assert(out[i] == sub[i]);
                    assert(sub.contains(sub[i]));
                    assert(prefix.contains(sub[i]));
                    let m = choose|m: int| 0 <= m < prefix.len() && prefix[m] == sub[i];
                    assert(links[m] == sub[i]);
                    assert(links[m].community_member_id != links[links.len()
                        - 1].community_member_id);
                }
            }
        }
    }
}

/// Byte-slice equality by contents.
pub fn bytes_eq(a: &[u8], b: &[u8]) -> (r: bool)
    ensures
        r == (a@ == b@),
{
    if a.len() != b.len() {
        proof {
            assert(a@ != b@);
        }
        return false;
    }
    let n = a.len();
    let mut i: usize = 0;
    while i < n
        invariant
            n == a@.len(),
            n == b@.len(),
            i <= n,
            forall|k: int| 0 <= k < i ==> a@[k] == b@[k],
        decreases n - i,
    {
        if a[i] != b[i] {
            proof {
                assert(a@[i as int] != b@[i as int]);
            }
            return false;
        }
        i = i + 1;
    }
    proof {
        assert(a@ =~= b@);
    }
    true
}

/// String equality by contents, decided on the UTF-8 bytes.
pub fn str_eq(a: &str, b: &str) -> (r: bool)
    ensures
        r == (a@ == b@),
{
    let r = bytes_eq(a.as_bytes(), b.as_bytes());
    proof {
        if r {
            vstd::utf8::encode_utf8_decode_utf8(a@);
            vstd::utf8::encode_utf8_decode_utf8(b@);
        }
    }
    r
}

impl RoleStore {
    /// Both tables satisfy their uniqueness constraints.
    pub open spec fn wf(&self) -> bool {
        mappings_wf(row_views(self.mappings@)) && links_wf(self.links@)
    }

    /// An empty store.
    pub fn new() -> (r: RoleStore)
        ensures
            r.wf(),
            r.mappings@.len() == 0,
            r.links@.len() == 0,
    {
        RoleStore { mappings: Vec::new(), links: Vec::new() }
    }

    /// Inserts a mapping row; fails with `UniqueViolation`, leaving the
    /// table unchanged, iff either identifier is already present.
    pub fn insert_mapping(&mut self, row: RoleMapping) -> (r: Result<(), StoreError>)
        requires
            old(self).wf(),
        ensures
            final(self).wf(),
            final(self).links@ == old(self).links@,
            if has_remote_id(row_views(old(self).mappings@), row.remote_id) || has_local_id(
                row_views(old(self).mappings@),
                row.local_id@,
            ) {
                &&& r matches Err(StoreError::UniqueViolation)
                &&& final(self).mappings@ == old(self).mappings@
            } else {
                &&& r matches Ok(())
                &&& row_views(final(self).mappings@) == row_views(old(self).mappings@).push(row@)
            },
    {
        let n = self.mappings.len();
        let mut i: usize = 0;
        while i < n
            invariant
                self == old(self),
                old(self).wf(),
                n == self.mappings@.len(),
                i <= n,
                forall|k: int|
                    0 <= k < i ==> (#[trigger] row_views(self.mappings@)[k]).remote_id
                        != row.remote_id && row_views(self.mappings@)[k].local_id != row.local_id@,
            decreases n - i,
        {
            let same_remote = self.mappings[i].remote_id == row.remote_id;
            let same_local = str_eq(self.mappings[i].local_id.as_str(), row.local_id.as_str());
            if same_remote || same_local {
                proof {
                    if same_remote {
                        assert((#[trigger] row_views(self.mappings@)[i as int]).remote_id
                            == row.remote_id);
                    } else {
                        assert((#[trigger] row_views(self.mappings@)[i as int]).local_id
                            == row.local_id@);
                    }
                }
                return Err(StoreError::UniqueViolation);
            }
            i = i + 1;
        }
        self.mappings.push(row);
        proof {
            assert(row_views(self.mappings@) =~= row_views(old(self).mappings@).push(row@));
            let rows = row_views(old(self).mappings@);
            assert forall|a: int, b: int|
                0 <= a < b < row_views(self.mappings@).len() implies (#[trigger] row_views(
                self.mappings@,
            )[a]).local_id != (#[trigger] row_views(self.mappings@)[b]).local_id && row_views(
                self.mappings@,
            )[a].remote_id != row_views(self.mappings@)[b].remote_id by {
                if b < rows.len() {
                    assert(rows[a] == row_views(self.mappings@)[a]);
                    assert(rows[b] == row_views(self.mappings@)[b]);
                }
            }
        }
        Ok(())
    }

    /// Deletes every mapping row carrying the given remote role identifier;
    /// a no-op when none does.
    pub fn delete_mapping_by_remote(&mut self, remote_id: i64)
        requires
            old(self).wf(),
        ensures
            final(self).wf(),
            final(self).links@ == old(self).links@,
            row_views(final(self).mappings@) == row_views(old(self).mappings@).filter(
                |m: RoleMappingV| m.remote_id != remote_id,
            ),
    {
        let ghost rows = row_views(self.mappings@);
        let ghost p = |m: RoleMappingV| m.remote_id != remote_id;
        let mut out: Vec<RoleMapping> = Vec::new();
        let n = self.mappings.len();
        let mut i: usize = 0;
        while i < n
            invariant
                self == old(self),
                old(self).wf(),
                rows == row_views(self.mappings@),
                p == (|m: RoleMappingV| m.remote_id != remote_id),
                n == self.mappings@.len(),
                i <= n,
                row_views(out@) == rows.take(i as int).filter(p),
            decreases n - i,
        {
            if self.mappings[i].remote_id != remote_id {
                let m = self.mappings[i].clone();
                let ghost prev = out@;
                out.push(m);
                proof {
                    assert(row_views(out@) =~= row_views(prev).push(rows[i as int]));
                }
            }
            proof {
                lemma_filter_take_step(rows, p, i as int);
            }
            i = i + 1;
        }
        proof {
            assert(rows.take(n as int) =~= rows);
            lemma_mappings_wf_filter(rows, p);
        }
        self.mappings = out;
    }

    /// Deletes every mapping row carrying the given local role identifier;
    /// a no-op when none does.
    pub fn delete_mapping_by_local(&mut self, local_id: &str)
        requires
            old(self).wf(),
        ensures
            final(self).wf(),
            final(self).links@ == old(self).links@,
            row_views(final(self).mappings@) == row_views(old(self).mappings@).filter(
                |m: RoleMappingV| m.local_id != local_id@,
            ),
    {
        let ghost rows = row_views(self.mappings@);
        let ghost p = |m: RoleMappingV| m.local_id != local_id@;
        let mut out: Vec<RoleMapping> = Vec::new();
        let n = self.mappings.len();
        let mut i: usize = 0;
        while i < n
            invariant
                self == old(self),
                old(self).wf(),
                rows == row_views(self.mappings@),
                p == (|m: RoleMappingV| m.local_id != local_id@),
                n == self.mappings@.len(),
                i <= n,
                row_views(out@) == rows.take(i as int).filter(p),
            decreases n - i,
        {
            if !str_eq(self.mappings[i].local_id.as_str(), local_id) {
                let m = self.mappings[i].clone();
                let ghost prev = out@;
                out.push(m);
                proof {
                    assert(row_views(out@) =~= row_views(prev).push(rows[i as int]));
                }
            }
            proof {
                lemma_filter_take_step(rows, p, i as int);
            }
            i = i + 1;
        }
        proof {
            assert(rows.take(n as int) =~= rows);
            lemma_mappings_wf_filter(rows, p);
        }
        self.mappings = out;
    }

    /// All mapping rows, in table order.
    pub fn all_mappings(&self) -> (r: Vec<RoleMapping>)
        ensures
            row_views(r@) == row_views(self.mappings@),
    {
        let mut out: Vec<RoleMapping> = Vec::new();
        let n = self.mappings.len();
        let mut i: usize = 0;
        while i < n
            invariant
                n == self.mappings@.len(),
                i <= n,
                row_views(out@) == row_views(self.mappings@).take(i as int),
            decreases n - i,
        {
            let m = self.mappings[i].clone();
            let ghost prev = out@;
            out.push(m);
            proof {
                assert(row_views(out@) =~= row_views(prev).push(
                    row_views(self.mappings@)[i as int],
                ));
                assert(row_views(out@) =~= row_views(self.mappings@).take(i as int + 1));
            }
            i = i + 1;
        }
        proof {
            assert(row_views(self.mappings@).take(n as int) =~= row_views(self.mappings@));
        }
        out
    }

    /// The link row of the given member; `NotFound` when the link table
    /// holds no row for it.
    pub fn lookup_link(&self, member_id: i64) -> (r: Result<LinkedAccount, StoreError>)
        requires
            self.wf(),
        ensures
            if has_link(self.links@, member_id) {
                r matches Ok(l) && l.community_member_id == member_id && l.remote_account_id
                    == linked_account_of(self.links@, member_id)
            } else {
                r matches Err(StoreError::NotFound)
            },
    {
        let n = self.links.len();
        let mut i: usize = 0;
        while i < n
            invariant
                self.wf(),
                n == self.links@.len(),
                i <= n,
                forall|k: int|
                    0 <= k < i ==> (#[trigger] self.links@[k]).community_member_id != member_id,
            decreases n - i,
        {
            let l = self.links[i];
            if l.community_member_id == member_id {
                proof {
                    let j = choose|j: int|
                        0 <= j < self.links@.len() && (#[trigger] self.links@[j]).community_member_id
                            == member_id;
                    if j != i as int {
                        assert(self.links@[j].community_member_id
                            != self.links@[i as int].community_member_id);
                    }
                }
                return Ok(l);
            }
            i = i + 1;
        }
        Err(StoreError::NotFound)
    }

    /// Records a link; fails with `UniqueViolation`, leaving the table
    /// unchanged, iff the member already has one.
    pub fn insert_link(&mut self, link: LinkedAccount) -> (r: Result<(), StoreError>)
        requires
            old(self).wf(),
        ensures
            final(self).wf(),
            final(self).mappings@ == old(self).mappings@,
            if has_link(old(self).links@, link.community_member_id) {
                &&& r matches Err(StoreError::UniqueViolation)
                &&& final(self).links@ == old(self).links@
            } else {
                &&& r matches Ok(())
                &&& final(self).links@ == old(self).links@.push(link)
            },
    {
        let n = self.links.len();
        let mut i: usize = 0;
        while i < n
            invariant
                self == old(self),
                old(self).wf(),
                n == self.links@.len(),
                i <= n,
                forall|k: int|
                    0 <= k < i ==> (#[trigger] self.links@[k]).community_member_id
                        != link.community_member_id,
            decreases n - i,
        {
            if self.links[i].community_member_id == link.community_member_id {
                return Err(StoreError::UniqueViolation);
            }
            i = i + 1;
        }
        self.links.push(link);
        proof {
            let links = old(self).links@;
            assert forall|a: int, b: int| 0 <= a < b < self.links@.len() implies (
            #[trigger] self.links@[a]).community_member_id != (
            #[trigger] self.links@[b]).community_member_id by {
                if b < links.len() {
                    assert(links[a] == self.links@[a]);
                    assert(links[b] == self.links@[b]);
                } else {
                    assert(self.links@[b] == link);
                    assert(self.links@[a] == links[a]);
                }
            }
        }
        Ok(())
    }

    /// Deletes the link row of the given member; a no-op when none exists.
    pub fn delete_link(&mut self, member_id: i64)
        requires
            old(self).wf(),
        ensures
            final(self).wf(),
            final(self).mappings@ == old(self).mappings@,
            final(self).links@ == old(self).links@.filter(
                |l: LinkedAccount| l.community_member_id != member_id,
            ),
            !has_link(final(self).links@, member_id),
    {
        let ghost links = self.links@;
        let ghost p = |l: LinkedAccount| l.community_member_id != member_id;
        let mut out: Vec<LinkedAccount> = Vec::new();
        let n = self.links.len();
        let mut i: usize = 0;
        while i < n
            invariant
                self == old(self),
                old(self).wf(),
                links == self.links@,
                p == (|l: LinkedAccount| l.community_member_id != member_id),
                n == self.links@.len(),
                i <= n,
                out@ == links.take(i as int).filter(p),
            decreases n - i,
        {
            let l = self.links[i];
            if l.community_member_id != member_id {
                out.push(l);
            }
            proof {
                lemma_filter_take_step(links, p, i as int);
            }
            i = i + 1;
        }
        proof {
            assert(links.take(n as int) =~= links);
            lemma_links_wf_filter(links, p);
            let kept = links.filter(p);
            assert forall|k: int| 0 <= k < kept.len() implies (
            #[trigger] kept[k]).community_member_id != member_id by {
                Seq::lemma_filter_pred(links, p, k);
            }
        }
        self.links = out;
    }
}

} // verus!
