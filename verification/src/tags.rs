//! Model of the normalized tag tables: a tag table keyed by name and a
//! many-to-many join between captures and tags.  Saving a capture's tags
//! replaces the capture's links wholesale — delete all, then upsert and link
//! each name — so the linked set afterwards is exactly the latest name set,
//! with no duplicate join rows.

use vstd::prelude::*;
use vstd::seq_lib::group_to_multiset_ensures;
use vstd::seq_lib::lemma_multiset_commutative;
use vstd::string::*;

verus! {

/// `a` is at or before `b` in lexicographic code-point order, comparing from
/// position `i` on.
pub open spec fn lex_le_from(a: Seq<char>, b: Seq<char>, i: int) -> bool
    decreases a.len() - i when 0 <= i
{
    if i >= a.len() {
        true
    } else if i >= b.len() {
        false
    } else if (a[i] as u32) < (b[i] as u32) {
        true
    } else if (a[i] as u32) > (b[i] as u32) {
        false
    } else {
        lex_le_from(a, b, i + 1)
    }
}

/// Lexicographic code-point order on names, as tag listings sort them.
pub open spec fn lex_le(a: Seq<char>, b: Seq<char>) -> bool {
    lex_le_from(a, b, 0)
}

/// The order is total: one of the two directions always holds.
proof fn lemma_lex_total(a: Seq<char>, b: Seq<char>, i: int)
    requires
        0 <= i,
    ensures
        lex_le_from(a, b, i) || lex_le_from(b, a, i),
    decreases a.len() - i,
{
    if i < a.len() && i < b.len() && (a[i] as u32) == (b[i] as u32) {
        lemma_lex_total(a, b, i + 1);
    }
}

/// Compares two names in lexicographic code-point order.
fn name_le(a: &String, b: &String) -> (r: bool)
    ensures
        r == lex_le(a@, b@),
{
    let a_str = a.as_str();
    let b_str = b.as_str();
    let a_len = a_str.unicode_len();
    let b_len = b_str.unicode_len();
    let mut i: usize = 0;
    loop
        invariant
            i <= a_len,
            i <= b_len,
            a_len == a@.len(),
            b_len == b@.len(),
            a_str@ == a@,
            b_str@ == b@,
            lex_le(a@, b@) == lex_le_from(a@, b@, i as int),
        decreases a_len - i,
    {
        if i >= a_len {
            return true;
        }
        if i >= b_len {
            return false;
        }
        let ca = a_str.get_char(i) as u32;
        let cb = b_str.get_char(i) as u32;
        if ca < cb {
            return true;
        }
        if ca > cb {
            return false;
        }
        i = i + 1;
    }
}

/// The names are in ascending lexicographic order.
pub open spec fn sorted_by_name(s: Seq<String>) -> bool {
    forall|k: int| 0 <= k && k + 1 < s.len() ==> #[trigger] lex_le(s[k]@, s[k + 1]@)
}

/// First position of a sorted list at which `v` may stand: everything
/// before is at or below `v`, what follows is at or above it.
fn find_pos(out: &Vec<String>, v: &String) -> (p: usize)
    ensures
        p <= out.len(),
        forall|k: int| 0 <= k < p ==> lex_le(#[trigger] out@[k]@, v@),
        p < out.len() ==> lex_le(v@, out@[p as int]@),
{
    let mut p: usize = 0;
    while p < out.len()
        invariant
            p <= out.len(),
            forall|k: int| 0 <= k < p ==> lex_le(#[trigger] out@[k]@, v@),
        decreases out.len() - p,
    {
        if !name_le(&out[p], v) {
            proof {
                lemma_lex_total(out@[p as int]@, v@, 0);
            }
            return p;
        }
        p = p + 1;
    }
    p
}

/// Inserts a name into a sorted list, keeping it sorted.
fn insert_sorted(out: &mut Vec<String>, v: String)
    requires
        sorted_by_name(old(out)@),
    ensures
        sorted_by_name(final(out)@),
        final(out)@.to_multiset() =~= old(out)@.to_multiset().insert(v),
        final(out).len() == old(out).len() + 1,
{
    let ghost pre = out@;
    let ghost vv = v;
    let p = find_pos(out, &v);
    out.insert(p, v);
    proof {
        broadcast use group_to_multiset_ensures;

        let front = pre.subrange(0, p as int);
        let back = pre.subrange(p as int, pre.len() as int);
        assert(out@ == front.push(vv) + back);
        lemma_multiset_commutative(front.push(vv), back);
        lemma_multiset_commutative(front, back);
        assert(front + back =~= pre);
        assert(out@.to_multiset() =~= pre.to_multiset().insert(vv));
        assert forall|k: int| 0 <= k && k + 1 < out@.len() implies #[trigger] lex_le(
            out@[k]@,
            out@[k + 1]@,
        ) by {
            if k + 1 < p {
                assert(out@[k] == pre[k]);
                assert(out@[k + 1] == pre[k + 1]);
                assert(lex_le(pre[k]@, pre[k + 1]@));
            } else if k + 1 == p {
                assert(out@[k] == pre[k]);
                assert(out@[k + 1] == vv);
                assert(lex_le(pre[k]@, vv@));
            } else if k == p {
                assert(out@[k] == vv);
                assert(out@[k + 1] == pre[k]);
                assert(lex_le(vv@, pre[k]@));
            } else {
                let j = k - 1;
                assert(out@[k] == pre[j]);
                assert(out@[k + 1] == pre[j + 1]);
                assert(lex_le(pre[j]@, pre[j + 1]@));
            }
        }
    }
}

/// Sorts names in ascending lexicographic order, keeping the multiset.
fn sort_by_names(names: Vec<String>) -> (r: Vec<String>)
    ensures
        r@.to_multiset() =~= names@.to_multiset(),
        sorted_by_name(r@),
{
    let mut out: Vec<String> = Vec::new();
    proof {
        assert(out@ =~= names@.take(0));
    }
    let mut i: usize = 0;
    while i < names.len()
        invariant
            i <= names.len(),
            sorted_by_name(out@),
            out@.to_multiset() =~= names@.take(i as int).to_multiset(),
        decreases names.len() - i,
    {
        insert_sorted(&mut out, names[i].clone());
        proof {
            broadcast use group_to_multiset_ensures;

            assert(names@.take(i + 1) =~= names@.take(i as int).push(names@[i as int]));
            assert(names@.take(i + 1).to_multiset() =~= names@.take(i as int).push(
                names@[i as int],
            ).to_multiset());
        }
        i = i + 1;
    }
    proof {
        assert(names@.take(names.len() as int) =~= names@);
    }
    out
}

/// One row of the tag table.
#[derive(Debug)]
pub struct TagRow {
    pub id: u64,
    pub name: String,
}

/// Tag table plus capture-tag join rows.
pub struct TagStore {
    pub tags: Vec<TagRow>,
    pub links: Vec<(u64, u64)>,
    pub next_tag_id: u64,
}

/// Id of the first tag row named `name`, scanning from `i`.
pub open spec fn tag_id_from(tags: Seq<TagRow>, i: int, name: Seq<char>) -> Option<u64>
    decreases tags.len() - i when 0 <= i <= tags.len()
{
    if i >= tags.len() {
        None
    } else if tags[i].name@ == name {
        Some(tags[i].id)
    } else {
        tag_id_from(tags, i + 1, name)
    }
}

/// The join rows of `links` from `i` on whose capture is not `cap`.
pub open spec fn links_without(links: Seq<(u64, u64)>, i: int, cap: u64) -> Seq<(u64, u64)>
    decreases links.len() - i when 0 <= i <= links.len()
{
    if i >= links.len() {
        Seq::empty()
    } else if links[i].0 == cap {
        links_without(links, i + 1, cap)
    } else {
        seq![links[i]] + links_without(links, i + 1, cap)
    }
}

proof fn lemma_links_without_contains(links: Seq<(u64, u64)>, i: int, cap: u64, p: (u64, u64))
    requires
        0 <= i <= links.len(),
    ensures
        links_without(links, i, cap).contains(p) <==> (p.0 != cap && exists|k: int|
            i <= k < links.len() && links[k] == p),
    decreases links.len() - i,
{
    if i >= links.len() {
    } else {
        lemma_links_without_contains(links, i + 1, cap, p);
        if links[i].0 == cap {
            if p.0 != cap && exists|k: int| i <= k < links.len() && links[k] == p {
                let k = choose|k: int| i <= k < links.len() && links[k] == p;
                assert(k > i);
            }
        } else {
            let rest = links_without(links, i + 1, cap);
            let whole = seq![links[i]] + rest;
            if whole.contains(p) {
                let idx = choose|idx: int| 0 <= idx < whole.len() && whole[idx] == p;
                if idx == 0 {
                    assert(links[i] == p);
                } else {
                    assert(rest[idx - 1] == p);
                    assert(rest.contains(p));
                }
            }
            if p == links[i] {
                assert(whole[0] == p);
            } else if rest.contains(p) {
                let idx = choose|idx: int| 0 <= idx < rest.len() && rest[idx] == p;
                assert(whole[idx + 1] == p);
            }
        }
    }
}

impl TagStore {
    /// Tag ids and names are unique, ids stay below the allocator cursor,
    /// and no join row repeats.
    pub open spec fn wf(self) -> bool {
        &&& forall|i: int, j: int|
            0 <= i < j < self.tags.len() ==> self.tags[i].id != self.tags[j].id
        &&& forall|i: int, j: int|
            0 <= i < j < self.tags.len() ==> self.tags[i].name@ != self.tags[j].name@
        &&& forall|i: int| 0 <= i < self.tags.len() ==> #[trigger] self.tags[i].id < self.next_tag_id
        &&& forall|i: int, j: int|
            0 <= i < j < self.links.len() ==> self.links[i] != self.links[j]
    }

    /// An empty store.
    pub fn new() -> (r: TagStore)
        ensures
            r.wf(),
            r.tags@ =~= Seq::<TagRow>::empty(),
            r.links@ =~= Seq::<(u64, u64)>::empty(),
    {
        TagStore { tags: Vec::new(), links: Vec::new(), next_tag_id: 0 }
    }

    /// Id of the tag named `name`, if the table holds one.
    pub open spec fn spec_tag_id(self, name: Seq<char>) -> Option<u64> {
        tag_id_from(self.tags@, 0, name)
    }

    /// A join row links `cap` to tag `tid`.
    pub open spec fn spec_linked(self, cap: u64, tid: u64) -> bool {
        exists|i: int| 0 <= i < self.links.len() && #[trigger] self.links[i] == (cap, tid)
    }

    fn find_tag(&self, name: &String) -> (r: Option<u64>)
        ensures
            r == self.spec_tag_id(name@),
    {
        let mut i: usize = 0;
        while i < self.tags.len()
            invariant
                i <= self.tags.len(),
                tag_id_from(self.tags@, 0, name@) == tag_id_from(self.tags@, i as int, name@),
            decreases self.tags.len() - i,
        {
            if self.tags[i].name == *name {
                return Some(self.tags[i].id);
            }
            i = i + 1;
        }
        None
    }

    /// Inserts the tag if its name is new and returns the id it now has
    /// (fresh for a new name, the existing id otherwise).  Join rows never
    /// change here.
    pub fn upsert_tag(&mut self, name: &String) -> (tid: u64)
        requires
            old(self).wf(),
            old(self).next_tag_id < u64::MAX,
        ensures
            final(self).wf(),
            final(self).links@ == old(self).links@,
            final(self).spec_tag_id(name@) == Some(tid),
            match old(self).spec_tag_id(name@) {
                Some(t) => tid == t && final(self).tags@ == old(self).tags@ && final(self).next_tag_id == old(self).next_tag_id,
                None => {
                    &&& tid == old(self).next_tag_id
                    &&& final(self).next_tag_id == old(self).next_tag_id + 1
                    &&& final(self).tags.len() == old(self).tags.len() + 1
                    &&& forall|i: int|
                        0 <= i < old(self).tags.len() ==> final(self).tags[i] == old(self).tags[i]
                    &&& final(self).tags[old(self).tags.len() as int].id == tid
                    &&& final(self).tags[old(self).tags.len() as int].name@ == name@
                },
            },
            forall|m: Seq<char>|
                old(self).spec_tag_id(m) is Some ==> #[trigger] final(self).spec_tag_id(m) == old(self).spec_tag_id(m),
    {
        let found = self.find_tag(name);
        match found {
            Some(t) => t,
            None => {
                let tid = self.next_tag_id;
                let ghost old_tags = self.tags@;
                self.tags.push(TagRow { id: tid, name: name.clone() });
                self.next_tag_id = tid + 1;
                proof {
                    assert(self.tags@.drop_last() =~= old_tags);
                    lemma_tag_id_none(old_tags, 0, name@);
                    lemma_tag_id_push_forall(old_tags, self.tags@[old_tags.len() as int]);
                    assert(self.tags@ == old_tags.push(self.tags@[old_tags.len() as int]));
                }
                tid
            },
        }
    }

    fn has_link(&self, cap: u64, tid: u64) -> (r: bool)
        ensures
            r == self.spec_linked(cap, tid),
    {
        let mut i: usize = 0;
        while i < self.links.len()
            invariant
                i <= self.links.len(),
                forall|k: int| 0 <= k < i ==> self.links[k] != (cap, tid),
            decreases self.links.len() - i,
        {
            let p = self.links[i];
            if p.0 == cap && p.1 == tid {
                return true;
            }
            i = i + 1;
        }
        false
    }

    /// Adds the join row unless it is already there: duplicate saves of one
    /// pair leave a single row.
    pub fn insert_capture_tag(&mut self, cap: u64, tid: u64)
        requires
            old(self).wf(),
        ensures
            final(self).wf(),
            final(self).tags@ == old(self).tags@,
            final(self).next_tag_id == old(self).next_tag_id,
            old(self).spec_linked(cap, tid) ==> final(self).links@ == old(self).links@,
            !old(self).spec_linked(cap, tid) ==> final(self).links@ == old(self).links@.push(
                (cap, tid),
            ),
    {
        if !self.has_link(cap, tid) {
            self.links.push((cap, tid));
        }
    }

    /// Deletes every join row of this capture; rows of other captures stay,
    /// in order.
    pub fn remove_links_for(&mut self, cap: u64)
        requires
            old(self).wf(),
        ensures
            final(self).wf(),
            final(self).tags@ == old(self).tags@,
            final(self).next_tag_id == old(self).next_tag_id,
            final(self).links@ == links_without(old(self).links@, 0, cap),
            forall|p: (u64, u64)|
                #[trigger] final(self).links@.contains(p) <==> (p.0 != cap && old(self).links@.contains(p)),
    {
        let n = self.links.len();
        let mut out: Vec<(u64, u64)> = Vec::new();
        let mut i: usize = 0;
        while i < n
            invariant
                n == self.links.len(),
                i <= n,
                links_without(self.links@, 0, cap) == out@ + links_without(
                    self.links@,
                    i as int,
                    cap,
                ),
            decreases n - i,
        {
            let p = self.links[i];
            if p.0 != cap {
                proof {
                    assert(links_without(self.links@, i as int, cap) =~= seq![p] + links_without(
                        self.links@,
                        i + 1,
                        cap,
                    ));
                    assert(out@.push(p) + links_without(self.links@, i + 1, cap) =~= out@ + (
                    seq![p] + links_without(self.links@, i + 1, cap)));
                }
                out.push(p);
            } else {
                proof {
                    assert(links_without(self.links@, i as int, cap) =~= links_without(
                        self.links@,
                        i + 1,
                        cap,
                    ));
                }
            }
            i = i + 1;
        }
        proof {
            assert(links_without(self.links@, n as int, cap) =~= Seq::<(u64, u64)>::empty());
            assert(out@ + Seq::<(u64, u64)>::empty() =~= out@);
        }
        let ghost old_links = self.links@;
        self.links = out;
        proof {
            assert forall|p: (u64, u64)| #[trigger]
                self.links@.contains(p) <==> (p.0 != cap && old_links.contains(p)) by {
                lemma_links_without_contains(old_links, 0, cap, p);
                if p.0 != cap && old_links.contains(p) {
                    let k = choose|k: int| 0 <= k < old_links.len() && old_links[k] == p;
                    assert(exists|k2: int| 0 <= k2 < old_links.len() && old_links[k2] == p);
                }
            }
            assert forall|i1: int, j1: int| 0 <= i1 < j1 < self.links.len() implies self.links[i1]
                != self.links[j1] by {
                lemma_links_without_unique(old_links, 0, cap);
            }
        }
    }

    /// Replaces the capture's tag set: afterwards the capture is linked to
    /// exactly the ids of the given names, other captures' links are
    /// untouched, and existing tag rows are never removed or renamed.
    pub fn save_capture_tags(&mut self, cap: u64, names: &Vec<String>)
        requires
            old(self).wf(),
            old(self).next_tag_id + names.len() < u64::MAX,
        ensures
            final(self).wf(),
            forall|tid: u64|
                #[trigger] final(self).spec_linked(cap, tid) <==> (exists|k: int|
                    0 <= k < names.len() && final(self).spec_tag_id(
                        #[trigger] names[k]@,
                    ) == Some(tid)),
            forall|p: (u64, u64)|
                p.0 != cap ==> (#[trigger] final(self).links@.contains(p) <==> old(self).links@.contains(p)),
            forall|k: int|
                0 <= k < names.len() ==> #[trigger] final(self).spec_tag_id(names[k]@) is Some,
            forall|i: int|
                0 <= i < old(self).tags.len() ==> #[trigger] final(self).tags[i] == old(self).tags[i],
            final(self).next_tag_id <= old(self).next_tag_id + names.len(),
    {
        self.remove_links_for(cap);
        proof {
            assert forall|tid: u64| !self.spec_linked(cap, tid) by {
                if self.spec_linked(cap, tid) {
                    let idx = choose|i: int|
                        0 <= i < self.links.len() && #[trigger] self.links[i] == (cap, tid);
                    assert(self.links@.contains((cap, tid)));
                }
            }
        }
        let ghost base = *self;
        let mut k: usize = 0;
        while k < names.len()
            invariant
                self.wf(),
                self.next_tag_id + (names.len() - k) < u64::MAX,
                self.next_tag_id <= base.next_tag_id + k,
                k <= names.len(),
                base.tags.len() <= self.tags.len(),
                forall|tid: u64|
                    #[trigger] self.spec_linked(cap, tid) <==> (exists|j: int|
                        0 <= j < k && self.spec_tag_id(#[trigger] names[j]@) == Some(tid)),
                forall|j: int| 0 <= j < k ==> #[trigger] self.spec_tag_id(names[j]@) is Some,
                forall|p: (u64, u64)|
                    p.0 != cap ==> (#[trigger] self.links@.contains(p) <==> base.links@.contains(
                        p,
                    )),
                forall|i: int|
                    0 <= i < base.tags.len() ==> #[trigger] self.tags[i] == base.tags[i],
                forall|m: Seq<char>|
                    base.spec_tag_id(m) is Some ==> #[trigger] self.spec_tag_id(m)
                        == base.spec_tag_id(m),
            decreases names.len() - k,
        {
            let ghost before = *self;
            let tid = self.upsert_tag(&names[k]);
            let ghost mid = *self;
            self.insert_capture_tag(cap, tid);
            proof {
                assert(self.tags@ == mid.tags@);
                assert forall|m: Seq<char>|
                    mid.spec_tag_id(m) == #[trigger] self.spec_tag_id(m) by {}
                assert(mid.links@ == before.links@);
                assert(mid.spec_tag_id(names[k as int]@) == Some(tid));
                assert(self.spec_tag_id(names[k as int]@) == Some(tid));
                assert forall|j: int| 0 <= j < k + 1 implies #[trigger] self.spec_tag_id(
                    names[j]@,
                ) is Some by {
                    if j < k {
                        assert(before.spec_tag_id(names[j]@) is Some);
                        assert(mid.spec_tag_id(names[j]@) == before.spec_tag_id(names[j]@));
                    }
                }
                let ghost pushed = self.links@.len() > mid.links@.len();
                assert forall|p: (u64, u64)|
                    p.0 != cap implies (#[trigger] self.links@.contains(p)
                        <==> base.links@.contains(p)) by {
                    if pushed {
                        assert(self.links@ == mid.links@.push((cap, tid)));
                        if self.links@.contains(p) {
                            let idx = choose|i: int|
                                0 <= i < self.links@.len() && self.links@[i] == p;
                            assert(idx < mid.links@.len());
                            assert(mid.links@.contains(p));
                        }
                        if mid.links@.contains(p) {
                            let idx = choose|i: int|
                                0 <= i < mid.links@.len() && mid.links@[i] == p;
                            assert(self.links@[idx] == p);
                        }
                        assert(before.links@.contains(p) <==> base.links@.contains(p));
                    } else {
                        assert(self.links@ == mid.links@);
                        assert(before.links@.contains(p) <==> base.links@.contains(p));
                    }
                }
                assert forall|tid2: u64| #[trigger]
                    self.spec_linked(cap, tid2) <==> (exists|j: int|
                        0 <= j < k + 1 && self.spec_tag_id(#[trigger] names[j]@) == Some(
                            tid2,
                        )) by {
                    if self.spec_linked(cap, tid2) {
                        let idx = choose|i: int|
                            0 <= i < self.links.len() && #[trigger] self.links[i] == (cap, tid2);
                        if idx < mid.links.len() {
                            assert(mid.links@[idx] == self.links@[idx]);
                            assert(mid.spec_linked(cap, tid2));
                            assert(before.spec_linked(cap, tid2));
                            let j = choose|j: int|
                                0 <= j < k && before.spec_tag_id(#[trigger] names[j]@) == Some(
                                    tid2,
                                );
                            assert(mid.spec_tag_id(names[j]@) == before.spec_tag_id(names[j]@));
                            assert(self.spec_tag_id(names[j]@) == Some(tid2));
                        } else {
                            assert(self.links@ == mid.links@.push((cap, tid)));
                            assert(self.links[idx] == (cap, tid));
                            assert(tid2 == tid);
                        }
                    }
                    if exists|j: int|
                        0 <= j < k + 1 && self.spec_tag_id(#[trigger] names[j]@) == Some(tid2) {
                        let j = choose|j: int|
                            0 <= j < k + 1 && self.spec_tag_id(#[trigger] names[j]@) == Some(
                                tid2,
                            );
                        if j < k {
                            assert(before.spec_tag_id(names[j]@) is Some);
                            assert(mid.spec_tag_id(names[j]@) == before.spec_tag_id(names[j]@));
                            assert(before.spec_tag_id(names[j]@) == Some(tid2));
                            assert(before.spec_linked(cap, tid2));
                            let idx = choose|i: int|
                                0 <= i < before.links.len() && #[trigger] before.links[i] == (
                                cap,
                                tid2,
                                );
                            assert(mid.links@[idx] == (cap, tid2));
                            assert(self.links@[idx] == (cap, tid2));
                            assert(self.links[idx] == (cap, tid2));
                        } else {
                            assert(tid2 == tid);
                            if mid.spec_linked(cap, tid) {
                                let idx = choose|i: int|
                                    0 <= i < mid.links.len() && #[trigger] mid.links[i] == (
                                    cap,
                                    tid,
                                    );
                                assert(self.links@[idx] == (cap, tid));
                                assert(self.links[idx] == (cap, tid));
                            } else {
                                assert(self.links@ == mid.links@.push((cap, tid)));
                                assert(self.links[self.links.len() - 1] == (cap, tid));
                            }
                        }
                    }
                }
            }
            k = k + 1;
        }
    }

    /// Names of the tags linked to `cap`, sorted ascending by name.
    pub fn get_tags_for_capture(&self, cap: u64) -> (r: Vec<String>)
        ensures
            r@.to_multiset() =~= linked_names_from(*self, cap, 0).to_multiset(),
            sorted_by_name(r@),
    {
        let mut out: Vec<String> = Vec::new();
        let mut i: usize = 0;
        while i < self.tags.len()
            invariant
                i <= self.tags.len(),
                linked_names_from(*self, cap, 0) == out@ + linked_names_from(
                    *self,
                    cap,
                    i as int,
                ),
            decreases self.tags.len() - i,
        {
            let row = &self.tags[i];
            if self.has_link(cap, row.id) {
                proof {
                    assert(linked_names_from(*self, cap, i as int) =~= seq![self.tags[i as int].name]
                        + linked_names_from(*self, cap, i + 1));
                    assert(out@.push(self.tags[i as int].name) + linked_names_from(
                        *self,
                        cap,
                        i + 1,
                    ) =~= out@ + (seq![self.tags[i as int].name] + linked_names_from(
                        *self,
                        cap,
                        i + 1,
                    )));
                }
                out.push(row.name.clone());
            } else {
                proof {
                    assert(linked_names_from(*self, cap, i as int) =~= linked_names_from(
                        *self,
                        cap,
                        i + 1,
                    ));
                }
            }
            i = i + 1;
        }
        proof {
            assert(linked_names_from(*self, cap, self.tags.len() as int) =~= Seq::<
                String,
            >::empty());
            assert(out@ + Seq::<String>::empty() =~= out@);
        }
        sort_by_names(out)
    }
}

/// Names of the tags from row `i` on that are linked to `cap`.
pub open spec fn linked_names_from(s: TagStore, cap: u64, i: int) -> Seq<String>
    decreases s.tags.len() - i when 0 <= i <= s.tags.len()
{
    if i >= s.tags.len() {
        Seq::empty()
    } else if s.spec_linked(cap, s.tags[i].id) {
        seq![s.tags[i].name] + linked_names_from(s, cap, i + 1)
    } else {
        linked_names_from(s, cap, i + 1)
    }
}

proof fn lemma_links_without_unique(links: Seq<(u64, u64)>, i: int, cap: u64)
    requires
        0 <= i <= links.len(),
        forall|k1: int, k2: int| i <= k1 < k2 < links.len() ==> links[k1] != links[k2],
    ensures
        forall|a: int, b: int|
            0 <= a < b < links_without(links, i, cap).len() ==> links_without(links, i, cap)[a]
                != links_without(links, i, cap)[b],
    decreases links.len() - i,
{
    if i >= links.len() {
    } else if links[i].0 == cap {
        lemma_links_without_unique(links, i + 1, cap);
        assert(links_without(links, i, cap) == links_without(links, i + 1, cap));
    } else {
        lemma_links_without_unique(links, i + 1, cap);
        lemma_links_without_contains(links, i + 1, cap, links[i]);
        let rest = links_without(links, i + 1, cap);
        assert(!rest.contains(links[i]));
        let whole = seq![links[i]] + rest;
        assert(links_without(links, i, cap) == whole);
        assert forall|a: int, b: int| 0 <= a < b < whole.len() implies whole[a] != whole[b] by {
            if a == 0 {
                assert(whole[b] == rest[b - 1]);
                if whole[b] == links[i] {
                    assert(rest.contains(links[i]));
                }
            } else {
                assert(whole[a] == rest[a - 1]);
                assert(whole[b] == rest[b - 1]);
            }
        }
    }
}

/// A failed lookup means no row from `i` on bears the name.
proof fn lemma_tag_id_none(tags: Seq<TagRow>, i: int, name: Seq<char>)
    requires
        0 <= i <= tags.len(),
        tag_id_from(tags, i, name) is None,
    ensures
        forall|k: int| i <= k < tags.len() ==> tags[k].name@ != name,
    decreases tags.len() - i,
{
    if i < tags.len() {
        lemma_tag_id_none(tags, i + 1, name);
    }
}

/// Appending a tag row does not change lookups that already succeed, and a
/// lookup that failed succeeds afterwards only for the new row's name.
proof fn lemma_tag_id_push(tags: Seq<TagRow>, row: TagRow, i: int, name: Seq<char>)
    requires
        0 <= i <= tags.len(),
    ensures
        tag_id_from(tags.push(row), i, name) == (if tag_id_from(tags, i, name) is Some {
            tag_id_from(tags, i, name)
        } else if row.name@ == name {
            Some(row.id)
        } else {
            None
        }),
    decreases tags.len() - i,
{
    if i < tags.len() {
        assert(tags.push(row)[i] == tags[i]);
        lemma_tag_id_push(tags, row, i + 1, name);
    } else {
        assert(tag_id_from(tags, i, name) is None);
        assert(tags.push(row)[i] == row);
        assert(tag_id_from(tags.push(row), i + 1, name) is None);
    }
}

proof fn lemma_tag_id_push_forall(tags: Seq<TagRow>, row: TagRow)
    ensures
        forall|name: Seq<char>|
            #[trigger] tag_id_from(tags.push(row), 0, name) == (if tag_id_from(
                tags,
                0,
                name,
            ) is Some {
                tag_id_from(tags, 0, name)
            } else if row.name@ == name {
                Some(row.id)
            } else {
                None
            }),
{
    assert forall|name: Seq<char>| #[trigger]
        tag_id_from(tags.push(row), 0, name) == (if tag_id_from(tags, 0, name) is Some {
            tag_id_from(tags, 0, name)
        } else if row.name@ == name {
            Some(row.id)
        } else {
            None
        }) by {
        lemma_tag_id_push(tags, row, 0, name);
    }
}

} // verus!
