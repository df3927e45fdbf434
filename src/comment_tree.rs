//! Reconstruction of a reply tree from a flat list of comments that carry
//! only their dotted ancestor path.
use std::collections::BTreeMap;
use vstd::prelude::*;
use crate::comment_path::{ancestors_of, ancestor_chain, path_depth};

verus! {

/// The author of a comment.
#[derive(Debug)]
pub struct Author {
    pub name: String,
    pub avatar_url: Option<String>,
}

/// A comment, and the replies nested under it once it stands in a tree.
#[derive(Debug)]
pub struct LemmynatorComment {
    pub id: i32,
    pub content: String,
    pub author: Author,
    pub path: String,
    /// Direct replies by id, in ascending order of id.
    pub replies: BTreeMap<i32, LemmynatorComment>,
}

/// The comments of one post as a tree: the top-level comments by id, in
/// ascending order of id.
#[derive(Debug)]
pub struct LemmynatorPostComments {
    pub comments: BTreeMap<i32, LemmynatorComment>,
}

/// Whether a comment's path names `chain` as its ancestors.
pub open spec fn child_of(c: LemmynatorComment, chain: Seq<i32>) -> bool {
    ancestors_of(c.path@) == Some(chain)
}

/// Whether record `j` is a reply with id `k` directly under `chain`.
pub open spec fn is_reply(recs: Seq<LemmynatorComment>, chain: Seq<i32>, k: i32, j: int) -> bool {
    0 <= j < recs.len() && child_of(recs[j], chain) && recs[j].id == k
}

pub open spec fn has_reply(recs: Seq<LemmynatorComment>, chain: Seq<i32>, k: i32) -> bool {
    exists|j: int| is_reply(recs, chain, k, j)
}

/// Whether record `j` is the last reply with id `k` under `chain`: the one a
/// tree keeps when ids repeat.
pub open spec fn last_reply(recs: Seq<LemmynatorComment>, chain: Seq<i32>, k: i32, j: int) -> bool {
    &&& is_reply(recs, chain, k, j)
    &&& forall|j2: int| j < j2 < recs.len() ==> !is_reply(recs, chain, k, j2)
}

/// Whether each step of a chain of ids, from the root down, is a reply
/// present in the list under the steps before it.
pub open spec fn resolved(recs: Seq<LemmynatorComment>, d: Seq<i32>) -> bool {
    forall|m: int| 0 <= m < d.len() ==> #[trigger] has_reply(recs, d.take(m), d[m])
}

/// The node reached from `nodes` by following the ids of `d`.
pub open spec fn node_at(nodes: Map<i32, LemmynatorComment>, d: Seq<i32>) -> Option<LemmynatorComment>
    decreases d.len(),
{
    if d.len() == 0 {
        None
    } else if nodes.contains_key(d[0]) {
        if d.len() == 1 {
            Some(nodes[d[0]])
        } else {
            node_at(nodes[d[0]].replies@, d.skip(1))
        }
    } else {
        None
    }
}

/// A node carries the id, text, author and path of a record.
pub open spec fn same_data(n: LemmynatorComment, c: LemmynatorComment) -> bool {
    n.id == c.id && n.content == c.content && n.author == c.author && n.path == c.path
}

/// The node at `e` below `chain` carries the last record that replies with
/// its id there.
pub open spec fn node_from_records(
    recs: Seq<LemmynatorComment>,
    chain: Seq<i32>,
    e: Seq<i32>,
    n: LemmynatorComment,
) -> bool {
    exists|j: int| last_reply(recs, chain + e.drop_last(), e.last(), j) && same_data(n, recs[j])
}

/// `nodes` is the tree that `recs` gives below `chain`: a node at a chain
/// of ids exactly where the chain is resolved, carrying the last record
/// given for it.
pub open spec fn builds(recs: Seq<LemmynatorComment>, chain: Seq<i32>, nodes: Map<i32, LemmynatorComment>) -> bool {
    &&& forall|e: Seq<i32>|
        e.len() > 0 ==> (#[trigger] node_at(nodes, e) is Some <==> resolved(recs, chain + e))
    &&& forall|e: Seq<i32>|
        #[trigger] node_at(nodes, e) is Some ==> node_from_records(
            recs,
            chain,
            e,
            node_at(nodes, e)->Some_0,
        )
}

/// The tree that the flat list `recs` gives.
pub open spec fn is_tree_of(recs: Seq<LemmynatorComment>, roots: Map<i32, LemmynatorComment>) -> bool {
    builds(recs, Seq::empty(), roots)
}

pub open spec fn chain_view(o: Option<Vec<i32>>) -> Option<Seq<i32>> {
    match o {
        Some(v) => Some(v@),
        None => None,
    }
}

/// `anc` holds the ancestor chain of each record.
pub open spec fn chains_of(recs: Seq<LemmynatorComment>, anc: Seq<Option<Vec<i32>>>) -> bool {
    &&& anc.len() == recs.len()
    &&& forall|j: int| 0 <= j < recs.len() ==> chain_view(#[trigger] anc[j]) == ancestors_of(recs[j].path@)
}

/// Every ancestor chain in `recs` is at most `bound` long.
pub open spec fn chains_within(recs: Seq<LemmynatorComment>, bound: nat) -> bool {
    forall|j: int| 0 <= j < recs.len() ==> (#[trigger] ancestors_of(recs[j].path@) matches Some(a) ==> a.len() <= bound)
}

fn same_chain(a: &Vec<i32>, b: &Vec<i32>) -> (r: bool)
    ensures
        r == (a@ == b@),
{
    if a.len() != b.len() {
        return false;
    }
    let mut i: usize = 0;
    while i < a.len()
        invariant
            a.len() == b.len(),
            0 <= i <= a.len(),
            a@.take(i as int) == b@.take(i as int),
        decreases a.len() - i,
    {
        if a[i] != b[i] {
            assert(a@[i as int] != b@[i as int]);
            return false;
        }
        assert(a@.take(i + 1) =~= a@.take(i as int).push(a@[i as int]));
        assert(b@.take(i + 1) =~= b@.take(i as int).push(b@[i as int]));
        i = i + 1;
    }
    assert(a@ =~= a@.take(a.len() as int));
    assert(b@ =~= b@.take(b.len() as int));
    true
}

fn pushed(chain: &Vec<i32>, k: i32) -> (r: Vec<i32>)
    ensures
        r@ == chain@.push(k),
{
    let mut r: Vec<i32> = Vec::new();
    let mut i: usize = 0;
    while i < chain.len()
        invariant
            0 <= i <= chain.len(),
            r@ =~= chain@.take(i as int),
        decreases chain.len() - i,
    {
        r.push(chain[i]);
        i = i + 1;
    }
    r.push(k);
    assert(r@ =~= chain@.push(k));
    r
}

fn copy_author(a: &Author) -> (r: Author)
    ensures
        r == *a,
{
    let avatar_url = match &a.avatar_url {
        Some(u) => Some(u.clone()),
        None => None,
    };
    Author { name: a.name.clone(), avatar_url }
}

proof fn lemma_resolved_push(recs: Seq<LemmynatorComment>, chain: Seq<i32>, k: i32)
    requires
        resolved(recs, chain),
        has_reply(recs, chain, k),
    ensures
        resolved(recs, chain.push(k)),
{
    let d = chain.push(k);
    assert forall|m: int| 0 <= m < d.len() implies #[trigger] has_reply(recs, d.take(m), d[m]) by {
        if m < chain.len() {
            assert(d.take(m) =~= chain.take(m));
        } else {
            assert(d.take(m) =~= chain);
        }
    }
}

proof fn lemma_resolved_step(recs: Seq<LemmynatorComment>, chain: Seq<i32>, e: Seq<i32>)
    requires
        resolved(recs, chain + e),
        e.len() > 0,
    ensures
        has_reply(recs, chain, e[0]),
{
    let d = chain + e;
    let m = chain.len() as int;
    assert(has_reply(recs, d.take(m), d[m]));
    assert(d.take(m) =~= chain);
}

/// Whether a reply with id `k` under `chain` is among the first `j` records.
pub open spec fn reply_before(recs: Seq<LemmynatorComment>, chain: Seq<i32>, k: i32, j: int) -> bool {
    exists|j2: int| 0 <= j2 < j && is_reply(recs, chain, k, j2)
}

/// The node kept for `k` after the first `j` records: the last reply with id
/// `k` among them, with the tree below it.
pub open spec fn kept_after(
    recs: Seq<LemmynatorComment>,
    chain: Seq<i32>,
    k: i32,
    n: LemmynatorComment,
    j: int,
) -> bool {
    exists|j2: int|
        {
            &&& 0 <= j2 < j
            &&& is_reply(recs, chain, k, j2)
            &&& forall|j3: int| j2 < j3 < j ==> !is_reply(recs, chain, k, j3)
            &&& same_data(n, recs[j2])
            &&& builds(recs, chain.push(k), n.replies@)
        }
}

/// `out` holds the direct replies under `chain` among the first `j` records.
pub open spec fn level_so_far(
    recs: Seq<LemmynatorComment>,
    chain: Seq<i32>,
    out: Map<i32, LemmynatorComment>,
    j: int,
) -> bool {
    &&& forall|k: i32| #[trigger] out.contains_key(k) <==> reply_before(recs, chain, k, j)
    &&& forall|k: i32| #[trigger] out.contains_key(k) ==> kept_after(recs, chain, k, out[k], j)
}

proof fn lemma_level_skip(recs: Seq<LemmynatorComment>, chain: Seq<i32>, out: Map<i32, LemmynatorComment>, j: int)
    requires
        0 <= j < recs.len(),
        level_so_far(recs, chain, out, j),
        !child_of(recs[j], chain),
    ensures
        level_so_far(recs, chain, out, j + 1),
{
    assert forall|k: i32| #[trigger] out.contains_key(k) <==> reply_before(recs, chain, k, j + 1) by {
        if reply_before(recs, chain, k, j + 1) {
            let j2 = choose|j2: int| 0 <= j2 < j + 1 && is_reply(recs, chain, k, j2);
            assert(j2 != j);
            assert(reply_before(recs, chain, k, j));
        }
        if reply_before(recs, chain, k, j) {
            let j2 = choose|j2: int| 0 <= j2 < j && is_reply(recs, chain, k, j2);
            assert(0 <= j2 < j + 1 && is_reply(recs, chain, k, j2));
        }
    }
    assert forall|k: i32| #[trigger] out.contains_key(k) implies kept_after(recs, chain, k, out[k], j + 1) by {
        let j2 = choose|j2: int|
            {
                &&& 0 <= j2 < j
                &&& is_reply(recs, chain, k, j2)
                &&& forall|j3: int| j2 < j3 < j ==> !is_reply(recs, chain, k, j3)
                &&& same_data(out[k], recs[j2])
                &&& builds(recs, chain.push(k), out[k].replies@)
            };
        assert(forall|j3: int| j2 < j3 < j + 1 ==> !is_reply(recs, chain, k, j3));
    }
}

proof fn lemma_level_add(
    recs: Seq<LemmynatorComment>,
    chain: Seq<i32>,
    out: Map<i32, LemmynatorComment>,
    j: int,
    n: LemmynatorComment,
)
    requires
        0 <= j < recs.len(),
        level_so_far(recs, chain, out, j),
        child_of(recs[j], chain),
        same_data(n, recs[j]),
        builds(recs, chain.push(recs[j].id), n.replies@),
    ensures
        level_so_far(recs, chain, out.insert(recs[j].id, n), j + 1),
{
    let k0 = recs[j].id;
    let o2 = out.insert(k0, n);
    assert(is_reply(recs, chain, k0, j));
    assert forall|k: i32| #[trigger] o2.contains_key(k) <==> reply_before(recs, chain, k, j + 1) by {
        if reply_before(recs, chain, k, j + 1) {
            let j2 = choose|j2: int| 0 <= j2 < j + 1 && is_reply(recs, chain, k, j2);
            if j2 < j {
                assert(reply_before(recs, chain, k, j));
            }
        }
        if k == k0 {
            assert(0 <= j < j + 1 && is_reply(recs, chain, k, j));
        } else if reply_before(recs, chain, k, j) {
            let j2 = choose|j2: int| 0 <= j2 < j && is_reply(recs, chain, k, j2);
            assert(0 <= j2 < j + 1 && is_reply(recs, chain, k, j2));
        }
    }
    assert forall|k: i32| #[trigger] o2.contains_key(k) implies kept_after(recs, chain, k, o2[k], j + 1) by {
        if k == k0 {
            assert(forall|j3: int| j < j3 < j + 1 ==> !is_reply(recs, chain, k, j3));
        } else {
            assert(out.contains_key(k));
            let j2 = choose|j2: int|
                {
                    &&& 0 <= j2 < j
                    &&& is_reply(recs, chain, k, j2)
                    &&& forall|j3: int| j2 < j3 < j ==> !is_reply(recs, chain, k, j3)
                    &&& same_data(out[k], recs[j2])
                    &&& builds(recs, chain.push(k), out[k].replies@)
                };
            assert(!is_reply(recs, chain, k, j));
            assert(forall|j3: int| j2 < j3 < j + 1 ==> !is_reply(recs, chain, k, j3));
        }
    }
}

/// A level holding the direct replies among all the records gives `builds` at one chain.
proof fn lemma_level_node(
    recs: Seq<LemmynatorComment>,
    chain: Seq<i32>,
    o: Map<i32, LemmynatorComment>,
    e: Seq<i32>,
)
    requires
        resolved(recs, chain),
        e.len() > 0,
        level_so_far(recs, chain, o, recs.len() as int),
    ensures
        node_at(o, e) is Some <==> resolved(recs, chain + e),
        node_at(o, e) is Some ==> node_from_records(recs, chain, e, node_at(o, e)->Some_0),
{
    let k = e[0];
    let sub = chain.push(k);
    if o.contains_key(k) {
        let n = o[k];
        assert(kept_after(recs, chain, k, n, recs.len() as int));
        let j = choose|j2: int|
            {
                &&& 0 <= j2 < recs.len()
                &&& is_reply(recs, chain, k, j2)
                &&& forall|j3: int| j2 < j3 < recs.len() ==> !is_reply(recs, chain, k, j3)
                &&& same_data(n, recs[j2])
                &&& builds(recs, sub, n.replies@)
            };
        assert(last_reply(recs, chain, k, j));
        assert(has_reply(recs, chain, k));
        if e.len() == 1 {
            assert(chain + e =~= sub);
            lemma_resolved_push(recs, chain, k);
            assert(e.drop_last() =~= Seq::<i32>::empty());
            assert(chain + e.drop_last() =~= chain);
            assert(e.last() == k);
            assert(last_reply(recs, chain + e.drop_last(), e.last(), j));
            assert(node_at(o, e) == Some(n));
        } else {
            let f = e.skip(1);
            assert(sub + f =~= chain + e);
            assert(f.len() > 0);
            assert(node_at(o, e) == node_at(n.replies@, f));
            assert(node_at(n.replies@, f) is Some <==> resolved(recs, sub + f));
            if node_at(o, e) is Some {
                let m = node_at(o, e)->Some_0;
                assert(node_from_records(recs, sub, f, m));
                assert(sub + f.drop_last() =~= chain + e.drop_last());
                assert(f.last() == e.last());
                let w = choose|w: int| last_reply(recs, sub + f.drop_last(), f.last(), w) && same_data(m, recs[w]);
                assert(last_reply(recs, chain + e.drop_last(), e.last(), w));
            }
        }
    } else {
        assert(node_at(o, e) is None);
        if resolved(recs, chain + e) {
            lemma_resolved_step(recs, chain, e);
            let j = choose|j: int| is_reply(recs, chain, k, j);
            assert(reply_before(recs, chain, k, recs.len() as int));
        }
    }
}

fn build_children(
    recs: &Vec<LemmynatorComment>,
    anc: &Vec<Option<Vec<i32>>>,
    chain: &Vec<i32>,
    bound: usize,
) -> (r: BTreeMap<i32, LemmynatorComment>)
    requires
        chains_of(recs@, anc@),
        chains_within(recs@, bound as nat),
        resolved(recs@, chain@),
        chain@.len() <= bound + 1,
    ensures
        builds(recs@, chain@, r@),
    decreases bound + 1 - chain@.len(),
{
    broadcast use vstd::laws_cmp::group_laws_cmp;

    let mut out: BTreeMap<i32, LemmynatorComment> = BTreeMap::new();
    let mut j: usize = 0;
    while j < recs.len()
        invariant
            chains_of(recs@, anc@),
            chains_within(recs@, bound as nat),
            resolved(recs@, chain@),
            chain@.len() <= bound + 1,
            0 <= j <= recs.len(),
            level_so_far(recs@, chain@, out@, j as int),
        decreases recs.len() - j,
    {
        let is_child = match &anc[j] {
            Some(a) => same_chain(a, chain),
            None => false,
        };
        assert(is_child == child_of(recs@[j as int], chain@)) by {
            assert(chain_view(anc@[j as int]) == ancestors_of(recs@[j as int].path@));
        }
        if is_child {
            let rec = &recs[j];
            let k = rec.id;
            let sub = pushed(chain, k);
            proof {
                assert(is_reply(recs@, chain@, k, j as int));
                lemma_resolved_push(recs@, chain@, k);
                assert(ancestors_of(recs@[j as int].path@) == Some(chain@));
            }
            let replies = build_children(recs, anc, &sub, bound);
            let node = LemmynatorComment {
                id: k,
                content: rec.content.clone(),
                author: copy_author(&rec.author),
                path: rec.path.clone(),
                replies,
            };
            proof {
                lemma_level_add(recs@, chain@, out@, j as int, node);
            }
            out.insert(k, node);
        } else {
            proof {
                lemma_level_skip(recs@, chain@, out@, j as int);
            }
        }
        j = j + 1;
    }
    proof {
        assert forall|e: Seq<i32>| e.len() > 0 implies (#[trigger] node_at(out@, e) is Some <==> resolved(recs@, chain@ + e)) && (node_at(out@, e) is Some ==> node_from_records(recs@, chain@, e, node_at(out@, e)->Some_0)) by {
            lemma_level_node(recs@, chain@, out@, e);
        }
    }
    out
}

/// The longest ancestor chain among the records.
fn longest_chain(anc: &Vec<Option<Vec<i32>>>) -> (r: usize)
    ensures
        forall|j: int| 0 <= j < anc.len() ==> (#[trigger] anc@[j] matches Some(a) ==> a.len() <= r),
{
    let mut best: usize = 0;
    let mut j: usize = 0;
    while j < anc.len()
        invariant
            0 <= j <= anc.len(),
            forall|j2: int| 0 <= j2 < j ==> (#[trigger] anc@[j2] matches Some(a) ==> a.len() <= best),
        decreases anc.len() - j,
    {
        match &anc[j] {
            Some(a) => {
                if a.len() > best {
                    best = a.len();
                }
            },
            None => {},
        }
        j = j + 1;
    }
    best
}

/// Two trees hold nodes at the same chains of ids, with the same data and
/// the same ids of replies.
pub open spec fn same_structure(t1: Map<i32, LemmynatorComment>, t2: Map<i32, LemmynatorComment>) -> bool {
    &&& t1.dom() == t2.dom()
    &&& forall|d: Seq<i32>| #[trigger] node_at(t1, d) is Some <==> node_at(t2, d) is Some
    &&& forall|d: Seq<i32>|
        #[trigger] node_at(t1, d) is Some ==> {
            let n1 = node_at(t1, d)->Some_0;
            let n2 = node_at(t2, d)->Some_0;
            same_data(n1, n2) && n1.replies@.dom() == n2.replies@.dom()
        }
}

/// Ids are unique over the list.
pub open spec fn unique_ids(recs: Seq<LemmynatorComment>) -> bool {
    forall|a: int, b: int| #![trigger recs[a], recs[b]] 0 <= a < b < recs.len() ==> recs[a].id != recs[b].id
}

/// Every comment's path is well formed and its whole ancestor chain is in the list.
pub open spec fn chains_present(recs: Seq<LemmynatorComment>) -> bool {
    forall|j: int|
        0 <= j < recs.len() ==> {
            &&& #[trigger] ancestors_of(recs[j].path@) is Some
            &&& resolved(recs, ancestors_of(recs[j].path@)->Some_0)
        }
}

/// The chain of ids at which a comment with a well-formed path stands: its
/// ancestors, then itself.
pub open spec fn position_of(c: LemmynatorComment) -> Seq<i32> {
    ancestors_of(c.path@)->Some_0.push(c.id)
}

/// Where every comment's ancestor chain is in the list and ids are unique,
/// the tree holds every comment exactly once: at the chain of ids that its
/// path gives, at the depth of its path, and nowhere else.
pub proof fn lemma_tree_complete(recs: Seq<LemmynatorComment>, roots: Map<i32, LemmynatorComment>)
    requires
        is_tree_of(recs, roots),
        chains_present(recs),
        unique_ids(recs),
    ensures
        forall|j: int|
            0 <= j < recs.len() ==> {
                &&& node_at(roots, #[trigger] position_of(recs[j])) is Some
                &&& same_data(node_at(roots, position_of(recs[j]))->Some_0, recs[j])
                &&& path_depth(recs[j].path@) == Some(position_of(recs[j]).len())
            },
        forall|d: Seq<i32>, j: int|
            0 <= j < recs.len() && #[trigger] node_at(roots, d) is Some && node_at(roots, d)->Some_0.id
                == #[trigger] recs[j].id ==> d == position_of(recs[j]),
{
    let empty = Seq::<i32>::empty();
    assert forall|j: int| 0 <= j < recs.len() implies {
        &&& node_at(roots, #[trigger] position_of(recs[j])) is Some
        &&& same_data(node_at(roots, position_of(recs[j]))->Some_0, recs[j])
        &&& path_depth(recs[j].path@) == Some(position_of(recs[j]).len())
    } by {
        let c = ancestors_of(recs[j].path@)->Some_0;
        let k = recs[j].id;
        let d = c.push(k);
        assert(is_reply(recs, c, k, j));
        lemma_resolved_push(recs, c, k);
        assert(empty + d =~= d);
        let n = node_at(roots, d)->Some_0;
        assert(node_from_records(recs, empty, d, n));
        assert(empty + d.drop_last() =~= c);
        let w = choose|w: int| last_reply(recs, empty + d.drop_last(), d.last(), w) && same_data(n, recs[w]);
        if w != j {
            if w < j {
                assert(recs[w].id != recs[j].id);
            } else {
                assert(recs[j].id != recs[w].id);
            }
        }
    }
    assert forall|d: Seq<i32>, j: int|
        0 <= j < recs.len() && #[trigger] node_at(roots, d) is Some && node_at(roots, d)->Some_0.id
            == #[trigger] recs[j].id implies d == position_of(recs[j]) by {
        let n = node_at(roots, d)->Some_0;
        assert(node_from_records(recs, empty, d, n));
        assert(empty + d.drop_last() =~= d.drop_last());
        let w = choose|w: int| last_reply(recs, empty + d.drop_last(), d.last(), w) && same_data(n, recs[w]);
        if w != j {
            if w < j {
                assert(recs[w].id != recs[j].id);
            } else {
                assert(recs[j].id != recs[w].id);
            }
        }
        assert(d =~= d.drop_last().push(d.last()));
    }
}

/// The node at `d.push(k)` is the reply with id `k` of the node at `d`.
proof fn lemma_node_at_push(nodes: Map<i32, LemmynatorComment>, d: Seq<i32>, k: i32)
    requires
        d.len() > 0,
        node_at(nodes, d) is Some,
    ensures
        node_at(nodes, d.push(k)) == node_at(node_at(nodes, d)->Some_0.replies@, seq![k]),
    decreases d.len(),
{
    let e = d.push(k);
    assert(e[0] == d[0]);
    if d.len() > 1 {
        assert(e.skip(1) =~= d.skip(1).push(k));
        lemma_node_at_push(nodes[d[0]].replies@, d.skip(1), k);
    } else {
        assert(e.skip(1) =~= seq![k]);
    }
}

/// A reply with id `k` is among `nodes` exactly when the node at `[k]` exists.
proof fn lemma_member_single(nodes: Map<i32, LemmynatorComment>, k: i32)
    ensures
        nodes.contains_key(k) <==> node_at(nodes, seq![k]) is Some,
{
    assert(seq![k][0] == k);
}

/// Building the tree of one list twice gives the same structure: the tree
/// depends on the list alone.
pub proof fn lemma_tree_deterministic(
    recs: Seq<LemmynatorComment>,
    t1: Map<i32, LemmynatorComment>,
    t2: Map<i32, LemmynatorComment>,
)
    requires
        is_tree_of(recs, t1),
        is_tree_of(recs, t2),
    ensures
        same_structure(t1, t2),
{
    let empty = Seq::<i32>::empty();
    assert forall|d: Seq<i32>| #[trigger] node_at(t1, d) is Some <==> node_at(t2, d) is Some by {
        if d.len() > 0 {
            assert(node_at(t1, d) is Some <==> resolved(recs, empty + d));
            assert(node_at(t2, d) is Some <==> resolved(recs, empty + d));
        }
    }
    assert forall|k: i32| #[trigger] t1.dom().contains(k) <==> t2.dom().contains(k) by {
        lemma_member_single(t1, k);
        lemma_member_single(t2, k);
        assert(node_at(t1, seq![k]) is Some <==> node_at(t2, seq![k]) is Some);
    }
    assert(t1.dom() =~= t2.dom());
    assert forall|d: Seq<i32>| #[trigger] node_at(t1, d) is Some implies {
        let n1 = node_at(t1, d)->Some_0;
        let n2 = node_at(t2, d)->Some_0;
        same_data(n1, n2) && n1.replies@.dom() == n2.replies@.dom()
    } by {
        let n1 = node_at(t1, d)->Some_0;
        let n2 = node_at(t2, d)->Some_0;
        assert(node_at(t2, d) is Some);
        assert(node_from_records(recs, empty, d, n1));
        assert(node_from_records(recs, empty, d, n2));
        let c = empty + d.drop_last();
        let w1 = choose|w: int| last_reply(recs, c, d.last(), w) && same_data(n1, recs[w]);
        let w2 = choose|w: int| last_reply(recs, c, d.last(), w) && same_data(n2, recs[w]);
        if w1 < w2 {
            assert(!is_reply(recs, c, d.last(), w2));
        } else if w2 < w1 {
            assert(!is_reply(recs, c, d.last(), w1));
        }
        assert forall|k: i32| #[trigger] n1.replies@.dom().contains(k) <==> n2.replies@.dom().contains(k) by {
            assert(d.len() > 0);
            lemma_node_at_push(t1, d, k);
            lemma_node_at_push(t2, d, k);
            lemma_member_single(n1.replies@, k);
            lemma_member_single(n2.replies@, k);
            assert(node_at(t1, d.push(k)) is Some <==> node_at(t2, d.push(k)) is Some);
        }
        assert(n1.replies@.dom() =~= n2.replies@.dom());
    }
}

impl LemmynatorPostComments {
    /// Builds the reply tree of a flat list of comments. A comment goes
    /// under the comment that its path names as its parent, whatever the
    /// order of the list; one whose path is malformed, or whose parent is
    /// missing from the tree, is left out. Where an id repeats under one
    /// parent, the later comment wins. The replies of each comment in the
    /// list are ignored.
    pub fn from_comments(comments: &Vec<LemmynatorComment>) -> (r: LemmynatorPostComments)
        ensures
            is_tree_of(comments@, r.comments@),
    {
        let mut anc: Vec<Option<Vec<i32>>> = Vec::new();
        let mut j: usize = 0;
        while j < comments.len()
            invariant
                0 <= j <= comments.len(),
                anc.len() == j,
                forall|j2: int| 0 <= j2 < j ==> chain_view(#[trigger] anc@[j2]) == ancestors_of(comments@[j2].path@),
            decreases comments.len() - j,
        {
            anc.push(ancestor_chain(comments[j].path.as_str()));
            j = j + 1;
        }
        let bound = longest_chain(&anc);
        proof {
            assert forall|j2: int| 0 <= j2 < comments.len() implies (#[trigger] ancestors_of(comments@[j2].path@) matches Some(a) ==> a.len() <= bound) by {
                assert(chain_view(anc@[j2]) == ancestors_of(comments@[j2].path@));
            }
        }
        let root: Vec<i32> = Vec::new();
        proof {
            assert(resolved(comments@, root@));
        }
        let roots = build_children(comments, &anc, &root, bound);
        assert(root@ =~= Seq::<i32>::empty());
        LemmynatorPostComments { comments: roots }
    }
}

} // verus!
