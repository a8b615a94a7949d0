//! Which local components are new or modified with respect to a remote catalog.
use vstd::prelude::*;
use crate::catalog::Catalog;

verus! {

/// A local component is kept when the remote side lacks its name or holds
/// other text under it. Text is compared exactly, character for character.
pub open spec fn is_changed(
    local: Map<Seq<char>, Seq<char>>,
    remote: Map<Seq<char>, Seq<char>>,
    k: Seq<char>,
) -> bool {
    local.contains_key(k) && (!remote.contains_key(k) || remote[k] != local[k])
}

/// The local components that are new or modified, unchanged.
pub open spec fn diff_spec(
    local: Map<Seq<char>, Seq<char>>,
    remote: Map<Seq<char>, Seq<char>>,
) -> Map<Seq<char>, Seq<char>> {
    Map::new(|k: Seq<char>| is_changed(local, remote, k), |k: Seq<char>| local[k])
}

/// The components of `local` that `remote` lacks or holds with other content.
pub fn diff(local: &Catalog, remote: &Catalog) -> (r: Catalog)
    requires
        local.wf(),
        remote.wf(),
    ensures
        r.wf(),
        r@ == diff_spec(local@, remote@),
{
    let names = local.names();
    let ghost l = local@;
    let ghost rm = remote@;
    let ghost ns = names@.map_values(|s: String| s@);
    let mut out = Catalog::new();
    let mut i: usize = 0;
    while i < names.len()
        invariant
            l == local@,
            rm == remote@,
            local.wf(),
            remote.wf(),
            out.wf(),
            i <= names@.len(),
            ns == names@.map_values(|s: String| s@),
            forall|j: int| 0 <= j < names@.len() ==> l.contains_key(#[trigger] names@[j]@),
            out@ == Map::new(
                |k: Seq<char>| ns.subrange(0, i as int).contains(k) && is_changed(l, rm, k),
                |k: Seq<char>| l[k],
            ),
        decreases names@.len() - i,
    {
        let name = &names[i];
        let ghost k = name@;
        assert(l.contains_key(names@[i as int]@));
        let content = local.get(name.as_str()).unwrap();
        let changed = match remote.get(name.as_str()) {
            Some(theirs) => *theirs != *content,
            None => true,
        };
        let ghost prev = out@;
        if changed {
            out.insert(name.clone(), content.clone());
        }
        proof {
            let pre = ns.subrange(0, i as int);
            let post = ns.subrange(0, i as int + 1);
            assert(post =~= pre.push(k));
            assert forall|x: Seq<char>| #[trigger] post.contains(x) <==> pre.contains(x) || x == k by {
                if post.contains(x) {
                    let j = choose|j: int| 0 <= j < post.len() && post[j] == x;
                    if j < pre.len() {
                        assert(pre[j] == x);
                    }
                }
                if pre.contains(x) {
                    let j = choose|j: int| 0 <= j < pre.len() && pre[j] == x;
                    assert(post[j] == x);
                }
                if x == k {
                    assert(post[i as int] == x);
                }
            }
            assert(out@ =~= Map::new(
                |x: Seq<char>| post.contains(x) && is_changed(l, rm, x),
                |x: Seq<char>| l[x],
            ));
        }
        i = i + 1;
    }
    proof {
        assert(ns.subrange(0, names@.len() as int) =~= ns);
        assert forall|x: Seq<char>| #[trigger] ns.contains(x) <==> l.contains_key(x) by {
            if ns.contains(x) {
                let j = choose|j: int| 0 <= j < ns.len() && ns[j] == x;
                assert(l.contains_key(names@[j]@));
            }
            if l.contains_key(x) {
                let j = choose|j: int| 0 <= j < names@.len() && names@[j]@ == x;
                assert(ns[j] == x);
            }
        }
        assert(out@ =~= diff_spec(l, rm));
    }
    out
}

/// The result of a diff holds only local components, each with its local
/// content: nothing is introduced and nothing is altered.
pub proof fn lemma_diff_within_local(local: Map<Seq<char>, Seq<char>>, remote: Map<Seq<char>, Seq<char>>)
    ensures
        diff_spec(local, remote).submap_of(local),
{
}

/// Against an empty remote catalog every local component is new.
pub proof fn lemma_diff_empty_remote(local: Map<Seq<char>, Seq<char>>)
    ensures
        diff_spec(local, Map::empty()) == local,
{
    assert(diff_spec(local, Map::empty()) =~= local);
}

/// A catalog compared with itself has no difference.
pub proof fn lemma_diff_self(local: Map<Seq<char>, Seq<char>>)
    ensures
        diff_spec(local, local) == Map::<Seq<char>, Seq<char>>::empty(),
{
    assert(diff_spec(local, local) =~= Map::<Seq<char>, Seq<char>>::empty());
}

/// A component present on both sides is in the result exactly when its two
/// contents differ.
pub proof fn lemma_diff_shared_name(
    local: Map<Seq<char>, Seq<char>>,
    remote: Map<Seq<char>, Seq<char>>,
    x: Seq<char>,
)
    requires
        local.contains_key(x),
        remote.contains_key(x),
    ensures
        local[x] != remote[x] ==> diff_spec(local, remote).contains_key(x),
        local[x] == remote[x] ==> !diff_spec(local, remote).contains_key(x),
{
}

} // verus!
