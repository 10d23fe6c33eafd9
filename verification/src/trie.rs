use vstd::prelude::*;

verus! {

/// Key components that a `Trie` can be indexed by: components are compared
/// and copied by their views.
pub trait TrieKey: Sized + View {
    fn same_key(&self, other: &Self) -> (same: bool)
        ensures
            same == (self@ == other@),
    ;

    fn copy_key(&self) -> (copy: Self)
        ensures
            copy@ == self@,
    ;
}

impl TrieKey for u8 {
    fn same_key(&self, other: &Self) -> (same: bool) {
        *self == *other
    }

    fn copy_key(&self) -> (copy: Self) {
        *self
    }
}

impl TrieKey for char {
    fn same_key(&self, other: &Self) -> (same: bool) {
        *self == *other
    }

    fn copy_key(&self) -> (copy: Self) {
        *self
    }
}

impl TrieKey for String {
    fn same_key(&self, other: &Self) -> (same: bool) {
        *self == *other
    }

    fn copy_key(&self) -> (copy: Self) {
        self.clone()
    }
}

/// An entry of a trie directory: either a value, or the index of a nested
/// directory.
#[derive(Debug)]
enum Node<V> {
    Value(V),
    DirIndex(usize),
}

/// A trie "directory" as a sequence of (component, node) entries.
type DirModel<K, V> = Seq<(K, Node<V>)>;

spec fn has_key<K: View, V>(dir: DirModel<K, V>, k: K::V) -> bool {
    exists|j: int| #![trigger dir[j]] 0 <= j < dir.len() && dir[j].0@ == k
}

spec fn key_index<K: View, V>(dir: DirModel<K, V>, k: K::V) -> int {
    choose|j: int| #![trigger dir[j]] 0 <= j < dir.len() && dir[j].0@ == k
}

spec fn node_at<K: View, V>(dir: DirModel<K, V>, k: K::V) -> Option<Node<V>> {
    if has_key(dir, k) {
        Some(dir[key_index(dir, k)].1)
    } else {
        None
    }
}

spec fn distinct_keys<K: View, V>(dir: DirModel<K, V>) -> bool {
    forall|i: int, j: int|
        #![trigger dir[i], dir[j]]
        0 <= i < dir.len() && 0 <= j < dir.len() && i != j ==> dir[i].0@ != dir[j].0@
}

spec fn is_value<V>(n: Option<Node<V>>) -> bool {
    n matches Some(Node::Value(_))
}

spec fn is_dir<V>(n: Option<Node<V>>) -> bool {
    n matches Some(Node::DirIndex(_))
}

spec fn value_of<V>(n: Option<Node<V>>) -> V {
    match n {
        Some(Node::Value(v)) => v,
        _ => arbitrary(),
    }
}

/// The node found by following `p` from directory `d`.
spec fn lookup<K: View, V>(dirs: Seq<DirModel<K, V>>, d: int, p: Seq<K::V>) -> Option<Node<V>>
    decreases p.len(),
{
    if p.len() == 0 {
        None
    } else {
        match node_at(dirs[d], p[0]) {
            None => None,
            Some(n) => if p.len() == 1 {
                Some(n)
            } else {
                match n {
                    Node::DirIndex(i) => lookup(dirs, i as int, p.drop_first()),
                    Node::Value(_) => None,
                }
            },
        }
    }
}

/// The directory that component `k` leads to from directory `d`, if any.
spec fn step<K: View, V>(dirs: Seq<DirModel<K, V>>, d: int, k: K::V) -> Option<int> {
    match node_at(dirs[d], k) {
        Some(Node::DirIndex(i)) => Some(i as int),
        _ => None,
    }
}

/// The directory reached by following `p` from directory `d`, if any.
spec fn reach<K: View, V>(dirs: Seq<DirModel<K, V>>, d: int, p: Seq<K::V>) -> Option<int>
    decreases p.len(),
{
    if p.len() == 0 {
        Some(d)
    } else {
        match step(dirs, d, p[0]) {
            Some(i) => reach(dirs, i, p.drop_first()),
            None => None,
        }
    }
}

spec fn child_ok<K: View, V>(
    dirs: Seq<DirModel<K, V>>,
    paths: Seq<Seq<K::V>>,
    d: int,
    j: int,
) -> bool {
    match dirs[d][j].1 {
        Node::DirIndex(i) => i < dirs.len() && paths[i as int] == paths[d].push(dirs[d][j].0@),
        Node::Value(_) => true,
    }
}

/// Well-formedness of the directory arena: `paths[e]` is the component path
/// that leads from the root to directory `e`.
spec fn wf_model<K: View, V>(dirs: Seq<DirModel<K, V>>, paths: Seq<Seq<K::V>>) -> bool {
    &&& dirs.len() >= 1
    &&& paths.len() == dirs.len()
    &&& paths[0] == Seq::<K::V>::empty()
    &&& forall|d: int| 0 <= d < dirs.len() ==> distinct_keys(#[trigger] dirs[d])
    &&& forall|d: int, j: int|
        #![trigger dirs[d][j]]
        0 <= d < dirs.len() && 0 <= j < dirs[d].len() ==> child_ok(dirs, paths, d, j)
    &&& forall|e: int| 0 <= e < dirs.len() ==> reach(dirs, 0, #[trigger] paths[e]) == Some(e)
}

proof fn lemma_node_at_index<K: View, V>(dir: DirModel<K, V>, j: int)
    requires
        distinct_keys(dir),
        0 <= j < dir.len(),
    ensures
        has_key(dir, dir[j].0@),
        key_index(dir, dir[j].0@) == j,
        node_at(dir, dir[j].0@) == Some(dir[j].1),
{
    let k = dir[j].0@;
    assert(has_key(dir, k));
    let i = key_index(dir, k);
    assert(dir[i].0@ == k);
}

proof fn lemma_node_at_push<K: View, V>(dir: DirModel<K, V>, kk: K, n: Node<V>)
    requires
        distinct_keys(dir),
        !has_key(dir, kk@),
    ensures
        distinct_keys(dir.push((kk, n))),
        node_at(dir.push((kk, n)), kk@) == Some(n),
        forall|k: K::V| k != kk@ ==> node_at(dir.push((kk, n)), k) == node_at(dir, k),
{
    let dir2 = dir.push((kk, n));
    assert forall|i: int, j: int|
        #![trigger dir2[i], dir2[j]]
        0 <= i < dir2.len() && 0 <= j < dir2.len() && i != j implies dir2[i].0@ != dir2[j].0@ by {
        if i < dir.len() && j < dir.len() {
            assert(dir2[i] == dir[i] && dir2[j] == dir[j]);
        } else if i < dir.len() {
            assert(dir2[i] == dir[i]);
        } else {
            assert(dir2[j] == dir[j]);
        }
    }
    lemma_node_at_index(dir2, dir.len() as int);
    assert forall|k: K::V| k != kk@ implies node_at(dir2, k) == node_at(dir, k) by {
        if has_key(dir, k) {
            let i = key_index(dir, k);
            lemma_node_at_index(dir, i);
            assert(dir2[i] == dir[i]);
            lemma_node_at_index(dir2, i);
        } else {
            if has_key(dir2, k) {
                let i = key_index(dir2, k);
                assert(dir2[i].0@ == k);
                assert(i < dir.len());
                assert(dir2[i] == dir[i]);
                assert(has_key(dir, k));
            }
        }
    }
}

proof fn lemma_node_at_update<K: View, V>(dir: DirModel<K, V>, j: int, kk: K, n: Node<V>)
    requires
        distinct_keys(dir),
        0 <= j < dir.len(),
        dir[j].0@ == kk@,
    ensures
        distinct_keys(dir.update(j, (kk, n))),
        node_at(dir.update(j, (kk, n)), kk@) == Some(n),
        forall|k: K::V| k != kk@ ==> node_at(dir.update(j, (kk, n)), k) == node_at(dir, k),
{
    let dir2 = dir.update(j, (kk, n));
    assert forall|a: int, b: int|
        #![trigger dir2[a], dir2[b]]
        0 <= a < dir2.len() && 0 <= b < dir2.len() && a != b implies dir2[a].0@ != dir2[b].0@ by {
        assert(dir[a].0@ == dir2[a].0@);
        assert(dir[b].0@ == dir2[b].0@);
    }
    lemma_node_at_index(dir2, j);
    assert forall|k: K::V| k != kk@ implies node_at(dir2, k) == node_at(dir, k) by {
        if has_key(dir, k) {
            let i = key_index(dir, k);
            lemma_node_at_index(dir, i);
            assert(i != j);
            assert(dir2[i] == dir[i]);
            lemma_node_at_index(dir2, i);
        } else {
            if has_key(dir2, k) {
                let i = key_index(dir2, k);
                assert(dir2[i].0@ == k);
                assert(i != j);
                assert(dir2[i] == dir[i]);
                assert(has_key(dir, k));
            }
        }
    }
}

/// Following `a + b` is following `a`, then `b`.
proof fn lemma_reach_concat<K: View, V>(
    dirs: Seq<DirModel<K, V>>,
    d: int,
    a: Seq<K::V>,
    b: Seq<K::V>,
)
    ensures
        reach(dirs, d, a + b) == match reach(dirs, d, a) {
            Some(e) => reach(dirs, e, b),
            None => None,
        },
    decreases a.len(),
{
    if a.len() == 0 {
        assert(a + b =~= b);
    } else {
        assert((a + b)[0] == a[0]);
        assert((a + b).drop_first() =~= a.drop_first() + b);
        match step(dirs, d, a[0]) {
            Some(i) => {
                lemma_reach_concat(dirs, i, a.drop_first(), b);
            },
            None => {},
        }
    }
}

proof fn lemma_reach_push<K: View, V>(dirs: Seq<DirModel<K, V>>, d: int, a: Seq<K::V>, k: K::V)
    ensures
        reach(dirs, d, a.push(k)) == match reach(dirs, d, a) {
            Some(e) => step(dirs, e, k),
            None => None,
        },
{
    assert(a.push(k) =~= a + seq![k]);
    lemma_reach_concat(dirs, d, a, seq![k]);
    match reach(dirs, d, a) {
        Some(e) => {
            let s = seq![k];
            assert(s[0] == k);
            assert(s.drop_first() =~= Seq::<K::V>::empty());
            match step(dirs, e, k) {
                Some(i) => {
                    assert(reach(dirs, i, s.drop_first()) == Some(i));
                },
                None => {},
            }
        },
        None => {},
    }
}

/// A non-empty path is looked up by reaching the directory of its parent.
proof fn lemma_lookup_via_reach<K: View, V>(dirs: Seq<DirModel<K, V>>, d: int, p: Seq<K::V>)
    requires
        p.len() >= 1,
    ensures
        lookup(dirs, d, p) == match reach(dirs, d, p.drop_last()) {
            Some(e) => node_at(dirs[e], p.last()),
            None => None,
        },
    decreases p.len(),
{
    if p.len() == 1 {
        assert(p.drop_last() =~= Seq::<K::V>::empty());
    } else {
        let q = p.drop_first();
        assert(p.drop_last()[0] == p[0]);
        assert(p.drop_last().drop_first() =~= q.drop_last());
        assert(q.last() == p.last());
        match node_at(dirs[d], p[0]) {
            Some(Node::DirIndex(i)) => {
                lemma_lookup_via_reach(dirs, i as int, q);
            },
            _ => {},
        }
    }
}

/// Reaching a directory from `d` by `p` means the directory's path is `d`'s
/// path followed by `p`.
proof fn lemma_reach_paths<K: View, V>(
    dirs: Seq<DirModel<K, V>>,
    paths: Seq<Seq<K::V>>,
    d: int,
    p: Seq<K::V>,
)
    requires
        wf_model(dirs, paths),
        0 <= d < dirs.len(),
    ensures
        reach(dirs, d, p) matches Some(e) ==> 0 <= e < dirs.len() && paths[e] == paths[d] + p,
    decreases p.len(),
{
    if p.len() == 0 {
        assert(paths[d] + p =~= paths[d]);
    } else {
        match step(dirs, d, p[0]) {
            Some(i) => {
                let j = key_index(dirs[d], p[0]);
                assert(dirs[d][j].0@ == p[0]);
                assert(child_ok(dirs, paths, d, j));
                lemma_reach_paths(dirs, paths, i, p.drop_first());
                assert(paths[d].push(p[0]) + p.drop_first() =~= paths[d] + p);
            },
            None => {},
        }
    }
}

/// The directory at a path is the unique directory with that path.
proof fn lemma_paths_injective<K: View, V>(
    dirs: Seq<DirModel<K, V>>,
    paths: Seq<Seq<K::V>>,
    a: int,
    b: int,
)
    requires
        wf_model(dirs, paths),
        0 <= a < dirs.len(),
        0 <= b < dirs.len(),
        paths[a] == paths[b],
    ensures
        a == b,
{
    assert(reach(dirs, 0, paths[a]) == Some(a));
    assert(reach(dirs, 0, paths[b]) == Some(b));
}

/// Adding a new component that leads to a new, empty directory leaves every
/// value in place and adds one directory path.
proof fn lemma_add_dir<K: View, V>(
    dirs: Seq<DirModel<K, V>>,
    paths: Seq<Seq<K::V>>,
    d: int,
    kk: K,
)
    requires
        wf_model(dirs, paths),
        0 <= d < dirs.len(),
        !has_key(dirs[d], kk@),
        dirs.len() < usize::MAX,
    ensures
        ({
            let n = dirs.len() as int;
            let dirs2 = dirs.update(d, dirs[d].push((kk, Node::DirIndex(n as usize)))).push(
                Seq::empty(),
            );
            let paths2 = paths.push(paths[d].push(kk@));
            &&& wf_model(dirs2, paths2)
            &&& forall|p: Seq<K::V>|
                #![trigger lookup(dirs2, 0, p)]
                (is_value(lookup(dirs2, 0, p)) ==> lookup(dirs2, 0, p) == lookup(dirs, 0, p)) && (
                is_value(lookup(dirs, 0, p)) ==> lookup(dirs2, 0, p) == lookup(dirs, 0, p)) && (
                is_dir(lookup(dirs2, 0, p)) <==> (is_dir(lookup(dirs, 0, p)) || p == paths[d].push(
                    kk@,
                )))
        }),
{
    let n = dirs.len() as int;
    let k = kk@;
    let newdir = dirs[d].push((kk, Node::DirIndex(n as usize)));
    let dirs2 = dirs.update(d, newdir).push(Seq::empty());
    let paths2 = paths.push(paths[d].push(k));
    lemma_node_at_push(dirs[d], kk, Node::DirIndex(n as usize));
    assert forall|e: int| 0 <= e < n implies #[trigger] dirs2[e] == (if e == d {
        newdir
    } else {
        dirs[e]
    }) by {}
    assert(dirs2[n] == Seq::<(K, Node<V>)>::empty());
    // Every step taken before is still taken.
    assert forall|e: int, c: K::V| 0 <= e < n && #[trigger] step(dirs, e, c) is Some implies step(
        dirs2,
        e,
        c,
    ) == step(dirs, e, c) by {
        if e == d {
            assert(c != k);
        }
    }
    // A step not taken before is either still not taken or leads to `n`.
    assert forall|e: int, c: K::V| 0 <= e < n && #[trigger] step(dirs, e, c) is None implies (step(
        dirs2,
        e,
        c,
    ) is None || (e == d && c == k && step(dirs2, e, c) == Some(n))) by {
        if e == d && c != k {
        }
    }
    assert forall|c: K::V| #[trigger] step(dirs2, n, c) is None by {}
    assert forall|e: int, q: Seq<K::V>|
        0 <= e < n && #[trigger] reach(dirs, e, q) is Some implies reach(dirs2, e, q) == reach(
        dirs,
        e,
        q,
    ) by {
        lemma_reach_mono(dirs, paths, dirs2, n, e, q);
    }
    assert forall|e: int, q: Seq<K::V>|
        0 <= e < n && #[trigger] reach(dirs, e, q) is None implies (reach(dirs2, e, q) is None
        || reach(dirs2, e, q) == Some(n)) by {
        lemma_reach_fresh(dirs, paths, dirs2, n, d, k, e, q);
    }
    // Well-formedness.
    assert forall|e: int| 0 <= e < dirs2.len() implies distinct_keys(#[trigger] dirs2[e]) by {
        if e < n {
        }
    }
    assert forall|e: int, j: int|
        #![trigger dirs2[e][j]]
        0 <= e < dirs2.len() && 0 <= j < dirs2[e].len() implies child_ok(dirs2, paths2, e, j) by {
        if e < n {
            if e == d && j == dirs[d].len() {
                assert(dirs2[e][j] == (kk, Node::<V>::DirIndex(n as usize)));
            } else {
                assert(dirs2[e][j] == dirs[e][j]);
                assert(child_ok(dirs, paths, e, j));
            }
        }
    }
    assert forall|e: int| 0 <= e < dirs2.len() implies reach(dirs2, 0, #[trigger] paths2[e]) == Some(
        e,
    ) by {
        if e < n {
            assert(paths2[e] == paths[e]);
            assert(reach(dirs, 0, paths[e]) == Some(e));
        } else {
            assert(reach(dirs, 0, paths[d]) == Some(d));
            lemma_reach_push(dirs2, 0, paths[d], k);
        }
    }
    assert(wf_model(dirs2, paths2));
    // Lookups.
    assert forall|p: Seq<K::V>|
        #![trigger lookup(dirs2, 0, p)]
        (is_value(lookup(dirs2, 0, p)) ==> lookup(dirs2, 0, p) == lookup(dirs, 0, p)) && (is_value(
            lookup(dirs, 0, p),
        ) ==> lookup(dirs2, 0, p) == lookup(dirs, 0, p)) && (is_dir(lookup(dirs2, 0, p)) <==> (
        is_dir(lookup(dirs, 0, p)) || p == paths[d].push(k))) by {
        if p.len() >= 1 {
            lemma_lookup_via_reach(dirs, 0, p);
            lemma_lookup_via_reach(dirs2, 0, p);
            let q = p.drop_last();
            match reach(dirs, 0, q) {
                Some(x) => {
                    lemma_reach_paths(dirs, paths, 0, q);
                    assert(paths[0] + q =~= q);
                    if x == d && p.last() == k {
                        assert(p =~= paths[d].push(k));
                    } else if x == d {
                        if p == paths[d].push(k) {
                            assert(p.last() == k);
                        }
                    } else {
                        if p == paths[d].push(k) {
                            assert(q =~= paths[d]);
                            lemma_paths_injective(dirs, paths, x, d);
                        }
                    }
                },
                None => {
                    if p == paths[d].push(k) {
                        assert(q =~= paths[d]);
                        assert(reach(dirs, 0, paths[d]) == Some(d));
                    }
                },
            }
        } else {
            assert(p != paths[d].push(k));
        }
    }
}

/// Every step taken in `dirs` is taken in `dirs2`, so every reach is kept.
proof fn lemma_reach_mono<K: View, V>(
    dirs: Seq<DirModel<K, V>>,
    paths: Seq<Seq<K::V>>,
    dirs2: Seq<DirModel<K, V>>,
    n: int,
    e: int,
    q: Seq<K::V>,
)
    requires
        wf_model(dirs, paths),
        n == dirs.len(),
        0 <= e < n,
        forall|e: int, c: K::V|
            0 <= e < n && #[trigger] step(dirs, e, c) is Some ==> step(dirs2, e, c) == step(
                dirs,
                e,
                c,
            ),
        reach(dirs, e, q) is Some,
    ensures
        reach(dirs2, e, q) == reach(dirs, e, q),
    decreases q.len(),
{
    if q.len() > 0 {
        let i = step(dirs, e, q[0]).unwrap();
        let j = key_index(dirs[e], q[0]);
        assert(dirs[e][j].0@ == q[0]);
        assert(child_ok(dirs, paths, e, j));
        lemma_reach_mono(dirs, paths, dirs2, n, i, q.drop_first());
    }
}

/// A reach that fails in `dirs` fails in `dirs2` or ends at the fresh, empty
/// directory `n`.
proof fn lemma_reach_fresh<K: View, V>(
    dirs: Seq<DirModel<K, V>>,
    paths: Seq<Seq<K::V>>,
    dirs2: Seq<DirModel<K, V>>,
    n: int,
    d: int,
    k: K::V,
    e: int,
    q: Seq<K::V>,
)
    requires
        wf_model(dirs, paths),
        n == dirs.len(),
        0 <= e < n,
        forall|e: int, c: K::V|
            0 <= e < n && #[trigger] step(dirs, e, c) is Some ==> step(dirs2, e, c) == step(
                dirs,
                e,
                c,
            ),
        forall|e: int, c: K::V|
            0 <= e < n && #[trigger] step(dirs, e, c) is None ==> (step(dirs2, e, c) is None || (e
                == d && c == k && step(dirs2, e, c) == Some(n))),
        forall|c: K::V| #[trigger] step(dirs2, n, c) is None,
        reach(dirs, e, q) is None,
    ensures
        reach(dirs2, e, q) is None || reach(dirs2, e, q) == Some(n),
    decreases q.len(),
{
    if q.len() > 0 {
        match step(dirs, e, q[0]) {
            Some(i) => {
                let j = key_index(dirs[e], q[0]);
                assert(dirs[e][j].0@ == q[0]);
                assert(child_ok(dirs, paths, e, j));
                lemma_reach_fresh(dirs, paths, dirs2, n, d, k, i, q.drop_first());
            },
            None => {
                let r = q.drop_first();
                if step(dirs2, e, q[0]) == Some(n) {
                    if r.len() > 0 {
                        assert(step(dirs2, n, r[0]) is None);
                        assert(reach(dirs2, n, r) is None);
                    } else {
                        assert(reach(dirs2, n, r) == Some(n));
                    }
                    assert(reach(dirs2, e, q) == reach(dirs2, n, r));
                } else {
                    assert(step(dirs2, e, q[0]) is None);
                    assert(reach(dirs2, e, q) is None);
                }
            },
        }
    }
}

/// Placing a value at component `kk` of directory `d` (where no directory
/// was) sets the value at `paths[d] + [kk]` and changes nothing else.
proof fn lemma_set_value<K: View, V>(
    dirs: Seq<DirModel<K, V>>,
    paths: Seq<Seq<K::V>>,
    d: int,
    kk: K,
    v: V,
    newdir: DirModel<K, V>,
)
    requires
        wf_model(dirs, paths),
        0 <= d < dirs.len(),
        !is_dir(node_at(dirs[d], kk@)),
        newdir == if has_key(dirs[d], kk@) {
            dirs[d].update(key_index(dirs[d], kk@), (kk, Node::Value(v)))
        } else {
            dirs[d].push((kk, Node::Value(v)))
        },
    ensures
        ({
            let dirs2 = dirs.update(d, newdir);
            &&& wf_model(dirs2, paths)
            &&& forall|p: Seq<K::V>|
                #[trigger] lookup(dirs2, 0, p) == if p == paths[d].push(kk@) {
                    Some(Node::Value(v))
                } else {
                    lookup(dirs, 0, p)
                }
        }),
{
    let k = kk@;
    let n = dirs.len() as int;
    let dirs2 = dirs.update(d, newdir);
    if has_key(dirs[d], k) {
        let j = key_index(dirs[d], k);
        assert(dirs[d][j].0@ == k);
        lemma_node_at_update(dirs[d], j, kk, Node::Value(v));
    } else {
        lemma_node_at_push(dirs[d], kk, Node::Value(v));
    }
    assert forall|e: int, c: K::V| 0 <= e < n implies #[trigger] step(dirs2, e, c) == step(
        dirs,
        e,
        c,
    ) by {
        if e != d {
            assert(dirs2[e] == dirs[e]);
        }
    }
    assert forall|e: int, q: Seq<K::V>| 0 <= e < n implies #[trigger] reach(dirs2, e, q) == reach(
        dirs,
        e,
        q,
    ) by {
        lemma_reach_same(dirs, paths, dirs2, e, q);
    }
    assert forall|e: int| 0 <= e < dirs2.len() implies distinct_keys(#[trigger] dirs2[e]) by {
        if e != d {
            assert(dirs2[e] == dirs[e]);
        }
    }
    assert forall|e: int, j: int|
        #![trigger dirs2[e][j]]
        0 <= e < dirs2.len() && 0 <= j < dirs2[e].len() implies child_ok(dirs2, paths, e, j) by {
        if e != d {
            assert(dirs2[e] == dirs[e]);
            assert(child_ok(dirs, paths, e, j));
        } else if has_key(dirs[d], k) {
            if j != key_index(dirs[d], k) {
                assert(dirs2[e][j] == dirs[e][j]);
                assert(child_ok(dirs, paths, e, j));
            }
        } else {
            if j < dirs[d].len() {
                assert(dirs2[e][j] == dirs[e][j]);
                assert(child_ok(dirs, paths, e, j));
            }
        }
    }
    assert forall|e: int| 0 <= e < dirs2.len() implies reach(dirs2, 0, #[trigger] paths[e]) == Some(
        e,
    ) by {
        assert(reach(dirs, 0, paths[e]) == Some(e));
    }
    assert forall|p: Seq<K::V>|
        #[trigger] lookup(dirs2, 0, p) == if p == paths[d].push(k) {
            Some(Node::Value(v))
        } else {
            lookup(dirs, 0, p)
        } by {
        if p.len() >= 1 {
            lemma_lookup_via_reach(dirs, 0, p);
            lemma_lookup_via_reach(dirs2, 0, p);
            let q = p.drop_last();
            match reach(dirs, 0, q) {
                Some(x) => {
                    lemma_reach_paths(dirs, paths, 0, q);
                    assert(paths[0] + q =~= q);
                    if x == d && p.last() == k {
                        assert(p =~= paths[d].push(k));
                    } else if x == d {
                        if p == paths[d].push(k) {
                            assert(p.last() == k);
                        }
                    } else {
                        assert(dirs2[x] == dirs[x]);
                        if p == paths[d].push(k) {
                            assert(q =~= paths[d]);
                            lemma_paths_injective(dirs, paths, x, d);
                        }
                    }
                },
                None => {
                    if p == paths[d].push(k) {
                        assert(q =~= paths[d]);
                        assert(reach(dirs, 0, paths[d]) == Some(d));
                    }
                },
            }
        } else {
            assert(p != paths[d].push(k));
        }
    }
}

proof fn lemma_reach_same<K: View, V>(
    dirs: Seq<DirModel<K, V>>,
    paths: Seq<Seq<K::V>>,
    dirs2: Seq<DirModel<K, V>>,
    e: int,
    q: Seq<K::V>,
)
    requires
        wf_model(dirs, paths),
        0 <= e < dirs.len(),
        forall|e: int, c: K::V|
            0 <= e < dirs.len() ==> #[trigger] step(dirs2, e, c) == step(dirs, e, c),
    ensures
        reach(dirs2, e, q) == reach(dirs, e, q),
    decreases q.len(),
{
    if q.len() > 0 {
        match step(dirs, e, q[0]) {
            Some(i) => {
                let j = key_index(dirs[e], q[0]);
                assert(dirs[e][j].0@ == q[0]);
                assert(child_ok(dirs, paths, e, j));
                lemma_reach_same(dirs, paths, dirs2, i, q.drop_first());
            },
            None => {},
        }
    }
}

/// Once following a prefix of `kv` fails, no longer prefix holds anything.
proof fn lemma_no_value_beyond<K: View, V>(dirs: Seq<DirModel<K, V>>, kv: Seq<K::V>, m: int)
    requires
        0 <= m <= kv.len(),
        reach(dirs, 0, kv.take(m)) is None,
    ensures
        forall|j: int| m < j <= kv.len() ==> #[trigger] lookup(dirs, 0, kv.take(j)) is None,
{
    assert forall|j: int| m < j <= kv.len() implies #[trigger] lookup(dirs, 0, kv.take(j)) is None by {
        lemma_lookup_via_reach(dirs, 0, kv.take(j));
        assert(kv.take(j).drop_last() =~= kv.take(m) + kv.subrange(m, j - 1));
        lemma_reach_concat(dirs, 0, kv.take(m), kv.subrange(m, j - 1));
    }
}

/// A trie from sequences of key components to values, where a path may hold
/// either a value or nested paths, but not both.
pub struct Trie<K: TrieKey, V> {
    dirs: Vec<Vec<(K, Node<V>)>>,
    paths: Ghost<Seq<Seq<K::V>>>,
}

/// The ways in which `Trie::insert` can fail.
#[derive(Debug)]
pub enum InsertError {
    EmptyKey,
    DirAtKey,
    PrefixContainsValue,
}

impl InsertError {
    /// The human-readable description of the error.
    pub fn message(&self) -> (msg: String)
        ensures
            msg@ == self.spec_message(),
    {
        match self {
            InsertError::EmptyKey => String::from_str("The key was empty"),
            InsertError::DirAtKey => String::from_str("There was a Trie \"directory\" at the key"),
            InsertError::PrefixContainsValue => String::from_str(
                "A value was encountered at a prefix of the key",
            ),
        }
    }

    pub open spec fn spec_message(&self) -> Seq<char> {
        match self {
            InsertError::EmptyKey => "The key was empty"@,
            InsertError::DirAtKey => "There was a Trie \"directory\" at the key"@,
            InsertError::PrefixContainsValue => "A value was encountered at a prefix of the key"@,
        }
    }
}

/// The key components of `key`, by their views.
pub open spec fn key_view<K: View>(key: Seq<K>) -> Seq<K::V> {
    key.map_values(|k: K| k@)
}

impl<K: TrieKey, V> Trie<K, V> {
    spec fn model(&self) -> Seq<DirModel<K, V>> {
        self.dirs@.map_values(|dir: Vec<(K, Node<V>)>| dir@)
    }

    /// The directory arena is well formed.
    spec fn arena_ok(&self) -> bool {
        wf_model(self.model(), self.paths@)
    }

    /// The trie's invariant: its directory arena is well formed, and every
    /// directory lies on the way to a value.
    pub closed spec fn wf(&self) -> bool {
        self.arena_ok() && self.dirs_lead_to_values()
    }

    /// Whether every directory is a proper prefix of a path that holds a
    /// value.
    pub open spec fn dirs_lead_to_values(&self) -> bool {
        forall|p: Seq<K::V>| #[trigger]
            self.dir_paths().contains(p) ==> exists|q: Seq<K::V>|
                #[trigger] self.values().dom().contains(q) && p.len() < q.len() && q.take(
                    p.len() as int,
                ) == p
    }

    /// The values held by the trie, by the path at which each is held.
    pub closed spec fn values(&self) -> Map<Seq<K::V>, V> {
        Map::new(
            |p: Seq<K::V>| is_value(lookup(self.model(), 0, p)),
            |p: Seq<K::V>| value_of(lookup(self.model(), 0, p)),
        )
    }

    /// The paths that hold nested paths ("directories").
    pub closed spec fn dir_paths(&self) -> Set<Seq<K::V>> {
        Set::new(|p: Seq<K::V>| is_dir(lookup(self.model(), 0, p)))
    }

    /// Whether a proper, non-empty prefix of `kv` holds a value.
    pub open spec fn prefix_holds_value(&self, kv: Seq<K::V>) -> bool {
        exists|j: int| 1 <= j < kv.len() && #[trigger] self.values().dom().contains(kv.take(j))
    }

    /// The proper, non-empty prefixes of `kv`.
    pub open spec fn proper_prefixes(kv: Seq<K::V>) -> Set<Seq<K::V>> {
        Set::new(|p: Seq<K::V>| 1 <= p.len() < kv.len() && p == kv.take(p.len() as int))
    }

    /// The length of the shortest non-empty prefix of `kv` that holds a
    /// value, with that value.
    pub open spec fn prefix_value(&self, kv: Seq<K::V>) -> Option<(nat, V)> {
        if exists|j: int| 1 <= j <= kv.len() && #[trigger] self.values().dom().contains(kv.take(j)) {
            let j = choose|j: int|
                1 <= j <= kv.len() && #[trigger] self.values().dom().contains(kv.take(j));
            Some((j as nat, self.values()[kv.take(j)]))
        } else {
            None
        }
    }

    proof fn lemma_model_index(&self, d: int)
        requires
            0 <= d < self.dirs@.len(),
        ensures
            self.model()[d] == self.dirs@[d]@,
            self.model().len() == self.dirs@.len(),
    {
    }

    /// Returns an empty trie.
    pub fn new() -> (t: Self)
        ensures
            t.wf(),
            t.values() == Map::<Seq<K::V>, V>::empty(),
            t.dir_paths() == Set::<Seq<K::V>>::empty(),
    {
        let ghost ps: Seq<Seq<K::V>> = seq![Seq::empty()];
        let mut dirs: Vec<Vec<(K, Node<V>)>> = Vec::new();
        dirs.push(Vec::new());
        let t = Trie { dirs, paths: Ghost(ps) };
        proof {
            let m = t.model();
            assert(m.len() == 1);
            assert(m[0] == Seq::<(K, Node<V>)>::empty());
            assert forall|p: Seq<K::V>| #[trigger] lookup(m, 0, p) is None by {
                if p.len() > 0 {
                    assert(!has_key(m[0], p[0]));
                }
            }
            assert(reach(m, 0, Seq::<K::V>::empty()) == Some(0int));
            assert(wf_model(m, t.paths@));
            assert(t.values() =~= Map::<Seq<K::V>, V>::empty());
            assert(t.dir_paths() =~= Set::<Seq<K::V>>::empty());
        }
        t
    }

    /// Inserts `value` at the path `key`. This fails if `key` is empty, if a
    /// proper prefix of `key` holds a value, or if `key` holds nested paths;
    /// on failure the trie is unchanged. On success, `key`'s proper prefixes
    /// become directories.
    pub fn insert(&mut self, key: &[K], value: V) -> (r: Result<(), InsertError>)
        requires
            old(self).wf(),
        ensures
            final(self).wf(),
            match r {
                Ok(()) => {
                    &&& key@.len() > 0
                    &&& !old(self).prefix_holds_value(key_view(key@))
                    &&& !old(self).dir_paths().contains(key_view(key@))
                    &&& final(self).values() == old(self).values().insert(key_view(key@), value)
                    &&& final(self).dir_paths() == old(self).dir_paths() + Self::proper_prefixes(
                        key_view(key@),
                    )
                },
                Err(InsertError::EmptyKey) => key@.len() == 0 && *final(self) == *old(self),
                Err(InsertError::PrefixContainsValue) => {
                    &&& key@.len() > 0
                    &&& old(self).prefix_holds_value(key_view(key@))
                    &&& *final(self) == *old(self)
                },
                Err(InsertError::DirAtKey) => {
                    &&& key@.len() > 0
                    &&& !old(self).prefix_holds_value(key_view(key@))
                    &&& old(self).dir_paths().contains(key_view(key@))
                    &&& *final(self) == *old(self)
                },
            },
    {
        let n = key.len();
        if n == 0 {
            return Err(InsertError::EmptyKey);
        }
        let ghost kv = key_view(key@);
        let mut d: usize = 0;
        let mut i: usize = 0;
        let ghost mut fresh = false;
        proof {
            assert(kv.take(0) =~= Seq::<K::V>::empty());
            assert(reach(self.model(), 0, Seq::<K::V>::empty()) == Some(0int));
            assert(self.dir_paths() =~= old(self).dir_paths() + Set::new(
                |p: Seq<K::V>| 1 <= p.len() <= 0 && p == kv.take(p.len() as int),
            ));
        }
        while i < n - 1
            invariant
                n == key@.len(),
                n >= 1,
                kv == key_view(key@),
                i <= n - 1,
                self.arena_ok(),
                old(self).wf(),
                d < self.dirs@.len(),
                reach(self.model(), 0, kv.take(i as int)) == Some(d as int),
                self.values() == old(self).values(),
                self.dir_paths() == old(self).dir_paths() + Set::new(
                    |p: Seq<K::V>| 1 <= p.len() <= i && p == kv.take(p.len() as int),
                ),
                forall|j: int|
                    1 <= j <= i ==> !#[trigger] old(self).values().dom().contains(kv.take(j)),
                !fresh ==> *self == *old(self),
                fresh ==> self.dirs@[d as int]@.len() == 0,
            decreases n - 1 - i,
        {
            let num_dirs = self.dirs.len();
            let ghost m = self.model();
            let ghost ps = self.paths@;
            let ghost dp0 = self.dir_paths();
            let ghost ki = kv[i as int];
            proof {
                self.lemma_model_index(d as int);
                assert(m[d as int] == self.dirs@[d as int]@);
                assert(kv.take(i + 1) =~= kv.take(i as int).push(ki));
                lemma_reach_push(m, 0, kv.take(i as int), ki);
                lemma_lookup_via_reach(m, 0, kv.take(i + 1));
                assert(kv.take(i + 1).drop_last() =~= kv.take(i as int));
            }
            match Self::find(&self.dirs[d], &key[i]) {
                Some(j) => {
                    match &self.dirs[d][j].1 {
                        Node::DirIndex(e) => {
                            proof {
                                assert(self.dir_paths().contains(kv.take(i + 1)));
                                assert(self.dir_paths() =~= old(self).dir_paths() + Set::new(
                                    |p: Seq<K::V>|
                                        1 <= p.len() <= i + 1 && p == kv.take(p.len() as int),
                                ));
                                assert(!self.values().dom().contains(kv.take(i + 1)));
                            }
                            d = *e;
                        },
                        Node::Value(_) => {
                            proof {
                                assert(old(self).values().dom().contains(kv.take(i + 1)));
                            }
                            return Err(InsertError::PrefixContainsValue);
                        },
                    }
                },
                None => {
                    let kk = key[i].copy_key();
                    let ghost gk = kk;
                    self.dirs[d].push((kk, Node::DirIndex(num_dirs)));
                    self.dirs.push(Vec::new());
                    let after_len = self.dirs.len();
                    proof {
                        assert(after_len == num_dirs + 1);
                        let dirs2 = m.update(
                            d as int,
                            m[d as int].push((gk, Node::DirIndex(num_dirs))),
                        ).push(Seq::empty());
                        assert(self.model() =~= dirs2);
                        lemma_add_dir(m, ps, d as int, gk);
                        self.paths@ = ps.push(ps[d as int].push(ki));
                        lemma_reach_paths(m, ps, 0, kv.take(i as int));
                        assert(ps[0] + kv.take(i as int) =~= kv.take(i as int));
                        assert(self.paths@[num_dirs as int] == kv.take(i + 1));
                        assert(self.values() =~= old(self).values());
                        assert(self.dir_paths() =~= dp0.insert(kv.take(i + 1)));
                        assert(self.dir_paths() =~= old(self).dir_paths() + Set::new(
                            |p: Seq<K::V>| 1 <= p.len() <= i + 1 && p == kv.take(p.len() as int),
                        ));
                        assert(self.dirs@[num_dirs as int]@.len() == 0);
                        fresh = true;
                    }
                    d = num_dirs;
                },
            }
            i += 1;
        }
        let ghost m = self.model();
        let ghost ps = self.paths@;
        let ghost kl = kv[n - 1];
        let ghost vals0 = self.values();
        let ghost dp0 = self.dir_paths();
        proof {
            self.lemma_model_index(d as int);
            assert(m[d as int] == self.dirs@[d as int]@);
            assert(kv.take(n - 1).push(kl) =~= kv);
            lemma_lookup_via_reach(m, 0, kv);
            assert(kv.drop_last() =~= kv.take(n - 1));
            lemma_reach_paths(m, ps, 0, kv.take(n - 1));
            assert(ps[0] + kv.take(n - 1) =~= kv.take(n - 1));
        }
        let last = &key[n - 1];
        let kk = last.copy_key();
        let ghost gk = kk;
        let ghost gv = value;
        match Self::find(&self.dirs[d], last) {
            Some(j) => {
                if let Node::DirIndex(_) = &self.dirs[d][j].1 {
                    proof {
                        assert(self.dir_paths().contains(kv));
                    }
                    return Err(InsertError::DirAtKey);
                }
                proof {
                    lemma_node_at_index(m[d as int], j as int);
                }
                self.dirs[d][j] = (kk, Node::Value(value));
            },
            None => {
                self.dirs[d].push((kk, Node::Value(value)));
            },
        }
        proof {
            let newdir = if has_key(m[d as int], gk@) {
                m[d as int].update(key_index(m[d as int], gk@), (gk, Node::Value(gv)))
            } else {
                m[d as int].push((gk, Node::Value(gv)))
            };
            lemma_set_value(m, ps, d as int, gk, gv, newdir);
            assert(self.model() =~= m.update(d as int, newdir));
            assert(ps[d as int].push(gk@) == kv);
            let dirs2 = m.update(d as int, newdir);
            assert forall|p: Seq<K::V>| #[trigger] lookup(self.model(), 0, p) == if p == kv {
                Some(Node::Value(gv))
            } else {
                lookup(m, 0, p)
            } by {
                assert(lookup(dirs2, 0, p) == lookup(self.model(), 0, p));
                assert(lookup(dirs2, 0, p) == if p == ps[d as int].push(gk@) {
                    Some(Node::Value(gv))
                } else {
                    lookup(m, 0, p)
                });
            }
            assert(self.values() =~= vals0.insert(kv, gv));
            assert(self.dir_paths() =~= dp0);
            assert(self.dir_paths() =~= old(self).dir_paths() + Self::proper_prefixes(kv));
            assert(self.values() == old(self).values().insert(kv, value));
            assert(!old(self).prefix_holds_value(kv));
            assert(lookup(m, 0, kv) == node_at(m[d as int], kl));
            assert(!dp0.contains(kv));
            assert(!old(self).dir_paths().contains(kv));
            assert forall|p: Seq<K::V>| #[trigger] self.dir_paths().contains(p) implies exists|
                q: Seq<K::V>,
            |
                #[trigger] self.values().dom().contains(q) && p.len() < q.len() && q.take(
                    p.len() as int,
                ) == p by {
                if old(self).dir_paths().contains(p) {
                    let q = choose|q: Seq<K::V>|
                        #[trigger] old(self).values().dom().contains(q) && p.len() < q.len()
                            && q.take(p.len() as int) == p;
                    assert(self.values().dom().contains(q));
                } else {
                    assert(Self::proper_prefixes(kv).contains(p));
                    assert(self.values().dom().contains(kv));
                }
            }
        }
        Ok(())
    }

    /// Returns the shortest non-empty prefix of `key` that holds a value in
    /// the trie, with that value, or `None` if no prefix of `key` holds one.
    pub fn value_at_prefix<'a, 'b>(&'a self, key: &'b [K]) -> (r: Option<(Vec<&'b K>, &'a V)>)
        requires
            self.wf(),
        ensures
            match r {
                None => self.prefix_value(key_view(key@)) is None,
                Some((pre, v)) => {
                    &&& self.prefix_value(key_view(key@)) == Some((pre@.len(), *v))
                    &&& pre@.len() <= key@.len()
                    &&& forall|i: int| 0 <= i < pre@.len() ==> *pre@[i] == key@[i]
                },
            },
    {
        let ghost kv = key_view(key@);
        let ghost m = self.model();
        let mut d: usize = 0;
        let mut prefix: Vec<&'b K> = Vec::new();
        let mut i: usize = 0;
        proof {
            assert(kv.take(0) =~= Seq::<K::V>::empty());
            assert(reach(m, 0, Seq::<K::V>::empty()) == Some(0int));
        }
        while i < key.len()
            invariant
                self.wf(),
                m == self.model(),
                kv == key_view(key@),
                d < self.dirs@.len(),
                i <= key@.len(),
                prefix@.len() == i,
                forall|j: int| 0 <= j < i ==> *prefix@[j] == key@[j],
                reach(m, 0, kv.take(i as int)) == Some(d as int),
                forall|j: int| 1 <= j <= i ==> !#[trigger] self.values().dom().contains(kv.take(j)),
            decreases key@.len() - i,
        {
            let k = &key[i];
            prefix.push(k);
            let ghost ki = kv[i as int];
            proof {
                self.lemma_model_index(d as int);
                assert(kv.take(i + 1) =~= kv.take(i as int).push(ki));
                lemma_reach_push(m, 0, kv.take(i as int), ki);
                lemma_lookup_via_reach(m, 0, kv.take(i + 1));
                assert(kv.take(i + 1).drop_last() =~= kv.take(i as int));
            }
            match Self::find(&self.dirs[d], k) {
                None => {
                    proof {
                        lemma_no_value_beyond(m, kv, i + 1);
                        assert(!self.values().dom().contains(kv.take(i + 1)));
                        assert forall|j: int|
                            1 <= j <= kv.len() implies !#[trigger] self.values().dom().contains(
                            kv.take(j),
                        ) by {
                            if j > i + 1 {
                                assert(lookup(m, 0, kv.take(j)) is None);
                            }
                        }
                    }
                    return None;
                },
                Some(j) => {
                    match &self.dirs[d][j].1 {
                        Node::DirIndex(e) => {
                            proof {
                                assert(!self.values().dom().contains(kv.take(i + 1)));
                            }
                            d = *e;
                        },
                        Node::Value(v) => {
                            proof {
                                lemma_no_value_beyond(m, kv, i + 1);
                                assert(self.values().dom().contains(kv.take(i + 1)));
                                assert forall|j: int|
                                    1 <= j <= kv.len()
                                        && #[trigger] self.values().dom().contains(
                                        kv.take(j),
                                    ) implies j == i + 1 by {
                                    if j > i + 1 {
                                        assert(lookup(m, 0, kv.take(j)) is None);
                                    }
                                }
                            }
                            return Some((prefix, v));
                        },
                    }
                },
            }
            i += 1;
        }
        proof {
            assert(kv.len() == i);
        }
        None
    }

    /// Every proper, non-empty prefix of a path that holds a value is a
    /// directory.
    pub proof fn lemma_value_prefixes_are_dirs(&self, p: Seq<K::V>, j: int)
        requires
            self.wf(),
            self.values().dom().contains(p),
            1 <= j < p.len(),
        ensures
            self.dir_paths().contains(p.take(j)),
    {
        let m = self.model();
        lemma_lookup_via_reach(m, 0, p);
        assert(p.drop_last() =~= p.take(j) + p.subrange(j, p.len() - 1));
        lemma_reach_concat(m, 0, p.take(j), p.subrange(j, p.len() - 1));
        assert(p.take(j) =~= p.take(j - 1).push(p[j - 1]));
        lemma_reach_push(m, 0, p.take(j - 1), p[j - 1]);
        lemma_lookup_via_reach(m, 0, p.take(j));
        assert(p.take(j).drop_last() =~= p.take(j - 1));
    }

    /// No path that holds a value is a proper prefix of another path that
    /// holds a value.
    pub proof fn lemma_values_prefix_free(&self, p: Seq<K::V>, q: Seq<K::V>)
        requires
            self.wf(),
            self.values().dom().contains(p),
            self.values().dom().contains(q),
            p.len() < q.len(),
        ensures
            q.take(p.len() as int) != p,
    {
        if q.take(p.len() as int) == p {
            self.lemma_value_prefixes_are_dirs(q, p.len() as int);
        }
    }

    /// No trie holds a value, or a directory, at the empty path.
    pub proof fn lemma_no_empty_key(&self)
        ensures
            !self.values().dom().contains(Seq::<K::V>::empty()),
            !self.dir_paths().contains(Seq::<K::V>::empty()),
    {
    }

    /// A non-empty path is a directory exactly when it is a proper prefix of
    /// a path that holds a value; so `insert` fails with `DirAtKey` exactly
    /// when its key is a proper prefix of a key that holds a value (and no
    /// proper prefix of the key holds one).
    pub proof fn lemma_dirs_are_value_prefixes(&self, p: Seq<K::V>)
        requires
            self.wf(),
            p.len() >= 1,
        ensures
            self.dir_paths().contains(p) <==> exists|q: Seq<K::V>|
                #[trigger] self.values().dom().contains(q) && p.len() < q.len() && q.take(
                    p.len() as int,
                ) == p,
    {
        if exists|q: Seq<K::V>|
            #[trigger] self.values().dom().contains(q) && p.len() < q.len() && q.take(p.len() as int)
                == p {
            let q = choose|q: Seq<K::V>|
                #[trigger] self.values().dom().contains(q) && p.len() < q.len() && q.take(
                    p.len() as int,
                ) == p;
            self.lemma_value_prefixes_are_dirs(q, p.len() as int);
        }
    }

    /// No path both holds a value and is a directory.
    pub proof fn lemma_values_and_dirs_disjoint(&self, p: Seq<K::V>)
        requires
            self.wf(),
        ensures
            !(self.values().dom().contains(p) && self.dir_paths().contains(p)),
    {
    }

    /// The failures of `insert` are exclusive: a key can't both have a value
    /// at a proper prefix and be a directory.
    pub proof fn lemma_insert_failures_exclusive(&self, kv: Seq<K::V>)
        requires
            self.wf(),
        ensures
            !(self.prefix_holds_value(kv) && self.dir_paths().contains(kv)),
    {
        if self.prefix_holds_value(kv) && self.dir_paths().contains(kv) {
            let j = choose|j: int|
                1 <= j < kv.len() && #[trigger] self.values().dom().contains(kv.take(j));
            let m = self.model();
            lemma_lookup_via_reach(m, 0, kv);
            lemma_lookup_via_reach(m, 0, kv.take(j));
            assert(kv.take(j).drop_last() =~= kv.take(j - 1));
            assert(kv.take(j) =~= kv.take(j - 1).push(kv[j - 1]));
            lemma_reach_push(m, 0, kv.take(j - 1), kv[j - 1]);
            assert(kv.drop_last() =~= kv.take(j) + kv.subrange(j, kv.len() - 1));
            lemma_reach_concat(m, 0, kv.take(j), kv.subrange(j, kv.len() - 1));
        }
    }

    /// Reading after a write: once the value `v` is at path `kv`, looking up
    /// `kv` (or any extension of it) finds `kv` itself with `v`.
    pub proof fn lemma_read_after_insert(before: &Self, after: &Self, kv: Seq<K::V>, v: V)
        requires
            after.wf(),
            kv.len() >= 1,
            after.values() == before.values().insert(kv, v),
        ensures
            after.prefix_value(kv) == Some((kv.len(), v)),
    {
        assert(kv.take(kv.len() as int) =~= kv);
        assert(after.values().dom().contains(kv.take(kv.len() as int)));
        assert forall|j: int|
            1 <= j <= kv.len() && #[trigger] after.values().dom().contains(
                kv.take(j),
            ) implies j == kv.len() by {
            if j < kv.len() {
                after.lemma_value_prefixes_are_dirs(kv, j);
            }
        }
    }

    /// A value at a prefix of `kv` is found for every extension of that
    /// prefix as well.
    pub proof fn lemma_prefix_value_extends(&self, kv: Seq<K::V>, ext: Seq<K::V>)
        requires
            self.wf(),
            self.prefix_value(kv) is Some,
        ensures
            self.prefix_value(kv + ext) == self.prefix_value(kv),
    {
        let j = choose|j: int| 1 <= j <= kv.len() && #[trigger] self.values().dom().contains(kv.take(j));
        let kx = kv + ext;
        assert(kx.take(j) =~= kv.take(j));
        assert(self.values().dom().contains(kx.take(j)));
        assert forall|i: int|
            1 <= i <= kx.len() && #[trigger] self.values().dom().contains(kx.take(i)) implies i
            == j by {
            if i < j {
                assert(kx.take(i) =~= kv.take(j).take(i));
                self.lemma_values_prefix_free(kx.take(i), kv.take(j));
            } else if i > j {
                assert(kx.take(j) =~= kx.take(i).take(j));
                self.lemma_values_prefix_free(kx.take(j), kx.take(i));
            }
        }
        assert forall|i: int|
            1 <= i <= kv.len() && #[trigger] self.values().dom().contains(kv.take(i)) implies i
            == j by {
            if i < j {
                assert(kv.take(i) =~= kv.take(j).take(i));
                self.lemma_values_prefix_free(kv.take(i), kv.take(j));
            } else if i > j {
                assert(kv.take(j) =~= kv.take(i).take(j));
                self.lemma_values_prefix_free(kv.take(j), kv.take(i));
            }
        }
    }

    /// Returns the index of the entry of `dir` whose component is `k`.
    fn find(dir: &Vec<(K, Node<V>)>, k: &K) -> (r: Option<usize>)
        requires
            distinct_keys(dir@),
        ensures
            match r {
                Some(j) => j < dir@.len() && dir@[j as int].0@ == k@ && node_at(dir@, k@) == Some(
                    dir@[j as int].1,
                ),
                None => !has_key(dir@, k@) && node_at(dir@, k@) is None,
            },
    {
        let mut j: usize = 0;
        while j < dir.len()
            invariant
                j <= dir@.len(),
                distinct_keys(dir@),
                forall|i: int| 0 <= i < j ==> #[trigger] dir@[i].0@ != k@,
            decreases dir@.len() - j,
        {
            if dir[j].0.same_key(k) {
                proof {
                    lemma_node_at_index(dir@, j as int);
                }
                return Some(j);
            }
            j += 1;
        }
        proof {
            if has_key(dir@, k@) {
                let i = key_index(dir@, k@);
                assert(dir@[i].0@ == k@);
            }
        }
        None
    }
}

} // verus!
