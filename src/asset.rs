//! Path-keyed cache of resource handles.
use vstd::prelude::*;

verus! {

/// An opaque, comparable identifier of a cached resource.
#[derive(Clone, Copy, Debug, PartialEq, Eq, Structural)]
pub struct Handle {
    pub id: usize,
}

/// Resolves resource paths to handles, one handle per distinct path.
pub struct AssetCache {
    paths: Vec<String>,
}

/// The paths seen so far, in the order they were first requested, and the
/// handle the next new path receives is its position in this sequence.
pub open spec fn distinct_paths(paths: Seq<Seq<char>>) -> bool {
    forall|i: int, j: int|
        0 <= i < paths.len() && 0 <= j < paths.len() && i != j ==> paths[i] != paths[j]
}

/// What `load` does on the abstract cache: a known path keeps its handle, a
/// new path is appended and receives the next position.
pub open spec fn load_result(paths: Seq<Seq<char>>, p: Seq<char>) -> (Seq<Seq<char>>, Handle) {
    if paths.contains(p) {
        (paths, Handle { id: (choose|i: int| 0 <= i < paths.len() && paths[i] == p) as usize })
    } else {
        (paths.push(p), Handle { id: paths.len() as usize })
    }
}

/// After a load, the path sits at its handle's position, the earlier paths
/// keep their positions, and the paths stay distinct.
pub proof fn lemma_load_result(paths: Seq<Seq<char>>, p: Seq<char>)
    requires
        distinct_paths(paths),
        paths.len() <= usize::MAX,
    ensures
        ({
            let (c, h) = load_result(paths, p);
            &&& distinct_paths(c)
            &&& h.id < c.len()
            &&& c[h.id as int] == p
            &&& paths.len() <= c.len()
            &&& forall|i: int| 0 <= i < paths.len() ==> c[i] == paths[i]
        }),
{
    if paths.contains(p) {
    } else {
        let c = paths.push(p);
        assert forall|i: int, j: int| 0 <= i < c.len() && 0 <= j < c.len() && i != j implies c[i]
            != c[j] by {
            if i == paths.len() {
                assert(paths[j] != p);
            } else if j == paths.len() {
                assert(paths[i] != p);
            }
        }
    }
}

/// Loading the same path twice yields equal handles, and the second load
/// leaves the cache unchanged.
pub proof fn lemma_load_same_path_same_handle(paths: Seq<Seq<char>>, p: Seq<char>)
    requires
        distinct_paths(paths),
        paths.len() < usize::MAX,
        paths.len() <= usize::MAX,
    ensures
        ({
            let (c1, h1) = load_result(paths, p);
            let (c2, h2) = load_result(c1, p);
            h1 == h2 && c2 == c1
        }),
{
    lemma_load_result(paths, p);
    let (c1, h1) = load_result(paths, p);
    assert(c1.contains(p));
    let h2 = load_result(c1, p).1;
    assert(c1[h2.id as int] == p);
}

/// Loading two distinct paths, one after the other, yields distinct handles.
pub proof fn lemma_load_distinct_paths(paths: Seq<Seq<char>>, p: Seq<char>, q: Seq<char>)
    requires
        distinct_paths(paths),
        paths.len() < usize::MAX,
        p != q,
    ensures
        ({
            let (c1, h1) = load_result(paths, p);
            let (c2, h2) = load_result(c1, q);
            h1 != h2
        }),
{
    lemma_load_result(paths, p);
    let (c1, h1) = load_result(paths, p);
    assert(c1.len() <= paths.len() + 1);
    lemma_load_result(c1, q);
    let (c2, h2) = load_result(c1, q);
    assert(c2[h1.id as int] == c1[h1.id as int]);
}

impl View for AssetCache {
    type V = Seq<Seq<char>>;

    closed spec fn view(&self) -> Seq<Seq<char>> {
        self.paths@.map_values(|s: String| s@)
    }
}

impl AssetCache {
    pub open spec fn wf(&self) -> bool {
        distinct_paths(self@)
    }

    pub fn new() -> (r: AssetCache)
        ensures
            r.wf(),
            r@ == Seq::<Seq<char>>::empty(),
    {
        let r = AssetCache { paths: Vec::new() };
        assert(r@ =~= Seq::<Seq<char>>::empty());
        r
    }

    /// Number of distinct paths requested so far.
    pub fn len(&self) -> (r: usize)
        ensures
            r == self@.len(),
    {
        self.paths.len()
    }

    /// The path that `h` was handed out for, if any.
    pub fn path_of(&self, h: Handle) -> (r: Option<&str>)
        ensures
            r is Some <==> h.id < self@.len(),
            r matches Some(p) ==> p@ == self@[h.id as int],
    {
        if h.id < self.paths.len() {
            Some(self.paths[h.id].as_str())
        } else {
            None
        }
    }

    /// Returns the handle of `path`, registering the path on its first request.
    pub fn load(&mut self, path: &str) -> (r: Handle)
        requires
            old(self).wf(),
        ensures
            final(self).wf(),
            (final(self)@, r) == load_result(old(self)@, path@),
    {
        let ghost before = self@;
        let owned = path.to_owned();
        let n = self.paths.len();
        let mut i: usize = 0;
        while i < n
            invariant
                n == self.paths.len(),
                owned@ == path@,
                self@ == before,
                before == self.paths@.map_values(|s: String| s@),
                distinct_paths(before),
                0 <= i <= n,
                forall|k: int| 0 <= k < i ==> before[k] != path@,
            decreases n - i,
        {
            if self.paths[i] == owned {
                assert(before[i as int] == path@);
                assert(before.contains(path@));
                let r = Handle { id: i };
                proof {
                    let c = choose|j: int| 0 <= j < before.len() && before[j] == path@;
                    assert(c == i);
                }
                return r;
            }
            assert(before[i as int] != path@);
            i = i + 1;
        }
        assert(!before.contains(path@));
        self.paths.push(owned);
        assert(self@ =~= before.push(path@));
        Handle { id: n }
    }
}

} // verus!
