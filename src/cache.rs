//! A bounded, most-recently-used cache of parsed per-library contexts.

use vstd::prelude::*;
use crate::library::{Library, translation, avma_to_svma};

verus! {

/// Number of parsed contexts the process-wide cache keeps.
pub const MAPPINGS_CACHE_SIZE: usize = 4;

/// The entries after the one at position `p` moves to the front.
pub open spec fn promoted<T>(s: Seq<T>, p: int) -> Seq<T> {
    seq![s[p]].add(s.remove(p))
}

/// The entries after `e` is inserted at the front of `s`, dropping the
/// oldest entry first when `s` already holds `cap` entries.
pub open spec fn inserted<T>(s: Seq<T>, e: T, cap: nat) -> Seq<T> {
    seq![e].add(if s.len() >= cap { s.drop_last() } else { s })
}

/// The library indices of a sequence of entries, front first.
pub open spec fn keys_of<M>(s: Seq<(usize, M)>) -> Seq<usize> {
    s.map_values(|e: (usize, M)| e.0)
}

/// Position of the entry for library `lib`, if there is one.
pub open spec fn position_of<M>(s: Seq<(usize, M)>, lib: usize) -> Option<int> {
    if exists|p: int| 0 <= p < s.len() && (#[trigger] s[p]).0 == lib {
        Some(choose|p: int| 0 <= p < s.len() && (#[trigger] s[p]).0 == lib)
    } else {
        None
    }
}

/// The state of the cache after looking up library `lib`, given what
/// building a context for it produced (`built`, consulted only on a miss).
pub open spec fn after_lookup<M>(
    s: Seq<(usize, M)>,
    lib: usize,
    built: Option<M>,
    cap: nat,
) -> Seq<(usize, M)> {
    match position_of(s, lib) {
        Some(p) => promoted(s, p),
        None => match built {
            Some(m) => inserted(s, (lib, m), cap),
            None => s,
        },
    }
}

/// No library has two entries in `s`.
pub open spec fn distinct_keys<M>(s: Seq<(usize, M)>) -> bool {
    forall|p: int, q: int| 0 <= p < q < s.len() ==> (#[trigger] s[p]).0 != (#[trigger] s[q]).0
}

proof fn lemma_position_of<M>(s: Seq<(usize, M)>, p: int)
    requires
        distinct_keys(s),
        0 <= p < s.len(),
    ensures
        position_of(s, s[p].0) == Some(p),
{
    let lib = s[p].0;
    assert(s[p].0 == lib);
    let c = choose|c: int| 0 <= c < s.len() && (#[trigger] s[c]).0 == lib;
    if c < p {
        assert(s[c].0 != s[p].0);
    } else if c > p {
        assert(s[p].0 != s[c].0);
    }
}

/// Looking a library up keeps the keys distinct and within `cap`; a hit or
/// a successful build leaves the library's entry at the front.
pub proof fn lemma_after_lookup<M>(s: Seq<(usize, M)>, lib: usize, built: Option<M>, cap: nat)
    requires
        distinct_keys(s),
        s.len() <= cap,
        0 < cap,
    ensures
        distinct_keys(after_lookup(s, lib, built, cap)),
        after_lookup(s, lib, built, cap).len() <= cap,
        position_of(s, lib) is Some || built is Some ==> after_lookup(s, lib, built, cap)[0].0 == lib,
        position_of(s, lib) matches Some(p) ==> after_lookup(s, lib, built, cap)[0] == s[p],
        position_of(s, lib) is None && built is None ==> after_lookup(s, lib, built, cap) == s,
{
    let r = after_lookup(s, lib, built, cap);
    match position_of(s, lib) {
        Some(p) => {
            assert(s[p].0 == lib);
            assert forall|a: int, b: int| 0 <= a < b < r.len() implies (#[trigger] r[a]).0
                != (#[trigger] r[b]).0 by {
                let pa = if a == 0 { p } else if a - 1 < p { a - 1 } else { a };
                let pb = if b == 0 { p } else if b - 1 < p { b - 1 } else { b };
                assert(r[a] == s[pa]);
                assert(r[b] == s[pb]);
            }
        },
        None => {
            if let Some(m) = built {
                let t = if s.len() >= cap { s.drop_last() } else { s };
                assert forall|a: int, b: int| 0 <= a < b < r.len() implies (#[trigger] r[a]).0
                    != (#[trigger] r[b]).0 by {
                    assert(r[b] == t[b - 1]);
                    if a > 0 {
                        assert(r[a] == t[a - 1]);
                    } else {
                        assert(s[b - 1].0 != lib);
                    }
                }
            }
        },
    }
}

/// Touching `i`, then another library `j`, then `i` again finds `i` still
/// cached at the last lookup, which therefore builds nothing, and leaves at
/// the front the very entry that the first lookup put there.
pub proof fn lemma_promotion<M>(
    s: Seq<(usize, M)>,
    cap: nat,
    i: usize,
    j: usize,
    built_i: Option<M>,
    built_j: Option<M>,
    built_again: Option<M>,
)
    requires
        distinct_keys(s),
        s.len() <= cap,
        2 <= cap,
        i != j,
        position_of(s, i) is Some || built_i is Some,
    ensures
        ({
            let s1 = after_lookup(s, i, built_i, cap);
            let s2 = after_lookup(s1, j, built_j, cap);
            &&& s1[0].0 == i
            &&& position_of(s2, i) is Some
            &&& after_lookup(s2, i, built_again, cap)[0] == s1[0]
        }),
{
    let s1 = after_lookup(s, i, built_i, cap);
    lemma_after_lookup(s, i, built_i, cap);
    let s2 = after_lookup(s1, j, built_j, cap);
    lemma_after_lookup(s1, j, built_j, cap);
    let u: int = if position_of(s1, j) is Some || built_j is Some { 1 } else { 0 };
    if let Some(p) = position_of(s1, j) {
        assert(s1[p].0 == j);
        assert(s2[1] == s1[0]);
    } else if let Some(m) = built_j {
        assert(s2[1] == s1[0]);
    }
    assert(s2[u] == s1[0]);
    lemma_position_of(s2, u);
    lemma_after_lookup(s2, i, built_again, cap);
}

/// The entries after looking up `ks` in order on `s`, each lookup building
/// the matching context of `ms` when it misses.
pub open spec fn after_lookups<M>(
    s: Seq<(usize, M)>,
    ks: Seq<usize>,
    ms: Seq<M>,
    cap: nat,
) -> Seq<(usize, M)>
    decreases ks.len(),
{
    if ks.len() == 0 || ms.len() != ks.len() {
        s
    } else {
        after_lookup(
            after_lookups(s, ks.drop_last(), ms.drop_last(), cap),
            ks.last(),
            Some(ms.last()),
            cap,
        )
    }
}

proof fn lemma_fill<M>(ks: Seq<usize>, ms: Seq<M>, cap: nat, n: int)
    requires
        ks.len() == ms.len(),
        0 <= n <= ks.len(),
        n <= cap,
        forall|a: int, b: int| 0 <= a < b < ks.len() ==> ks[a] != ks[b],
    ensures
        ({
            let r = after_lookups(Seq::empty(), ks.take(n), ms.take(n), cap);
            &&& r.len() == n
            &&& forall|p: int| 0 <= p < n ==> (#[trigger] r[p]).0 == ks[n - 1 - p]
        }),
    decreases n,
{
    if n > 0 {
        lemma_fill(ks, ms, cap, n - 1);
        assert(ks.take(n).drop_last() =~= ks.take(n - 1));
        assert(ms.take(n).drop_last() =~= ms.take(n - 1));
        let r0 = after_lookups(Seq::empty(), ks.take(n - 1), ms.take(n - 1), cap);
        assert(position_of(r0, ks[n - 1]) is None) by {
            if exists|p: int| 0 <= p < r0.len() && (#[trigger] r0[p]).0 == ks[n - 1] {
                let p = choose|p: int| 0 <= p < r0.len() && (#[trigger] r0[p]).0 == ks[n - 1];
                assert(r0[p].0 == ks[n - 2 - p]);
            }
        }
        let r = after_lookups(Seq::empty(), ks.take(n), ms.take(n), cap);
        assert forall|p: int| 0 <= p < n implies (#[trigger] r[p]).0 == ks[n - 1 - p] by {
            if p > 0 {
                assert(r[p] == r0[p - 1]);
            }
        }
    }
}

/// Looking up `cap + 1` distinct libraries, each once, on an empty cache of
/// capacity `cap` leaves `cap` entries, and the first library is no longer
/// among them.
pub proof fn lemma_eviction<M>(ks: Seq<usize>, ms: Seq<M>, cap: nat)
    requires
        0 < cap,
        ks.len() == cap + 1,
        ms.len() == ks.len(),
        forall|a: int, b: int| 0 <= a < b < ks.len() ==> ks[a] != ks[b],
    ensures
        ({
            let r = after_lookups(Seq::empty(), ks, ms, cap);
            &&& r.len() == cap
            &&& position_of(r, ks[0]) is None
        }),
{
    let n = cap as int;
    lemma_fill(ks, ms, cap, n);
    assert(ks.drop_last() =~= ks.take(n));
    assert(ms.drop_last() =~= ms.take(n));
    let r0 = after_lookups(Seq::empty(), ks.take(n), ms.take(n), cap);
    assert(position_of(r0, ks[n]) is None) by {
        if exists|p: int| 0 <= p < r0.len() && (#[trigger] r0[p]).0 == ks[n] {
            let p = choose|p: int| 0 <= p < r0.len() && (#[trigger] r0[p]).0 == ks[n];
            assert(r0[p].0 == ks[n - 1 - p]);
        }
    }
    let r = after_lookups(Seq::empty(), ks, ms, cap);
    assert(r.len() == cap);
    if exists|p: int| 0 <= p < r.len() && (#[trigger] r[p]).0 == ks[0] {
        let p = choose|p: int| 0 <= p < r.len() && (#[trigger] r[p]).0 == ks[0];
        if p > 0 {
            assert(r[p] == r0[p - 1]);
            assert(r0[p - 1].0 == ks[n - p]);
        }
    }
}

/// The known libraries together with the cached parsed contexts of some of
/// them. Position 0 of the entries is the most recently used one.
pub struct Cache<M> {
    /// All known shared libraries that have been loaded.
    libraries: Vec<Library>,
    /// Cached contexts, each paired with its index into `libraries`; never
    /// longer than `capacity`.
    mappings: Vec<(usize, M)>,
    capacity: usize,
}

impl<M> Cache<M> {
    /// The libraries known to this cache, in enumeration order.
    pub closed spec fn libraries(&self) -> Seq<Library> {
        self.libraries@
    }

    /// The cached entries, most recently used first.
    pub closed spec fn entries(&self) -> Seq<(usize, M)> {
        self.mappings@
    }

    /// The most entries this cache holds.
    pub closed spec fn capacity(&self) -> nat {
        self.capacity as nat
    }

    /// Entries are at most `capacity`, name known libraries, and no library
    /// has two entries.
    pub open spec fn wf(&self) -> bool {
        &&& 0 < self.capacity()
        &&& self.entries().len() <= self.capacity()
        &&& forall|p: int|
            0 <= p < self.entries().len() ==> (#[trigger] self.entries()[p]).0
                < self.libraries().len()
        &&& distinct_keys(self.entries())
    }

    /// A cache over `libraries` holding up to `MAPPINGS_CACHE_SIZE` contexts.
    pub fn new(libraries: Vec<Library>) -> (r: Cache<M>)
        ensures
            r.wf(),
            r.libraries() == libraries@,
            r.entries().len() == 0,
            r.capacity() == MAPPINGS_CACHE_SIZE,
    {
        Cache::with_capacity(libraries, MAPPINGS_CACHE_SIZE)
    }

    /// A cache over `libraries` holding up to `capacity` contexts.
    pub fn with_capacity(libraries: Vec<Library>, capacity: usize) -> (r: Cache<M>)
        requires
            capacity > 0,
        ensures
            r.wf(),
            r.libraries() == libraries@,
            r.entries().len() == 0,
            r.capacity() == capacity,
    {
        Cache { libraries, mappings: Vec::with_capacity(capacity), capacity }
    }

    /// The libraries known to this cache.
    pub fn libraries_ref(&self) -> (r: &Vec<Library>)
        ensures
            r@ == self.libraries(),
    {
        &self.libraries
    }

    /// The number of cached contexts.
    pub fn len(&self) -> (r: usize)
        ensures
            r == self.entries().len(),
    {
        self.mappings.len()
    }

    /// The library index of the entry at `position`.
    pub fn key_at(&self, position: usize) -> (r: usize)
        requires
            position < self.entries().len(),
        ensures
            r == self.entries()[position as int].0,
    {
        self.mappings[position].0
    }

    /// The most recently used context.
    pub fn front(&self) -> (r: &M)
        requires
            self.entries().len() > 0,
        ensures
            *r == self.entries()[0].1,
    {
        &self.mappings[0].1
    }

    /// Translates a runtime address into `(library index, stated address)`.
    pub fn avma_to_svma(&self, addr: usize) -> (r: Option<(usize, usize)>)
        ensures
            r == translation(self.libraries(), addr),
    {
        avma_to_svma(&self.libraries, addr)
    }

    /// Position of the entry for library `lib`.
    fn position(&self, lib: usize) -> (r: Option<usize>)
        requires
            self.wf(),
        ensures
            match r {
                Some(p) => position_of(self.entries(), lib) == Some(p as int),
                None => position_of(self.entries(), lib) is None,
            },
    {
        let mut p: usize = 0;
        while p < self.mappings.len()
            invariant
                self.wf(),
                p <= self.mappings@.len(),
                forall|q: int| 0 <= q < p ==> (#[trigger] self.mappings@[q]).0 != lib,
            decreases self.mappings@.len() - p,
        {
            if self.mappings[p].0 == lib {
                proof {
                    lemma_position_of(self.entries(), p as int);
                }
                return Some(p);
            }
            p = p + 1;
        }
        None
    }

    /// Makes the context for library `lib` the most recently used one,
    /// building it with `build` when it is not cached. On a miss a full cache
    /// first drops its least recently used entry. Returns whether the cache
    /// now holds the context for `lib` at its front; when `build` fails
    /// nothing changes.
    pub fn mapping_for_lib<B: FnOnce(&Library) -> Option<M>>(&mut self, lib: usize, build: B) -> (r: bool)
        requires
            old(self).wf(),
            lib < old(self).libraries().len(),
            build.requires((&old(self).libraries()[lib as int],)),
        ensures
            final(self).wf(),
            final(self).libraries() == old(self).libraries(),
            final(self).capacity() == old(self).capacity(),
            position_of(old(self).entries(), lib) is Some ==> r && final(self).entries()
                == after_lookup(old(self).entries(), lib, None, old(self).capacity()),
            position_of(old(self).entries(), lib) is None ==> exists|built: Option<M>|
                #[trigger] build.ensures((&old(self).libraries()[lib as int],), built) && r
                    == built is Some && final(self).entries() == after_lookup(
                    old(self).entries(),
                    lib,
                    built,
                    old(self).capacity(),
                ),
            r ==> final(self).entries()[0].0 == lib,
    {
        match self.position(lib) {
            Some(p) => {
                if p != 0 {
                    let entry = self.mappings.remove(p);
                    self.mappings.insert(0, entry);
                }
                proof {
                    assert(self.entries() =~= promoted(old(self).entries(), p as int));
                    lemma_after_lookup(old(self).entries(), lib, None, old(self).capacity());
                }
                true
            },
            None => {
                let built = build(&self.libraries[lib]);
                match built {
                    Some(m) => {
                        if self.mappings.len() >= self.capacity {
                            self.mappings.pop();
                        }
                        self.mappings.insert(0, (lib, m));
                        proof {
                            let s = old(self).entries();
                            assert(self.entries() =~= inserted(s, (lib, m), old(self).capacity()));
                            lemma_after_lookup(s, lib, built, old(self).capacity());
                        }
                        true
                    },
                    None => false,
                }
            },
        }
    }

    /// Drops every cached context; the libraries are kept.
    pub fn clear(&mut self)
        requires
            old(self).wf(),
        ensures
            final(self).wf(),
            final(self).libraries() == old(self).libraries(),
            final(self).capacity() == old(self).capacity(),
            final(self).entries().len() == 0,
    {
        self.mappings.clear();
    }
}

} // verus!
