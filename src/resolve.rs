//! Resolution of one runtime address: translation, context lookup, frame
//! query, and the symbol-table fallback.

use vstd::prelude::*;
use crate::cache::{Cache, after_lookup, position_of, promoted, distinct_keys};
use crate::library::{Library, translation, lemma_translation_first};
use crate::symbol::{Frame, Symbol};

verus! {

/// The symbols for the frames found at stated address `svma`, in order.
pub open spec fn frame_symbols(svma: usize, frames: Seq<Frame>) -> Seq<Symbol> {
    frames.map_values(
        |f: Frame| Symbol::Frame { addr: svma, location: f.location, name: f.name },
    )
}

/// The symbol for a symbol-table hit at stated address `svma`, if any.
pub open spec fn symtab_symbols(svma: usize, name: Option<Vec<u8>>) -> Seq<Symbol> {
    match name {
        Some(n) => seq![Symbol::Symtab { addr: svma, name: n }],
        None => Seq::empty(),
    }
}

/// `r` is what context `m` yields for stated address `svma`: the frames that
/// `find_frames` reports, or, when it reports none, the symbol-table hit that
/// `search_symtab` reports.
pub open spec fn resolved_from<M, F: FnOnce(&M, usize) -> Vec<Frame>, T: FnOnce(&M, usize) -> Option<Vec<u8>>>(
    find_frames: F,
    search_symtab: T,
    m: M,
    svma: usize,
    r: Seq<Symbol>,
) -> bool {
    exists|frames: Vec<Frame>|
        #[trigger] find_frames.ensures((&m, svma), frames) && if frames@.len() > 0 {
            r == frame_symbols(svma, frames@)
        } else {
            exists|name: Option<Vec<u8>>|
                #[trigger] search_symtab.ensures((&m, svma), name) && r == symtab_symbols(
                    svma,
                    name,
                )
        }
}

/// Where the debug info reports no frame for the address, resolution yields
/// at most one symbol, a symbol-table hit, and never a source location.
pub proof fn lemma_without_debug_info<M, F: FnOnce(&M, usize) -> Vec<Frame>, T: FnOnce(&M, usize) -> Option<Vec<u8>>>(
    find_frames: F,
    search_symtab: T,
    m: M,
    svma: usize,
    r: Seq<Symbol>,
)
    requires
        resolved_from(find_frames, search_symtab, m, svma, r),
        forall|frames: Vec<Frame>| #[trigger] find_frames.ensures((&m, svma), frames) ==> frames@.len() == 0,
    ensures
        r.len() <= 1,
        forall|k: int| 0 <= k < r.len() ==> (#[trigger] r[k]) is Symtab,
{
    let frames = choose|frames: Vec<Frame>|
        #[trigger] find_frames.ensures((&m, svma), frames) && if frames@.len() > 0 {
            r == frame_symbols(svma, frames@)
        } else {
            exists|name: Option<Vec<u8>>|
                #[trigger] search_symtab.ensures((&m, svma), name) && r == symtab_symbols(svma, name)
        };
    let name = choose|name: Option<Vec<u8>>|
        #[trigger] search_symtab.ensures((&m, svma), name) && r == symtab_symbols(svma, name);
}

/// With a frame query and a symbol-table search whose results depend on
/// their arguments alone, one context resolves one stated address to one
/// sequence of symbols.
pub proof fn lemma_resolution_deterministic<M, F: FnOnce(&M, usize) -> Vec<Frame>, T: FnOnce(&M, usize) -> Option<Vec<u8>>>(
    find_frames: F,
    search_symtab: T,
    m: M,
    svma: usize,
    r1: Seq<Symbol>,
    r2: Seq<Symbol>,
)
    requires
        forall|a: (&M, usize), x: Vec<Frame>, y: Vec<Frame>|
            find_frames.ensures(a, x) && find_frames.ensures(a, y) ==> x == y,
        forall|a: (&M, usize), x: Option<Vec<u8>>, y: Option<Vec<u8>>|
            search_symtab.ensures(a, x) && search_symtab.ensures(a, y) ==> x == y,
        resolved_from(find_frames, search_symtab, m, svma, r1),
        resolved_from(find_frames, search_symtab, m, svma, r2),
    ensures
        r1 == r2,
{
}

/// Resolving again right after a resolution that found its library's
/// context finds that context at the front of the cache, leaves the cache
/// as it is, builds nothing, and with a deterministic frame query and
/// symbol-table search yields the same symbols.
pub proof fn lemma_resolve_twice<M, F: FnOnce(&M, usize) -> Vec<Frame>, T: FnOnce(&M, usize) -> Option<Vec<u8>>>(
    s: Seq<(usize, M)>,
    cap: nat,
    lib: usize,
    find_frames: F,
    search_symtab: T,
    svma: usize,
    r1: Seq<Symbol>,
    r2: Seq<Symbol>,
)
    requires
        distinct_keys(s),
        s.len() > 0,
        s[0].0 == lib,
        forall|a: (&M, usize), x: Vec<Frame>, y: Vec<Frame>|
            find_frames.ensures(a, x) && find_frames.ensures(a, y) ==> x == y,
        forall|a: (&M, usize), x: Option<Vec<u8>>, y: Option<Vec<u8>>|
            search_symtab.ensures(a, x) && search_symtab.ensures(a, y) ==> x == y,
        resolved_from(find_frames, search_symtab, s[0].1, svma, r1),
        resolved_from(
            find_frames,
            search_symtab,
            after_lookup(s, lib, None, cap)[0].1,
            svma,
            r2,
        ),
    ensures
        position_of(s, lib) is Some,
        after_lookup(s, lib, None, cap) == s,
        r1 == r2,
{
    assert(s[0].0 == lib);
    let c = choose|c: int| 0 <= c < s.len() && (#[trigger] s[c]).0 == lib;
    if c > 0 {
        assert(s[0].0 != s[c].0);
    }
    assert(promoted(s, 0) =~= s);
    lemma_resolution_deterministic(find_frames, search_symtab, s[0].1, svma, r1, r2);
}

/// After the cache is cleared, looking a library up misses and builds its
/// context anew; when the rebuilt context equals the one an earlier
/// resolution used, and the frame query and symbol-table search are
/// deterministic, the symbols are the earlier ones.
pub proof fn lemma_clear_then_resolve<M, F: FnOnce(&M, usize) -> Vec<Frame>, T: FnOnce(&M, usize) -> Option<Vec<u8>>>(
    cap: nat,
    lib: usize,
    earlier: M,
    rebuilt: M,
    find_frames: F,
    search_symtab: T,
    svma: usize,
    r1: Seq<Symbol>,
    r2: Seq<Symbol>,
)
    requires
        0 < cap,
        earlier == rebuilt,
        forall|a: (&M, usize), x: Vec<Frame>, y: Vec<Frame>|
            find_frames.ensures(a, x) && find_frames.ensures(a, y) ==> x == y,
        forall|a: (&M, usize), x: Option<Vec<u8>>, y: Option<Vec<u8>>|
            search_symtab.ensures(a, x) && search_symtab.ensures(a, y) ==> x == y,
        resolved_from(find_frames, search_symtab, earlier, svma, r1),
        resolved_from(
            find_frames,
            search_symtab,
            after_lookup(Seq::<(usize, M)>::empty(), lib, Some(rebuilt), cap)[0].1,
            svma,
            r2,
        ),
    ensures
        position_of(Seq::<(usize, M)>::empty(), lib) is None,
        after_lookup(Seq::<(usize, M)>::empty(), lib, Some(rebuilt), cap) == seq![(lib, rebuilt)],
        r1 == r2,
{
    assert(after_lookup(Seq::<(usize, M)>::empty(), lib, Some(rebuilt), cap) =~= seq![(lib, rebuilt)]);
    lemma_resolution_deterministic(find_frames, search_symtab, earlier, svma, r1, r2);
}

/// Turns the frames found at `svma` into symbols, keeping their order.
fn frames_to_symbols(svma: usize, frames: Vec<Frame>) -> (r: Vec<Symbol>)
    ensures
        r@ == frame_symbols(svma, frames@),
{
    let ghost all = frames@;
    let mut out: Vec<Symbol> = Vec::new();
    for f in it: frames
        invariant
            it.seq() == all,
            out@ == frame_symbols(svma, all.take(it.index() as int)),
    {
        assert(all.take(it.index() as int + 1) =~= all.take(it.index() as int).push(f));
        out.push(Symbol::Frame { addr: svma, location: f.location, name: f.name });
        assert(out@ =~= frame_symbols(svma, all.take(it.index() as int + 1)));
    }
    assert(all.take(all.len() as int) =~= all);
    out
}

/// Resolves the runtime address `addr` against `cache`.
///
/// The address is translated into a library and a stated address; the
/// library's context is taken from the cache, built with `build` on a miss.
/// The symbols are the frames that `find_frames` reports there, innermost
/// first, or when there are none the symbol-table hit of `search_symtab`.
/// An address outside every library, or a library whose context cannot be
/// built, yields no symbol.
pub fn resolve<M, B, F, T>(
    cache: &mut Cache<M>,
    addr: usize,
    build: B,
    find_frames: F,
    search_symtab: T,
) -> (r: Vec<Symbol>) where
    B: FnOnce(&Library) -> Option<M>,
    F: FnOnce(&M, usize) -> Vec<Frame>,
    T: FnOnce(&M, usize) -> Option<Vec<u8>>,

    requires
        old(cache).wf(),
        forall|l: &Library| #[trigger] build.requires((l,)),
        forall|m: &M, a: usize| #[trigger] find_frames.requires((m, a)),
        forall|m: &M, a: usize| #[trigger] search_symtab.requires((m, a)),
    ensures
        final(cache).wf(),
        final(cache).libraries() == old(cache).libraries(),
        final(cache).capacity() == old(cache).capacity(),
        match translation(old(cache).libraries(), addr) {
            None => r@.len() == 0 && final(cache).entries() == old(cache).entries(),
            Some((lib, svma)) => {
                &&& position_of(old(cache).entries(), lib) is Some ==> final(cache).entries()
                    == after_lookup(old(cache).entries(), lib, None, old(cache).capacity())
                &&& position_of(old(cache).entries(), lib) is None ==> exists|built: Option<M>|
                    #[trigger] build.ensures((&old(cache).libraries()[lib as int],), built)
                        && final(cache).entries() == after_lookup(
                        old(cache).entries(),
                        lib,
                        built,
                        old(cache).capacity(),
                    )
                &&& if final(cache).entries().len() > 0 && final(cache).entries()[0].0 == lib {
                    resolved_from(find_frames, search_symtab, final(cache).entries()[0].1, svma, r@)
                } else {
                    r@.len() == 0
                }
            },
        },
{
    let n = cache.libraries_ref().len();
    proof {
        lemma_translation_first(cache.libraries(), addr);
    }
    let (lib, svma) = match cache.avma_to_svma(addr) {
        Some(pair) => pair,
        None => return Vec::new(),
    };
    if !cache.mapping_for_lib(lib, build) {
        return Vec::new();
    }
    let m = cache.front();
    let frames = find_frames(m, svma);
    if frames.len() > 0 {
        frames_to_symbols(svma, frames)
    } else {
        let mut r: Vec<Symbol> = Vec::new();
        let found = search_symtab(m, svma);
        let ghost g = found;
        match found {
            Some(name) => r.push(Symbol::Symtab { addr: svma, name }),
            None => {},
        }
        assert(r@ =~= symtab_symbols(svma, g));
        r
    }
}

/// Drops every cached context, releasing what each one holds; the known
/// libraries stay, so a later resolution rebuilds contexts as needed.
pub fn clear_symbol_cache<M>(cache: &mut Cache<M>)
    requires
        old(cache).wf(),
    ensures
        final(cache).wf(),
        final(cache).libraries() == old(cache).libraries(),
        final(cache).capacity() == old(cache).capacity(),
        final(cache).entries().len() == 0,
{
    cache.clear();
}

} // verus!
