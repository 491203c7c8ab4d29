//! Loaded code images and the translation of runtime addresses into the
//! address space stated by each image's own metadata.

use vstd::prelude::*;

verus! {

/// A contiguous region of a library, as stated in the binary's metadata.
pub struct LibrarySegment {
    /// The stated address of this segment in the object file. The library's
    /// `bias` added to it gives where the segment is loaded.
    pub stated_virtual_memory_address: usize,
    /// The size of this segment in memory.
    pub len: usize,
}

/// One code image loaded into the process.
pub struct Library {
    /// Path of the image's file, as raw bytes; may be empty.
    pub name: Vec<u8>,
    /// Segments of this library loaded into memory.
    pub segments: Vec<LibrarySegment>,
    /// Offset added to a stated address to obtain the runtime address, and
    /// subtracted from a runtime address to index debug info and symbols.
    pub bias: usize,
}

/// `addr` lies in `[bias + svma, bias + svma + len)`, computed without wrapping.
pub open spec fn segment_contains(bias: int, s: LibrarySegment, addr: int) -> bool {
    bias + s.stated_virtual_memory_address <= addr
        && addr < bias + s.stated_virtual_memory_address + s.len
}

/// Some segment of `lib` contains the runtime address `addr`.
pub open spec fn library_contains(lib: Library, addr: int) -> bool {
    exists|k: int|
        0 <= k < lib.segments@.len() && #[trigger] segment_contains(
            lib.bias as int,
            lib.segments@[k],
            addr,
        )
}

/// The translation of `addr` over `libs`: the first library (lowest index)
/// with a segment containing `addr`, and `addr` less that library's bias.
pub open spec fn translation(libs: Seq<Library>, addr: usize) -> Option<(usize, usize)>
    decreases libs.len(),
{
    if libs.len() == 0 {
        None
    } else {
        match translation(libs.drop_last(), addr) {
            Some(t) => Some(t),
            None => if library_contains(libs.last(), addr as int) {
                Some(((libs.len() - 1) as usize, (addr - libs.last().bias) as usize))
            } else {
                None
            },
        }
    }
}

/// `translation` is exactly "first library that contains the address".
pub proof fn lemma_translation_first(libs: Seq<Library>, addr: usize)
    requires
        libs.len() <= usize::MAX,
    ensures
        match translation(libs, addr) {
            None => forall|j: int| 0 <= j < libs.len() ==> !library_contains(#[trigger] libs[j], addr as int),
            Some((i, svma)) => {
                &&& i < libs.len()
                &&& library_contains(libs[i as int], addr as int)
                &&& forall|j: int| 0 <= j < i ==> !library_contains(#[trigger] libs[j], addr as int)
                &&& libs[i as int].bias <= addr
                &&& svma == addr - libs[i as int].bias
            },
        },
    decreases libs.len(),
{
    if libs.len() > 0 {
        let pre = libs.drop_last();
        let n = libs.len() - 1;
        lemma_translation_first(pre, addr);
        assert forall|j: int| 0 <= j < pre.len() implies pre[j] == libs[j] by {}
        if let Some((i, _)) = translation(pre, addr) {
            assert(pre[i as int] == libs[i as int]);
        } else {
            if library_contains(libs[n], addr as int) {
                let k = choose|k: int|
                    0 <= k < libs[n].segments@.len() && #[trigger] segment_contains(
                        libs[n].bias as int,
                        libs[n].segments@[k],
                        addr as int,
                    );
                assert(libs[n].bias <= addr);
            } else {
                assert forall|j: int| 0 <= j < libs.len() implies !library_contains(
                    #[trigger] libs[j],
                    addr as int,
                ) by {
                    if j < n {
                        assert(pre[j] == libs[j]);
                    }
                }
            }
        }
    }
}

/// An address that no segment of any library contains has no translation,
/// so resolving it yields nothing.
pub proof fn lemma_outside_every_segment(libs: Seq<Library>, addr: usize)
    requires
        libs.len() <= usize::MAX,
        forall|j: int, k: int|
            0 <= j < libs.len() && 0 <= k < libs[j].segments@.len() ==> !segment_contains(
                libs[j].bias as int,
                #[trigger] libs[j].segments@[k],
                addr as int,
            ),
    ensures
        translation(libs, addr) is None,
{
    lemma_translation_first(libs, addr);
    if let Some((i, _)) = translation(libs, addr) {
        let k = choose|k: int|
            0 <= k < libs[i as int].segments@.len() && #[trigger] segment_contains(
                libs[i as int].bias as int,
                libs[i as int].segments@[k],
                addr as int,
            );
        assert(!segment_contains(libs[i as int].bias as int, libs[i as int].segments@[k], addr as int));
    }
}

/// Once a prefix of `libs` translates `addr`, the whole sequence translates
/// it the same way.
proof fn lemma_translation_prefix(libs: Seq<Library>, n: int, addr: usize)
    requires
        0 <= n <= libs.len(),
        translation(libs.take(n), addr) is Some,
    ensures
        translation(libs, addr) == translation(libs.take(n), addr),
    decreases libs.len(),
{
    if n == libs.len() {
        assert(libs.take(n) =~= libs);
    } else {
        assert(libs.drop_last().take(n) =~= libs.take(n));
        lemma_translation_prefix(libs.drop_last(), n, addr);
    }
}

fn segment_hit(bias: usize, s: &LibrarySegment, addr: usize) -> (r: bool)
    ensures
        r == segment_contains(bias as int, *s, addr as int),
{
    let start: u128 = bias as u128 + s.stated_virtual_memory_address as u128;
    let end: u128 = start + s.len as u128;
    start <= addr as u128 && (addr as u128) < end
}

impl Library {
    /// Whether some segment of this library holds the runtime address `addr`.
    pub fn contains(&self, addr: usize) -> (r: bool)
        ensures
            r == library_contains(*self, addr as int),
    {
        let mut k: usize = 0;
        while k < self.segments.len()
            invariant
                k <= self.segments@.len(),
                forall|j: int|
                    0 <= j < k ==> !#[trigger] segment_contains(
                        self.bias as int,
                        self.segments@[j],
                        addr as int,
                    ),
            decreases self.segments@.len() - k,
        {
            if segment_hit(self.bias, &self.segments[k], addr) {
                return true;
            }
            k = k + 1;
        }
        false
    }
}

/// Translates a runtime address into `(library index, stated address)`,
/// scanning `libs` in order; `None` when no segment of any library holds it.
pub fn avma_to_svma(libs: &Vec<Library>, addr: usize) -> (r: Option<(usize, usize)>)
    ensures
        r == translation(libs@, addr),
{
    let mut i: usize = 0;
    while i < libs.len()
        invariant
            i <= libs@.len(),
            translation(libs@.take(i as int), addr) is None,
        decreases libs@.len() - i,
    {
        assert(libs@.take(i as int + 1).drop_last() =~= libs@.take(i as int));
        if libs[i].contains(addr) {
            proof {
                let k = choose|k: int|
                    0 <= k < libs@[i as int].segments@.len() && #[trigger] segment_contains(
                        libs@[i as int].bias as int,
                        libs@[i as int].segments@[k],
                        addr as int,
                    );
            }
            let r = Some((i, addr - libs[i].bias));
            proof {
                lemma_translation_prefix(libs@, i as int + 1, addr);
            }
            return r;
        }
        i = i + 1;
    }
    assert(libs@.take(i as int) =~= libs@);
    None
}

} // verus!
