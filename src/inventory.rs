//! Building the inventory of loaded libraries from what each platform's
//! loader reports about an image.

use vstd::prelude::*;
use crate::library::{Library, LibrarySegment};

verus! {

/// Program header type of a loadable segment.
pub const PT_LOAD: u32 = 1;

/// One program header of an ELF image, as the loader reports it.
pub struct ProgramHeader {
    /// Segment type.
    pub p_type: u32,
    /// Stated virtual address of the segment.
    pub p_vaddr: usize,
    /// Size of the segment in memory.
    pub p_memsz: usize,
}

/// The segments of the loadable program headers among `hs`, in order.
pub open spec fn load_segments(hs: Seq<ProgramHeader>) -> Seq<LibrarySegment>
    decreases hs.len(),
{
    if hs.len() == 0 {
        Seq::empty()
    } else if hs.last().p_type == PT_LOAD {
        load_segments(hs.drop_last()).push(
            LibrarySegment {
                stated_virtual_memory_address: hs.last().p_vaddr,
                len: hs.last().p_memsz,
            },
        )
    } else {
        load_segments(hs.drop_last())
    }
}

/// The name an ELF image is recorded under: the loader's name for it, or,
/// when the loader gives none, the executable's own path for the first image
/// and an empty name for any other.
pub open spec fn elf_name(reported: Seq<u8>, first: bool, current_exe: Seq<u8>) -> Seq<u8> {
    if reported.len() > 0 {
        reported
    } else if first {
        current_exe
    } else {
        Seq::empty()
    }
}

/// The library for one ELF image: its loadable program headers as segments
/// and the load address as bias. `first` tells whether it is the first image
/// enumerated, which is the main executable.
pub fn elf_library(
    reported_name: Vec<u8>,
    first: bool,
    current_exe: Vec<u8>,
    headers: &Vec<ProgramHeader>,
    load_addr: usize,
) -> (r: Library)
    ensures
        r.name@ == elf_name(reported_name@, first, current_exe@),
        r.segments@ == load_segments(headers@),
        r.bias == load_addr,
{
    let name = if reported_name.len() > 0 {
        reported_name
    } else if first {
        current_exe
    } else {
        Vec::new()
    };
    let mut segments: Vec<LibrarySegment> = Vec::new();
    let mut i: usize = 0;
    while i < headers.len()
        invariant
            i <= headers@.len(),
            segments@ == load_segments(headers@.take(i as int)),
        decreases headers@.len() - i,
    {
        assert(headers@.take(i as int + 1).drop_last() =~= headers@.take(i as int));
        let h = &headers[i];
        if h.p_type == PT_LOAD {
            segments.push(LibrarySegment { stated_virtual_memory_address: h.p_vaddr, len: h.p_memsz });
        }
        i = i + 1;
    }
    assert(headers@.take(i as int) =~= headers@);
    Library { name, segments, bias: load_addr }
}

/// The single library that stands for the process where the platform cannot
/// enumerate images: the current executable over the whole address space,
/// with no bias. No library at all when the executable's path is unknown.
pub fn coff_libraries(current_exe: Option<Vec<u8>>) -> (r: Vec<Library>)
    ensures
        match current_exe {
            Some(path) => r@.len() == 1 && r@[0].name@ == path@ && r@[0].bias == 0
                && r@[0].segments@ == seq![
                LibrarySegment { stated_virtual_memory_address: 0, len: usize::MAX },
            ],
            None => r@.len() == 0,
        },
{
    let mut ret: Vec<Library> = Vec::new();
    match current_exe {
        Some(path) => {
            let mut segments: Vec<LibrarySegment> = Vec::new();
            segments.push(LibrarySegment { stated_virtual_memory_address: 0, len: usize::MAX });
            ret.push(Library { name: path, segments, bias: 0 });
            assert(ret@[0].segments@ =~= seq![
                LibrarySegment { stated_virtual_memory_address: 0, len: usize::MAX },
            ]);
        },
        None => {},
    }
    ret
}

/// One segment load command of a Mach-O image.
pub struct SegmentCommand {
    /// Segment name, without its trailing NUL padding.
    pub name: Vec<u8>,
    /// Offset of the segment's contents in the file.
    pub fileoff: u64,
    /// Size of the segment's contents in the file.
    pub filesize: u64,
    /// Stated virtual address of the segment.
    pub vmaddr: u64,
    /// Size of the segment in memory.
    pub vmsize: u64,
}

/// `n` is the name `__TEXT`.
pub open spec fn is_text_name(n: Seq<u8>) -> bool {
    n == seq![0x5fu8, 0x5fu8, 0x54u8, 0x45u8, 0x58u8, 0x54u8]
}

/// A text segment loaded from file offset zero with a nonzero size.
pub open spec fn anchors_text(c: SegmentCommand) -> bool {
    is_text_name(c.name@) && c.fileoff == 0 && c.filesize > 0
}

/// The command's address and size fit the address space.
pub open spec fn fits(c: SegmentCommand) -> bool {
    c.vmaddr <= usize::MAX && c.vmsize <= usize::MAX
}

/// `t` is the index of the first text segment of `cs`.
pub open spec fn is_first_text(cs: Seq<SegmentCommand>, t: int) -> bool {
    &&& 0 <= t < cs.len()
    &&& is_text_name(cs[t].name@)
    &&& forall|k: int| 0 <= k < t ==> !is_text_name(#[trigger] cs[k].name@)
}

/// Index of the first text segment of `cs`, or 0 when there is none.
pub open spec fn first_text(cs: Seq<SegmentCommand>) -> int {
    if exists|t: int| is_first_text(cs, t) {
        choose|t: int| is_first_text(cs, t)
    } else {
        0
    }
}

/// The amount by which stated addresses move down and the bias moves up:
/// none when a text segment is anchored at file offset zero, else the
/// stated address of the first text segment (of the first segment when no
/// segment is named `__TEXT`).
pub open spec fn text_adjust(cs: Seq<SegmentCommand>) -> int {
    if cs.len() == 0 || exists|k: int| 0 <= k < cs.len() && anchors_text(#[trigger] cs[k]) {
        0
    } else {
        cs[first_text(cs)].vmaddr as int
    }
}

/// The image cannot be recorded: an address or size does not fit, or the
/// adjustment would move an address below zero or the bias past the top.
pub open spec fn macho_rejected(cs: Seq<SegmentCommand>, slide: usize) -> bool {
    ||| exists|k: int| 0 <= k < cs.len() && !fits(#[trigger] cs[k])
    ||| slide + text_adjust(cs) > usize::MAX
    ||| exists|k: int| 0 <= k < cs.len() && (#[trigger] cs[k]).vmaddr < text_adjust(cs)
}

fn is_text_segment(name: &Vec<u8>) -> (r: bool)
    ensures
        r == is_text_name(name@),
{
    let r = name.len() == 6 && name[0] == 0x5f && name[1] == 0x5f && name[2] == 0x54 && name[3]
        == 0x45 && name[4] == 0x58 && name[5] == 0x54;
    assert(r ==> name@ =~= seq![0x5fu8, 0x5fu8, 0x54u8, 0x45u8, 0x58u8, 0x54u8]);
    r
}

/// The library for one Mach-O image from its segment commands and the slide
/// the loader applied. When no text segment is anchored at file offset zero,
/// every stated address moves down by the first text segment's stated
/// address and the bias moves up by the same amount; the runtime address of
/// each segment is unchanged. `None` when the image cannot be recorded.
pub fn macho_library(name: Vec<u8>, commands: &Vec<SegmentCommand>, slide: usize) -> (r: Option<Library>)
    ensures
        r is None <==> macho_rejected(commands@, slide),
        r matches Some(lib) ==> {
            &&& lib.name@ == name@
            &&& lib.bias == slide + text_adjust(commands@)
            &&& lib.segments@.len() == commands@.len()
            &&& forall|k: int|
                0 <= k < commands@.len() ==> (#[trigger] lib.segments@[k]).stated_virtual_memory_address
                    == commands@[k].vmaddr - text_adjust(commands@) && lib.segments@[k].len
                    == commands@[k].vmsize
        },
{
    let ghost cs = commands@;
    let mut segments: Vec<LibrarySegment> = Vec::new();
    let mut first: Option<usize> = None;
    let mut text_fileoff_zero = false;
    let mut i: usize = 0;
    while i < commands.len()
        invariant
            cs == commands@,
            i <= cs.len(),
            segments@.len() == i,
            forall|k: int|
                0 <= k < i ==> fits(#[trigger] cs[k]) && segments@[k].stated_virtual_memory_address
                    == cs[k].vmaddr && segments@[k].len == cs[k].vmsize,
            text_fileoff_zero == exists|k: int| 0 <= k < i && anchors_text(#[trigger] cs[k]),
            match first {
                Some(t) => t < i && is_first_text(cs, t as int),
                None => forall|k: int| 0 <= k < i ==> !is_text_name(#[trigger] cs[k].name@),
            },
        decreases cs.len() - i,
    {
        let c = &commands[i];
        if c.vmaddr > usize::MAX as u64 || c.vmsize > usize::MAX as u64 {
            assert(!fits(cs[i as int]));
            return None;
        }
        if is_text_segment(&c.name) {
            if first.is_none() {
                first = Some(i);
            }
            if c.fileoff == 0 && c.filesize > 0 {
                text_fileoff_zero = true;
            }
        }
        segments.push(
            LibrarySegment { stated_virtual_memory_address: c.vmaddr as usize, len: c.vmsize as usize },
        );
        i = i + 1;
    }
    let adjust: usize = if text_fileoff_zero || segments.len() == 0 {
        0
    } else {
        match first {
            Some(t) => segments[t].stated_virtual_memory_address,
            None => segments[0].stated_virtual_memory_address,
        }
    };
    proof {
        if let Some(t) = first {
            assert forall|u: int| is_first_text(cs, u) implies u == t by {
                if u < t {
                    assert(!is_text_name(cs[u].name@));
                } else if u > t {
                    assert(!is_text_name(cs[t as int].name@));
                }
            }
            assert(first_text(cs) == t);
        } else {
            assert(!exists|u: int| is_first_text(cs, u));
        }
        assert(adjust == text_adjust(cs));
    }
    if adjust > usize::MAX - slide {
        return None;
    }
    let mut adjusted: Vec<LibrarySegment> = Vec::new();
    let mut j: usize = 0;
    while j < segments.len()
        invariant
            cs == commands@,
            segments@.len() == cs.len(),
            adjust == text_adjust(cs),
            j <= cs.len(),
            adjusted@.len() == j,
            forall|k: int|
                0 <= k < cs.len() ==> fits(#[trigger] cs[k]) && segments@[k].stated_virtual_memory_address
                    == cs[k].vmaddr && segments@[k].len == cs[k].vmsize,
            forall|k: int| 0 <= k < j ==> (#[trigger] cs[k]).vmaddr >= adjust,
            forall|k: int|
                0 <= k < j ==> (#[trigger] adjusted@[k]).stated_virtual_memory_address
                    == cs[k].vmaddr - adjust && adjusted@[k].len == cs[k].vmsize,
        decreases cs.len() - j,
    {
        let s = &segments[j];
        assert(fits(cs[j as int]));
        if s.stated_virtual_memory_address < adjust {
            assert(cs[j as int].vmaddr < text_adjust(cs));
            return None;
        }
        adjusted.push(
            LibrarySegment {
                stated_virtual_memory_address: s.stated_virtual_memory_address - adjust,
                len: s.len,
            },
        );
        j = j + 1;
    }
    assert(forall|k: int| 0 <= k < cs.len() ==> (#[trigger] cs[k]).vmaddr >= text_adjust(cs));
    Some(Library { name, segments: adjusted, bias: slide + adjust })
}

} // verus!
