use std::cell::Cell;
use symbolize::cache::{Cache, MAPPINGS_CACHE_SIZE};
use symbolize::inventory::{
    coff_libraries, elf_library, macho_library, ProgramHeader, SegmentCommand, PT_LOAD,
};
use symbolize::library::{avma_to_svma, Library, LibrarySegment};
use symbolize::resolve::{clear_symbol_cache, resolve};
use symbolize::symbol::{Frame, Location, Symbol};
use symbolize::symbolize::Symbol as SymbolView;

fn lib(name: &str, svma: usize, len: usize, bias: usize) -> Library {
    Library {
        name: name.as_bytes().to_vec(),
        segments: vec![LibrarySegment { stated_virtual_memory_address: svma, len }],
        bias,
    }
}

fn frame(file: &str, line: u32, name: &str) -> Frame {
    Frame {
        location: Some(Location { file: Some(file.to_string()), line: Some(line) }),
        name: Some(name.as_bytes().to_vec()),
    }
}

fn summary(syms: &[Symbol]) -> Vec<(Option<Vec<u8>>, Option<String>, Option<u32>)> {
    syms.iter()
        .map(|s| (s.name().map(|n| n.to_vec()), s.filename().map(|f| f.to_string()), s.lineno()))
        .collect()
}

#[test]
fn translates_inside_and_outside_segment() {
    let libs = vec![lib("a", 0x1000, 0x2000, 0x5000)];
    assert_eq!(avma_to_svma(&libs, 0x6500), Some((0, 0x1500)));
    assert_eq!(avma_to_svma(&libs, 0x8500), None);
    assert_eq!(avma_to_svma(&libs, 0x6000), Some((0, 0x1000)));
    assert_eq!(avma_to_svma(&libs, 0x8000), None);
    assert_eq!(avma_to_svma(&libs, 0x5fff), None);
}

#[test]
fn first_matching_library_wins() {
    let libs = vec![lib("a", 0, 0x100, 0x1000), lib("b", 0, 0x1000, 0x800), lib("c", 0, 0x1000, 0x1000)];
    assert_eq!(avma_to_svma(&libs, 0x1050), Some((0, 0x50)));
    assert_eq!(avma_to_svma(&libs, 0x1500), Some((1, 0xd00)));
    assert_eq!(avma_to_svma(&libs, 0x1900), Some((2, 0x900)));
    assert_eq!(avma_to_svma(&Vec::new(), 0x1900), None);
}

#[test]
fn segment_end_near_top_of_address_space() {
    let libs = vec![lib("a", usize::MAX - 0x10, 0x100, 0x8)];
    assert_eq!(avma_to_svma(&libs, 0x4), None);
    assert_eq!(avma_to_svma(&libs, usize::MAX - 0x4), Some((0, usize::MAX - 0xc)));
}

#[test]
fn outside_every_segment_yields_nothing() {
    let mut cache: Cache<u32> = Cache::new(vec![lib("a", 0x1000, 0x2000, 0x5000)]);
    let built = Cell::new(0);
    let r = resolve(
        &mut cache,
        0x8500,
        |_l: &Library| {
            built.set(built.get() + 1);
            Some(1)
        },
        |_m: &u32, _a: usize| vec![frame("x.rs", 1, "f")],
        |_m: &u32, _a: usize| Some(b"sym".to_vec()),
    );
    assert!(r.is_empty());
    assert_eq!(built.get(), 0);
    assert_eq!(cache.len(), 0);
}

#[test]
fn inlined_frames_innermost_first_without_fallback() {
    let mut cache: Cache<u32> = Cache::new(vec![lib("a", 0x1000, 0x2000, 0x5000)]);
    let searched = Cell::new(false);
    let r = resolve(
        &mut cache,
        0x6500,
        |_l: &Library| Some(7),
        |_m: &u32, a: usize| {
            assert_eq!(a, 0x1500);
            vec![frame("inner.rs", 10, "inner"), frame("outer.rs", 20, "outer")]
        },
        |_m: &u32, _a: usize| {
            searched.set(true);
            Some(b"sym".to_vec())
        },
    );
    assert!(!searched.get());
    assert_eq!(r.len(), 2);
    assert_eq!(r[0].name(), Some(&b"inner"[..]));
    assert_eq!(r[0].filename(), Some("inner.rs"));
    assert_eq!(r[0].filename_raw(), Some(&b"inner.rs"[..]));
    assert_eq!(r[0].lineno(), Some(10));
    assert_eq!(r[0].addr(), Some(0x1500));
    assert_eq!(r[1].name(), Some(&b"outer"[..]));
    assert_eq!(r[1].lineno(), Some(20));
}

#[test]
fn missing_debug_info_falls_back_to_symbol_table() {
    let mut cache: Cache<u32> = Cache::new(vec![lib("a", 0x1000, 0x2000, 0x5000)]);
    let r = resolve(
        &mut cache,
        0x6500,
        |_l: &Library| Some(7),
        |_m: &u32, _a: usize| Vec::new(),
        |_m: &u32, a: usize| {
            assert_eq!(a, 0x1500);
            Some(b"main".to_vec())
        },
    );
    assert_eq!(r.len(), 1);
    assert!(matches!(r[0], Symbol::Symtab { .. }));
    assert_eq!(r[0].name(), Some(&b"main"[..]));
    assert_eq!(r[0].addr(), None);
    assert_eq!(r[0].filename(), None);
    assert_eq!(r[0].filename_raw(), None);
    assert_eq!(r[0].lineno(), None);

    let r = resolve(
        &mut cache,
        0x6500,
        |_l: &Library| Some(7),
        |_m: &u32, _a: usize| Vec::new(),
        |_m: &u32, _a: usize| None,
    );
    assert!(r.is_empty());
}

#[test]
fn unbuildable_context_yields_nothing() {
    let mut cache: Cache<u32> = Cache::new(vec![lib("a", 0x1000, 0x2000, 0x5000)]);
    let r = resolve(
        &mut cache,
        0x6500,
        |_l: &Library| None,
        |_m: &u32, _a: usize| vec![frame("x.rs", 1, "f")],
        |_m: &u32, _a: usize| Some(b"sym".to_vec()),
    );
    assert!(r.is_empty());
    assert_eq!(cache.len(), 0);
}

#[test]
fn builder_sees_the_translated_library() {
    let mut cache: Cache<u32> =
        Cache::new(vec![lib("first", 0, 0x10, 0x100), lib("second", 0, 0x10, 0x200)]);
    let seen = std::cell::RefCell::new(Vec::new());
    resolve(
        &mut cache,
        0x205,
        |l: &Library| {
            seen.borrow_mut().push(l.name.clone());
            Some(2)
        },
        |m: &u32, _a: usize| {
            assert_eq!(*m, 2);
            Vec::new()
        },
        |_m: &u32, _a: usize| None,
    );
    assert_eq!(*seen.borrow(), vec![b"second".to_vec()]);
    assert_eq!(cache.key_at(0), 1);
}

#[test]
fn promotion_reuses_cached_context() {
    let libs = vec![lib("a", 0, 0x10, 0), lib("b", 0, 0x10, 0x10), lib("c", 0, 0x10, 0x20)];
    let mut cache: Cache<usize> = Cache::new(libs);
    let builds = Cell::new(0);
    let mut touch = |cache: &mut Cache<usize>, i: usize| {
        cache.mapping_for_lib(i, |_l: &Library| {
            builds.set(builds.get() + 1);
            Some(i * 100)
        })
    };
    assert!(touch(&mut cache, 0));
    assert!(touch(&mut cache, 1));
    assert_eq!(builds.get(), 2);
    assert!(touch(&mut cache, 0));
    assert_eq!(builds.get(), 2);
    assert_eq!(cache.key_at(0), 0);
    assert_eq!(*cache.front(), 0);
    assert_eq!(cache.key_at(1), 1);
    assert_eq!(cache.len(), 2);
}

#[test]
fn eviction_drops_least_recently_used() {
    let libs: Vec<Library> = (0..6).map(|i| lib("l", 0, 0x10, i * 0x10)).collect();
    let mut cache: Cache<usize> = Cache::new(libs);
    for i in 0..MAPPINGS_CACHE_SIZE + 1 {
        assert!(cache.mapping_for_lib(i, |_l: &Library| Some(i)));
    }
    assert_eq!(cache.len(), MAPPINGS_CACHE_SIZE);
    let keys: Vec<usize> = (0..cache.len()).map(|p| cache.key_at(p)).collect();
    assert_eq!(keys, vec![4, 3, 2, 1]);
    assert!(!keys.contains(&0));
}

#[test]
fn eviction_with_capacity_two() {
    let libs: Vec<Library> = (0..4).map(|i| lib("l", 0, 0x10, i * 0x10)).collect();
    let mut cache: Cache<usize> = Cache::with_capacity(libs, 2);
    for i in [0usize, 1, 0, 2] {
        assert!(cache.mapping_for_lib(i, |_l: &Library| Some(i)));
    }
    let keys: Vec<usize> = (0..cache.len()).map(|p| cache.key_at(p)).collect();
    assert_eq!(keys, vec![2, 0]);
}

#[test]
fn resolving_twice_gives_identical_frames() {
    let mut cache: Cache<u32> = Cache::new(vec![lib("a", 0x1000, 0x2000, 0x5000)]);
    let builds = Cell::new(0);
    let mut go = |cache: &mut Cache<u32>| {
        resolve(
            cache,
            0x6500,
            |_l: &Library| {
                builds.set(builds.get() + 1);
                Some(3)
            },
            |_m: &u32, _a: usize| vec![frame("a.rs", 3, "f"), frame("b.rs", 4, "g")],
            |_m: &u32, _a: usize| None,
        )
    };
    let first = go(&mut cache);
    let second = go(&mut cache);
    assert_eq!(summary(&first), summary(&second));
    assert_eq!(builds.get(), 1);
}

#[test]
fn clear_then_resolve_rebuilds_with_same_result() {
    let mut cache: Cache<u32> = Cache::new(vec![lib("a", 0x1000, 0x2000, 0x5000)]);
    let builds = Cell::new(0);
    let mut go = |cache: &mut Cache<u32>| {
        resolve(
            cache,
            0x6500,
            |_l: &Library| {
                builds.set(builds.get() + 1);
                Some(3)
            },
            |_m: &u32, _a: usize| vec![frame("a.rs", 3, "f")],
            |_m: &u32, _a: usize| None,
        )
    };
    let first = go(&mut cache);
    clear_symbol_cache(&mut cache);
    assert_eq!(cache.len(), 0);
    assert_eq!(cache.libraries_ref().len(), 1);
    let second = go(&mut cache);
    assert_eq!(summary(&first), summary(&second));
    assert_eq!(builds.get(), 2);
}

#[test]
fn frame_without_location_or_name() {
    let mut cache: Cache<u32> = Cache::new(vec![lib("a", 0, 0x10, 0)]);
    let r = resolve(
        &mut cache,
        0x4,
        |_l: &Library| Some(1),
        |_m: &u32, _a: usize| vec![Frame { location: None, name: None }],
        |_m: &u32, _a: usize| Some(b"sym".to_vec()),
    );
    assert_eq!(r.len(), 1);
    assert_eq!(r[0].name(), None);
    assert_eq!(r[0].filename(), None);
    assert_eq!(r[0].lineno(), None);
    assert_eq!(r[0].addr(), Some(4));
}

#[test]
fn elf_keeps_loadable_headers_and_names_main_executable() {
    let headers = vec![
        ProgramHeader { p_type: 6, p_vaddr: 0x40, p_memsz: 0x2a0 },
        ProgramHeader { p_type: PT_LOAD, p_vaddr: 0, p_memsz: 0x1000 },
        ProgramHeader { p_type: PT_LOAD, p_vaddr: 0x2000, p_memsz: 0x500 },
    ];
    let l = elf_library(Vec::new(), true, b"/bin/app".to_vec(), &headers, 0x5555_0000);
    assert_eq!(l.name, b"/bin/app".to_vec());
    assert_eq!(l.bias, 0x5555_0000);
    assert_eq!(l.segments.len(), 2);
    assert_eq!(l.segments[1].stated_virtual_memory_address, 0x2000);
    assert_eq!(l.segments[1].len, 0x500);

    let l = elf_library(Vec::new(), false, b"/bin/app".to_vec(), &headers, 0);
    assert!(l.name.is_empty());
    let l = elf_library(b"libc.so".to_vec(), true, b"/bin/app".to_vec(), &headers, 0);
    assert_eq!(l.name, b"libc.so".to_vec());
}

fn seg(name: &str, fileoff: u64, filesize: u64, vmaddr: u64, vmsize: u64) -> SegmentCommand {
    SegmentCommand { name: name.as_bytes().to_vec(), fileoff, filesize, vmaddr, vmsize }
}

#[test]
fn macho_text_at_file_offset_zero_keeps_addresses() {
    let cmds = vec![
        seg("__PAGEZERO", 0, 0, 0, 0x1_0000_0000),
        seg("__TEXT", 0, 0x4000, 0x1_0000_0000, 0x4000),
    ];
    let l = macho_library(b"/bin/app".to_vec(), &cmds, 0x1000).unwrap();
    assert_eq!(l.bias, 0x1000);
    assert_eq!(l.segments[1].stated_virtual_memory_address, 0x1_0000_0000);
    assert_eq!(l.segments[0].len, 0x1_0000_0000);
}

#[test]
fn macho_without_anchored_text_shifts_by_first_text() {
    let cmds = vec![
        seg("__TEXT", 0x1000, 0x4000, 0x7000_0000, 0x4000),
        seg("__DATA", 0x5000, 0x1000, 0x7000_4000, 0x1000),
        seg("__TEXT", 0, 0, 0x7100_0000, 0x10),
    ];
    let l = macho_library(b"libsys.dylib".to_vec(), &cmds, 0x20).unwrap();
    assert_eq!(l.bias, 0x7000_0020);
    assert_eq!(l.segments[0].stated_virtual_memory_address, 0);
    assert_eq!(l.segments[1].stated_virtual_memory_address, 0x4000);
    assert_eq!(l.segments[2].stated_virtual_memory_address, 0x100_0000);
    let libs = vec![l];
    assert_eq!(avma_to_svma(&libs, 0x7000_4030), Some((0, 0x4010)));
}

#[test]
fn macho_rejects_underflowing_adjustment() {
    let cmds = vec![
        seg("__TEXT", 0x1000, 0x10, 0x2000, 0x10),
        seg("__LINKEDIT", 0x2000, 0x10, 0x1000, 0x10),
    ];
    assert!(macho_library(Vec::new(), &cmds, 0).is_none());
    let cmds = vec![seg("__TEXT", 0x1000, 0x10, 0x2000, 0x10)];
    assert!(macho_library(Vec::new(), &cmds, usize::MAX - 0x10).is_none());
    let empty = macho_library(b"x".to_vec(), &Vec::new(), 5).unwrap();
    assert_eq!(empty.bias, 5);
    assert!(empty.segments.is_empty());
}

#[test]
fn coff_covers_whole_address_space() {
    let libs = coff_libraries(Some(b"app.exe".to_vec()));
    assert_eq!(libs.len(), 1);
    assert_eq!(libs[0].bias, 0);
    assert_eq!(libs[0].segments[0].len, usize::MAX);
    assert_eq!(avma_to_svma(&libs, 0x1234), Some((0, 0x1234)));
    assert!(coff_libraries(None).is_empty());
}

#[test]
fn symbol_trait_reports_name_and_address() {
    let s = Symbol::Frame { addr: 9, location: None, name: Some(b"f".to_vec()) };
    assert_eq!(SymbolView::name(&s), Some(&b"f"[..]));
    assert_eq!(SymbolView::addr(&s), Some(9));
}
