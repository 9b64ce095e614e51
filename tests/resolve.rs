use v8find4rs::v8_app::V8Arch;
use v8find4rs::v8_finder::v8_platform::V8Platform;
use v8find4rs::v8_finder::{SearchPriority, V8Finder, VersionError};

fn build(generation: u32, version: u32, build: u32, arch: V8Arch, path: &str) -> V8Platform {
    V8Platform { generation, version, build, arch, path: path.to_string() }
}

fn example_finder() -> V8Finder {
    V8Finder::new(Some(vec![
        build(3, 13, 1234, V8Arch::X86, "a"),
        build(3, 13, 1400, V8Arch::X64, "b"),
        build(3, 14, 1, V8Arch::X64, "c"),
    ]))
}

fn key(p: &V8Platform) -> (u32, u32, u32, V8Arch) {
    (p.generation, p.version, p.build, p.arch)
}

#[test]
fn example_three_groups_prefers_higher_build() {
    let f = example_finder();
    let p = f.get_platform("8.3.13", SearchPriority::X32_64).unwrap().unwrap();
    assert_eq!(key(p), (3, 13, 1400, V8Arch::X64));
    assert_eq!(p.path, "b");
}

#[test]
fn example_two_groups_x32() {
    let f = example_finder();
    let p = f.get_platform("8.3", SearchPriority::X32).unwrap().unwrap();
    assert_eq!(key(p), (3, 13, 1234, V8Arch::X86));
}

#[test]
fn example_exact_build_missing() {
    let f = example_finder();
    assert!(f.get_platform("8.3.13.9999", SearchPriority::X64).unwrap().is_none());
}

#[test]
fn two_groups_x64_takes_newest() {
    let f = example_finder();
    let p = f.get_platform("8.3", SearchPriority::X64).unwrap().unwrap();
    assert_eq!(key(p), (3, 14, 1, V8Arch::X64));
    let q = f.get_platform("8.3", SearchPriority::X64_32).unwrap().unwrap();
    assert_eq!(key(q), (3, 14, 1, V8Arch::X64));
}

#[test]
fn four_groups_exact_match() {
    let f = example_finder();
    let p = f.get_platform("8.3.13.1234", SearchPriority::X32).unwrap().unwrap();
    assert_eq!(key(p), (3, 13, 1234, V8Arch::X86));
    assert!(f.get_platform("8.3.13.1234", SearchPriority::X64).unwrap().is_none());
}

#[test]
fn x32_without_32_bit_build_finds_nothing() {
    let f = example_finder();
    assert!(f.get_platform("8.3.14", SearchPriority::X32).unwrap().is_none());
}

#[test]
fn wrong_group_count_finds_nothing() {
    let f = example_finder();
    assert!(f.get_platform("8", SearchPriority::X64).unwrap().is_none());
    assert!(f.get_platform("8.3.13.1234.5", SearchPriority::X64).unwrap().is_none());
    assert!(f.get_platform("", SearchPriority::X64).unwrap().is_none());
}

#[test]
fn non_numeric_group_is_refused() {
    let f = example_finder();
    assert_eq!(f.get_platform("8.x", SearchPriority::X64).err(), Some(VersionError::NonNumericToken));
    assert_eq!(f.get_platform("8.3.", SearchPriority::X64).err(), Some(VersionError::NonNumericToken));
    assert_eq!(
        f.get_platform("8.3.13.99999999999", SearchPriority::X64).err(),
        Some(VersionError::NonNumericToken)
    );
}

#[test]
fn first_group_is_ignored() {
    let f = example_finder();
    let p = f.get_platform("x.3.14", SearchPriority::X64).unwrap().unwrap();
    assert_eq!(key(p), (3, 14, 1, V8Arch::X64));
}

#[test]
fn combined_priorities_pick_x64_on_tie() {
    let f = V8Finder::new(Some(vec![
        build(3, 20, 5, V8Arch::X86, "x86"),
        build(3, 20, 5, V8Arch::X64, "x64"),
    ]));
    for prio in [SearchPriority::X32_64, SearchPriority::X64_32] {
        let p = f.get_platform("8.3.20.5", prio).unwrap().unwrap();
        assert_eq!(p.arch, V8Arch::X64);
        assert_eq!(p.path, "x64");
    }
}

#[test]
fn equal_builds_resolve_to_first_in_catalog() {
    let f = V8Finder::new(Some(vec![
        build(3, 20, 5, V8Arch::X64, "first"),
        build(3, 20, 5, V8Arch::X64, "second"),
        build(3, 19, 9, V8Arch::X64, "older"),
    ]));
    let p = f.get_platform("8.3", SearchPriority::X64).unwrap().unwrap();
    assert_eq!(p.path, "first");
}

#[test]
fn empty_catalog_finds_nothing() {
    let f = V8Finder::new(None);
    assert!(f.platforms().is_empty());
    assert!(f.get_platform("8.3", SearchPriority::X32_64).unwrap().is_none());
}

#[test]
fn build_order_is_lexicographic() {
    let a = build(3, 13, 1234, V8Arch::X86, "a");
    let b = build(3, 13, 1234, V8Arch::X64, "b");
    let c = build(3, 13, 1400, V8Arch::X86, "c");
    let d = build(3, 14, 1, V8Arch::X86, "d");
    assert!(a < b && b < c && c < d && a < d);
    assert!(d > a);
    let a2 = build(3, 13, 1234, V8Arch::X86, "elsewhere");
    assert!(a == a2);
    assert_eq!(a.partial_cmp(&a2), Some(std::cmp::Ordering::Equal));
    assert!(a != b);
}
