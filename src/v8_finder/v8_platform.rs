//! Installed builds: the version grammar of their directories, their order,
//! and the catalog assembled from the candidate roots.
use crate::text::{
    base_name, base_name_of, decimal_text, decimal_u32, is_digit, lemma_decimal_text,
    lemma_split_on_join, lemma_split_on_plain, parse_u32, split_on, split_str,
};
use crate::text::joined_with;
use crate::v8_app::{app_relative, arch_rank, host_sep, HostOs, V8AppType, V8Arch};
use std::cmp::Ordering;
use vstd::prelude::*;

verus! {

/// One installed build. Two builds are equal, and ordered, by generation,
/// minor version, build number and architecture; the path takes no part.
#[derive(Clone, Debug)]
pub struct V8Platform {
    /// The second group of the version: `13` in `8.3.13.1234` is the minor
    /// version and `3` the generation.
    pub generation: u32,
    /// The third group of the version.
    pub version: u32,
    /// The fourth group of the version.
    pub build: u32,
    /// The processor architecture.
    pub arch: V8Arch,
    /// The build's directory.
    pub path: String,
}

/// One entry of a root's listing.
pub struct ListedEntry {
    /// The entry's path.
    pub path: String,
    /// Whether the entry is a directory.
    pub is_dir: bool,
    /// The architecture detected for the entry; it is read only for a
    /// directory named as a version.
    pub arch: V8Arch,
}

/// The fields that identify and order a build.
pub open spec fn same_key(a: V8Platform, b: V8Platform) -> bool {
    &&& a.generation == b.generation
    &&& a.version == b.version
    &&& a.build == b.build
    &&& a.arch == b.arch
}

/// `a` comes before `b`: lexicographic on generation, minor version, build
/// number and architecture.
pub open spec fn key_lt(a: V8Platform, b: V8Platform) -> bool {
    ||| a.generation < b.generation
    ||| (a.generation == b.generation && a.version < b.version)
    ||| (a.generation == b.generation && a.version == b.version && a.build < b.build)
    ||| (a.generation == b.generation && a.version == b.version && a.build == b.build
        && arch_rank(a.arch) < arch_rank(b.arch))
}

/// How `a` compares with `b` in the order of builds.
pub open spec fn key_cmp(a: V8Platform, b: V8Platform) -> Ordering {
    if key_lt(a, b) {
        Ordering::Less
    } else if same_key(a, b) {
        Ordering::Equal
    } else {
        Ordering::Greater
    }
}

impl PartialEq for V8Platform {
    fn eq(&self, other: &Self) -> (r: bool) {
        self.generation == other.generation && self.version == other.version && self.build
            == other.build && self.arch == other.arch
    }
}

impl vstd::std_specs::cmp::PartialEqSpecImpl for V8Platform {
    open spec fn obeys_eq_spec() -> bool {
        true
    }

    open spec fn eq_spec(&self, other: &V8Platform) -> bool {
        same_key(*self, *other)
    }
}

impl Eq for V8Platform {

}

impl PartialOrd for V8Platform {
    fn partial_cmp(&self, other: &Self) -> (r: Option<Ordering>) {
        Some(self.key_cmp(other))
    }
}

impl vstd::std_specs::cmp::PartialOrdSpecImpl for V8Platform {
    open spec fn obeys_partial_cmp_spec() -> bool {
        true
    }

    open spec fn partial_cmp_spec(&self, other: &V8Platform) -> Option<Ordering> {
        Some(key_cmp(*self, *other))
    }
}

/// The order of builds is a strict total order: irreflexive, transitive, and
/// any two builds are ordered one way or the other unless they are equal.
pub proof fn lemma_order_total_transitive(a: V8Platform, b: V8Platform, c: V8Platform)
    ensures
        !key_lt(a, a),
        key_lt(a, b) && key_lt(b, c) ==> key_lt(a, c),
        key_lt(a, b) || key_lt(b, a) || same_key(a, b),
        !(key_lt(a, b) && key_lt(b, a)),
        key_cmp(a, b) == Ordering::Less <==> key_cmp(b, a) == Ordering::Greater,
{
}

/// The version groups that a directory name holds: the name must be exactly
/// four dot-separated groups of ASCII digits, the first two of one digit each,
/// the last two of one or more digits whose values fit in `u32`. The first
/// group (the product's major number) is dropped; the others are the
/// generation, the minor version and the build number.
pub open spec fn version_of(name: Seq<char>) -> Option<(u32, u32, u32)> {
    let t = split_on(name, '.');
    if t.len() == 4 && t[0].len() == 1 && is_digit(t[0][0]) && t[1].len() == 1
        && decimal_u32(t[1]).is_some() && decimal_u32(t[2]).is_some() && decimal_u32(
        t[3],
    ).is_some() {
        Some((decimal_u32(t[1]).unwrap(), decimal_u32(t[2]).unwrap(), decimal_u32(t[3]).unwrap()))
    } else {
        None
    }
}

/// The directory name of a version: the four numbers in decimal, joined by dots.
pub open spec fn version_text(major: nat, generation: nat, version: nat, build: nat) -> Seq<char> {
    decimal_text(major).push('.') + decimal_text(generation)
        .push('.') + decimal_text(version)
        .push('.') + decimal_text(build)
}

/// A directory name written from a one-digit major number, a one-digit
/// generation, a minor version and a build number reads back as those three
/// numbers.
pub proof fn lemma_version_text_parses(major: nat, generation: nat, version: u32, build: u32)
    requires
        major < 10,
        generation < 10,
    ensures
        version_of(version_text(major, generation, version as nat, build as nat)) == Some(
            (generation as u32, version, build),
        ),
{
    let d0 = decimal_text(major);
    let d1 = decimal_text(generation);
    let d2 = decimal_text(version as nat);
    let d3 = decimal_text(build as nat);
    lemma_decimal_text(major);
    lemma_decimal_text(generation);
    lemma_decimal_text(version as nat);
    lemma_decimal_text(build as nat);
    assert forall|k: int| 0 <= k < d0.len() implies d0[k] != '.' by { assert(is_digit(d0[k])); }
    assert forall|k: int| 0 <= k < d1.len() implies d1[k] != '.' by { assert(is_digit(d1[k])); }
    assert forall|k: int| 0 <= k < d2.len() implies d2[k] != '.' by { assert(is_digit(d2[k])); }
    assert forall|k: int| 0 <= k < d3.len() implies d3[k] != '.' by { assert(is_digit(d3[k])); }
    lemma_split_on_plain(Seq::<char>::empty(), d0, '.');
    assert(Seq::<char>::empty() + d0 =~= d0);
    assert(split_on(Seq::<char>::empty(), '.') =~= seq![Seq::<char>::empty()]);
    assert(split_on(d0, '.') =~= seq![d0]);
    let x1 = d0.push('.') + d1;
    lemma_split_on_join(d0, d1, '.');
    let x2 = x1.push('.') + d2;
    lemma_split_on_join(x1, d2, '.');
    let x3 = x2.push('.') + d3;
    lemma_split_on_join(x2, d3, '.');
    let t = split_on(x3, '.');
    assert(t =~= seq![d0, d1, d2, d3]);
    assert(x3 == version_text(major, generation, version as nat, build as nat));
    assert(d0 == seq![crate::text::digit_char(major)]);
    assert(d1 == seq![crate::text::digit_char(generation)]);
    assert(is_digit(d0[0]));
}

/// The build that a directory at `path` holds, with architecture `arch`, if the
/// directory's name is a version.
pub open spec fn platform_of(path: String, arch: V8Arch) -> Option<V8Platform> {
    match version_of(base_name(path@)) {
        Some((g, v, b)) => Some(V8Platform { generation: g, version: v, build: b, arch, path }),
        None => None,
    }
}

/// The builds among the entries of one root, in listing order: one for each
/// directory whose name is a version.
pub open spec fn platforms_of(entries: Seq<ListedEntry>) -> Seq<V8Platform>
    decreases entries.len(),
{
    if entries.len() == 0 {
        Seq::<V8Platform>::empty()
    } else {
        let rest = platforms_of(entries.drop_last());
        let e = entries.last();
        match platform_of(e.path, e.arch) {
            Some(p) => if e.is_dir {
                rest.push(p)
            } else {
                rest
            },
            None => rest,
        }
    }
}

/// The catalog: the builds of each root that could be listed, root after root,
/// with no deduplication.
pub open spec fn catalog_of(roots: Seq<Option<Vec<ListedEntry>>>) -> Seq<V8Platform>
    decreases roots.len(),
{
    if roots.len() == 0 {
        Seq::<V8Platform>::empty()
    } else {
        let rest = catalog_of(roots.drop_last());
        match roots.last() {
            Some(entries) => rest + platforms_of(entries@),
            None => rest,
        }
    }
}

/// Reads the version groups of a directory name.
pub fn parse_version(name: &str) -> (r: Option<(u32, u32, u32)>)
    ensures
        r == version_of(name@),
{
    let t = split_str(name, '.');
    if t.len() != 4 {
        return None;
    }
    let t0 = t[0];
    let t1 = t[1];
    if t0.unicode_len() != 1 || t1.unicode_len() != 1 {
        return None;
    }
    let c = t0.get_char(0);
    if !('0' <= c && c <= '9') {
        return None;
    }
    let g = parse_u32(t1);
    let v = parse_u32(t[2]);
    let b = parse_u32(t[3]);
    match (g, v, b) {
        (Some(g), Some(v), Some(b)) => Some((g, v, b)),
        _ => None,
    }
}

impl V8Platform {
    /// How this build compares with `other`.
    pub fn key_cmp(&self, other: &Self) -> (r: Ordering)
        ensures
            r == key_cmp(*self, *other),
    {
        if self.generation != other.generation {
            if self.generation < other.generation {
                Ordering::Less
            } else {
                Ordering::Greater
            }
        } else if self.version != other.version {
            if self.version < other.version {
                Ordering::Less
            } else {
                Ordering::Greater
            }
        } else if self.build != other.build {
            if self.build < other.build {
                Ordering::Less
            } else {
                Ordering::Greater
            }
        } else {
            match (self.arch, other.arch) {
                (V8Arch::X86, V8Arch::X64) => Ordering::Less,
                (V8Arch::X64, V8Arch::X86) => Ordering::Greater,
                _ => Ordering::Equal,
            }
        }
    }

    /// Where the application `app` of this build lies on host `os`: the path
    /// to look for, which the caller checks for existence.
    pub fn app_path(&self, app: V8AppType, os: HostOs) -> (r: String)
        ensures
            r@ == joined_with(self.path@, app_relative(os, app), host_sep(os)),
    {
        let rel = app.relative_path(os);
        os.join(self.path.as_str(), rel.as_str())
    }

    /// Whether a listed entry is a directory named as a version, so that it
    /// holds a build whose architecture is worth probing.
    pub fn is_version_dir(path: &str, is_dir: bool) -> (r: bool)
        ensures
            r == (is_dir && version_of(base_name(path@)).is_some()),
    {
        is_dir && parse_version(base_name_of(path)).is_some()
    }

    /// The build in the directory at `path`, with architecture `arch`, if the
    /// directory's name is a version; else `None`.
    pub fn from_version_path(path: String, arch: V8Arch) -> (r: Option<V8Platform>)
        ensures
            r == platform_of(path, arch),
    {
        let parsed = parse_version(base_name_of(path.as_str()));
        match parsed {
            Some((g, v, b)) => Some(V8Platform { generation: g, version: v, build: b, arch, path }),
            None => None,
        }
    }

    /// The builds among the entries of one root: one for each directory whose
    /// name is a version; `None` where the root could not be listed.
    pub fn from_v8_dir(entries: Option<&Vec<ListedEntry>>) -> (r: Option<Vec<V8Platform>>)
        ensures
            match entries {
                Some(e) => r.is_some() && r.unwrap()@ == platforms_of(e@),
                None => r.is_none(),
            },
    {
        let entries = match entries {
            Some(e) => e,
            None => return None,
        };
        let mut out: Vec<V8Platform> = Vec::new();
        let mut i: usize = 0;
        while i < entries.len()
            invariant
                i <= entries@.len(),
                out@ == platforms_of(entries@.take(i as int)),
            decreases entries@.len() - i,
        {
            assert(entries@.take(i + 1).drop_last() =~= entries@.take(i as int));
            let e = &entries[i];
            if e.is_dir {
                let p = V8Platform::from_version_path(e.path.clone(), e.arch);
                if let Some(p) = p {
                    out.push(p);
                }
            }
            i = i + 1;
        }
        assert(entries@.take(i as int) =~= entries@);
        Some(out)
    }

    /// The catalog of every root, root after root: `roots` holds, for each
    /// candidate root, its listing, or `None` where the root does not exist or
    /// could not be listed.
    pub fn v8_platforms(roots: &Vec<Option<Vec<ListedEntry>>>) -> (r: Vec<V8Platform>)
        ensures
            r@ == catalog_of(roots@),
    {
        let mut all: Vec<V8Platform> = Vec::new();
        let mut i: usize = 0;
        while i < roots.len()
            invariant
                i <= roots@.len(),
                all@ == catalog_of(roots@.take(i as int)),
            decreases roots@.len() - i,
        {
            assert(roots@.take(i + 1).drop_last() =~= roots@.take(i as int));
            let found = V8Platform::from_v8_dir(roots[i].as_ref());
            if let Some(mut found) = found {
                all.append(&mut found);
            }
            i = i + 1;
        }
        assert(roots@.take(i as int) =~= roots@);
        all
    }
}

} // verus!
