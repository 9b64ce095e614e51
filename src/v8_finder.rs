//! Resolution of a partial version and an architecture preference against the
//! catalog of installed builds.
pub mod v8_dir;
pub mod v8_platform;

use crate::text::{decimal_u32, parse_u32, split_on, split_str};
use crate::v8_app::V8Arch;
use crate::v8_finder::v8_platform::{key_lt, V8Platform};
use vstd::prelude::*;

verus! {

/// Which architecture a resolution looks for.
#[derive(Clone, Copy, Debug, PartialEq, Eq, Structural)]
pub enum SearchPriority {
    /// The newest 32-bit build.
    X32,
    /// The newest 64-bit build.
    X64,
    /// The newest build of either architecture; where a 32-bit and a 64-bit
    /// build of the same version are the newest, the 64-bit one.
    X32_64,
    /// The same choice as `X32_64`: the newest build of either architecture,
    /// the 64-bit one where both architectures share the newest version.
    X64_32,
}

/// Why a version query was refused.
#[derive(Clone, Copy, Debug, PartialEq, Eq, Structural)]
pub enum VersionError {
    /// A group after the first is not an unsigned 32-bit decimal number.
    NonNumericToken,
}

/// A version query: a generation, and optionally a minor version and a build
/// number.
pub type Query = (u32, Option<u32>, Option<u32>);

/// What a version query such as `8.3`, `8.3.13` or `8.3.13.1234` asks for.
/// Only two, three or four dot-separated groups make a query (`Ok(None)`
/// otherwise); the first group is dropped, and every other one must be an
/// unsigned 32-bit decimal number.
pub open spec fn query_of(s: Seq<char>) -> Result<Option<Query>, VersionError> {
    let t = split_on(s, '.');
    if t.len() < 2 || t.len() > 4 {
        Ok(None)
    } else if decimal_u32(t[1]).is_none() || (t.len() >= 3 && decimal_u32(t[2]).is_none()) || (
    t.len() == 4 && decimal_u32(t[3]).is_none()) {
        Err(VersionError::NonNumericToken)
    } else {
        Ok(
            Some(
                (
                    decimal_u32(t[1]).unwrap(),
                    if t.len() >= 3 {
                        Some(decimal_u32(t[2]).unwrap())
                    } else {
                        None
                    },
                    if t.len() == 4 {
                        Some(decimal_u32(t[3]).unwrap())
                    } else {
                        None
                    },
                ),
            ),
        )
    }
}

/// `p` has the version groups that the query names.
pub open spec fn matches_query(p: V8Platform, q: Query) -> bool {
    &&& p.generation == q.0
    &&& match q.1 {
        Some(v) => p.version == v,
        None => true,
    }
    &&& match q.2 {
        Some(b) => p.build == b,
        None => true,
    }
}

/// The architectures that a priority lets through.
pub open spec fn admits(prio: SearchPriority, a: V8Arch) -> bool {
    match prio {
        SearchPriority::X32 => a == V8Arch::X86,
        SearchPriority::X64 => a == V8Arch::X64,
        _ => true,
    }
}

/// `p` is a candidate for the query under the priority.
pub open spec fn selected(p: V8Platform, q: Query, prio: SearchPriority) -> bool {
    matches_query(p, q) && admits(prio, p.arch)
}

/// `ps[i]` is the answer: a candidate that no candidate exceeds, and the first
/// in the catalog among the candidates equal to it.
pub open spec fn is_best(ps: Seq<V8Platform>, i: int, q: Query, prio: SearchPriority) -> bool {
    &&& 0 <= i < ps.len()
    &&& selected(ps[i], q, prio)
    &&& forall|j: int| 0 <= j < ps.len() && selected(#[trigger] ps[j], q, prio) ==> !key_lt(ps[i], ps[j])
    &&& forall|j: int| 0 <= j < i && selected(#[trigger] ps[j], q, prio) ==> key_lt(ps[j], ps[i])
}

/// `f` lists, in increasing order, exactly the positions of `ps` whose builds
/// match the query.
pub open spec fn filtered_by(ps: Seq<V8Platform>, f: Seq<usize>, q: Query) -> bool {
    &&& forall|a: int, b: int| 0 <= a < b < f.len() ==> f[a] < f[b]
    &&& forall|k: int| 0 <= k < f.len() ==> f[k] < ps.len() && matches_query(ps[f[k] as int], q)
    &&& forall|j: int|
        0 <= j < ps.len() && matches_query(#[trigger] ps[j], q) ==> exists|k: int|
            0 <= k < f.len() && f[k] == j
}

/// At most one position of a catalog is the answer to a query under a
/// priority.
pub proof fn lemma_best_is_unique(ps: Seq<V8Platform>, q: Query, prio: SearchPriority, i: int, j: int)
    requires
        is_best(ps, i, q, prio),
        is_best(ps, j, q, prio),
    ensures
        i == j,
{
    if i < j {
        assert(selected(ps[i], q, prio));
    } else if j < i {
        assert(selected(ps[j], q, prio));
    }
}

/// A build that a resolution picks for a query of two, three or four groups,
/// each after the first a number, has the generation, and where given the
/// minor version and the build number, that the query names.
pub proof fn lemma_resolved_build_matches_query(
    ps: Seq<V8Platform>,
    s: Seq<char>,
    prio: SearchPriority,
    i: int,
)
    requires
        2 <= split_on(s, '.').len() <= 4,
        forall|k: int|
            1 <= k < split_on(s, '.').len() ==> (#[trigger] decimal_u32(split_on(s, '.')[k])).is_some(),
    ensures
        match query_of(s) {
            Ok(Some(q)) => is_best(ps, i, q, prio) ==> {
                let t = split_on(s, '.');
                &&& ps[i].generation == decimal_u32(t[1]).unwrap()
                &&& t.len() >= 3 ==> ps[i].version == decimal_u32(t[2]).unwrap()
                &&& t.len() == 4 ==> ps[i].build == decimal_u32(t[3]).unwrap()
            },
            _ => false,
        },
{
    let t = split_on(s, '.');
    assert(decimal_u32(t[1]).is_some());
    if t.len() >= 3 {
        assert(decimal_u32(t[2]).is_some());
    }
    if t.len() == 4 {
        assert(decimal_u32(t[3]).is_some());
    }
}

/// Under `X32` a resolution picks only 32-bit builds, under `X64` only 64-bit
/// ones.
pub proof fn lemma_priority_fixes_arch(ps: Seq<V8Platform>, q: Query, i: int)
    ensures
        is_best(ps, i, q, SearchPriority::X32) ==> ps[i].arch == V8Arch::X86,
        is_best(ps, i, q, SearchPriority::X64) ==> ps[i].arch == V8Arch::X64,
{
}

/// Where a 32-bit and a 64-bit build of the same version both match, `X32_64`
/// and `X64_32` pick neither the 32-bit one nor anything below it, and a
/// pick of that version is the 64-bit one; the two priorities always pick
/// alike.
pub proof fn lemma_combined_priorities_prefer_x64(
    ps: Seq<V8Platform>,
    q: Query,
    prio: SearchPriority,
    i: int,
    a: int,
    b: int,
)
    requires
        prio == SearchPriority::X32_64 || prio == SearchPriority::X64_32,
        0 <= a < ps.len(),
        0 <= b < ps.len(),
        ps[a].generation == ps[b].generation,
        ps[a].version == ps[b].version,
        ps[a].build == ps[b].build,
        ps[a].arch == V8Arch::X86,
        ps[b].arch == V8Arch::X64,
        matches_query(ps[a], q),
        matches_query(ps[b], q),
        is_best(ps, i, q, prio),
    ensures
        key_lt(ps[a], ps[i]),
        ps[i].generation == ps[a].generation && ps[i].version == ps[a].version && ps[i].build
            == ps[a].build ==> ps[i].arch == V8Arch::X64,
        is_best(ps, i, q, SearchPriority::X32_64) == is_best(ps, i, q, SearchPriority::X64_32),
{
    assert(selected(ps[b], q, prio));
    assert(!key_lt(ps[i], ps[b]));
}

/// Position `k` of the list `f` of catalog positions holds the answer among
/// the listed builds that the priority lets through: none of them exceeds it,
/// and it comes first in `f` among those equal to it.
pub open spec fn is_best_in(ps: Seq<V8Platform>, f: Seq<usize>, k: int, prio: SearchPriority) -> bool {
    &&& 0 <= k < f.len()
    &&& admits(prio, ps[f[k] as int].arch)
    &&& forall|m: int|
        0 <= m < f.len() && admits(prio, ps[#[trigger] f[m] as int].arch) ==> !key_lt(
            ps[f[k] as int],
            ps[f[m] as int],
        )
    &&& forall|m: int|
        0 <= m < k && admits(prio, ps[#[trigger] f[m] as int].arch) ==> key_lt(
            ps[f[m] as int],
            ps[f[k] as int],
        )
}

/// Over the positions of the builds that match a query, the answer among the
/// listed builds is the answer over the whole catalog.
proof fn lemma_best_in_filtered(ps: Seq<V8Platform>, f: Seq<usize>, q: Query, prio: SearchPriority, k: int)
    requires
        filtered_by(ps, f, q),
        is_best_in(ps, f, k, prio),
    ensures
        is_best(ps, f[k] as int, q, prio),
{
    let i = f[k] as int;
    assert forall|j: int| 0 <= j < ps.len() && selected(#[trigger] ps[j], q, prio) implies !key_lt(
        ps[i],
        ps[j],
    ) by {
        let m = choose|m: int| 0 <= m < f.len() && f[m] == j;
        assert(admits(prio, ps[f[m] as int].arch));
    }
    assert forall|j: int| 0 <= j < i && selected(#[trigger] ps[j], q, prio) implies key_lt(
        ps[j],
        ps[i],
    ) by {
        let m = choose|m: int| 0 <= m < f.len() && f[m] == j;
        if m >= k {
            if m > k {
                assert(f[k] < f[m]);
            }
        }
        assert(m < k);
        assert(admits(prio, ps[f[m] as int].arch));
    }
}

/// The installed builds of a host, and the lookups over them.
pub struct V8Finder {
    platforms: Vec<V8Platform>,
}

impl View for V8Finder {
    type V = Seq<V8Platform>;

    closed spec fn view(&self) -> Seq<V8Platform> {
        self.platforms@
    }
}

impl V8Finder {
    /// A finder over the catalog found; where none could be found, over an
    /// empty one, on which every lookup finds nothing.
    pub fn new(platforms: Option<Vec<V8Platform>>) -> (r: Self)
        ensures
            r@ == match platforms {
                Some(v) => v@,
                None => Seq::<V8Platform>::empty(),
            },
    {
        match platforms {
            Some(platforms) => V8Finder { platforms },
            None => V8Finder { platforms: Vec::new() },
        }
    }

    /// The builds of the catalog, in catalog order.
    pub fn platforms(&self) -> (r: &Vec<V8Platform>)
        ensures
            r@ == self@,
    {
        &self.platforms
    }

    /// The newest build that matches `version` (`"8.3"`, `"8.3.13"` or
    /// `"8.3.13.1234"`) under `search_priority`. A query of another number of
    /// groups finds nothing; one with a group (after the first) that is not a
    /// number is refused.
    pub fn get_platform(&self, version: &str, search_priority: SearchPriority) -> (r: Result<
        Option<&V8Platform>,
        VersionError,
    >)
        ensures
            match query_of(version@) {
                Err(e) => r == Err::<Option<&V8Platform>, VersionError>(e),
                Ok(None) => r == Ok::<Option<&V8Platform>, VersionError>(None),
                Ok(Some(q)) => match r {
                    Ok(Some(p)) => exists|i: int| is_best(self@, i, q, search_priority) && *p == self@[i],
                    Ok(None) => forall|j: int|
                        0 <= j < self@.len() ==> !selected(#[trigger] self@[j], q, search_priority),
                    Err(_) => false,
                },
            },
    {
        let full_version = split_str(version, '.');
        let n = full_version.len();
        if n < 2 || n > 4 {
            return Ok(None);
        }
        let generation = match parse_u32(full_version[1]) {
            Some(g) => g,
            None => return Err(VersionError::NonNumericToken),
        };
        let minor = if n >= 3 {
            match parse_u32(full_version[2]) {
                Some(v) => Some(v),
                None => return Err(VersionError::NonNumericToken),
            }
        } else {
            None
        };
        let build = if n == 4 {
            match parse_u32(full_version[3]) {
                Some(b) => Some(b),
                None => return Err(VersionError::NonNumericToken),
            }
        } else {
            None
        };
        let ghost q: Query = (generation, minor, build);
        assert(query_of(version@) == Ok::<Option<Query>, VersionError>(Some(q)));
        let filtered = self.get_platforms_by_filter(generation, minor, build);
        match self.max_platform_by_search_priority(&filtered, search_priority) {
            Some(i) => {
                proof {
                    let k = choose|k: int| is_best_in(self@, filtered@, k, search_priority) && filtered@[k] == i;
                    lemma_best_in_filtered(self@, filtered@, q, search_priority, k);
                }
                Ok(Some(&self.platforms[i]))
            },
            None => {
                assert forall|j: int| 0 <= j < self@.len() implies !selected(
                    #[trigger] self@[j],
                    q,
                    search_priority,
                ) by {
                    if matches_query(self@[j], q) {
                        let m = choose|m: int| 0 <= m < filtered@.len() && filtered@[m] == j;
                        assert(!admits(search_priority, self@[filtered@[m] as int].arch));
                    }
                }
                Ok(None)
            },
        }
    }

    /// The positions of the builds that match the query, in catalog order.
    fn get_platforms_by_filter(&self, generation: u32, version: Option<u32>, build: Option<u32>) -> (r: Vec<usize>)
        ensures
            filtered_by(self@, r@, (generation, version, build)),
    {
        let ghost q: Query = (generation, version, build);
        let mut r: Vec<usize> = Vec::new();
        let mut i: usize = 0;
        while i < self.platforms.len()
            invariant
                q == (generation, version, build),
                i <= self@.len(),
                forall|a: int, b: int| 0 <= a < b < r@.len() ==> r@[a] < r@[b],
                forall|k: int| 0 <= k < r@.len() ==> r@[k] < i && matches_query(self@[r@[k] as int], q),
                forall|j: int|
                    0 <= j < i && matches_query(#[trigger] self@[j], q) ==> exists|k: int|
                        0 <= k < r@.len() && r@[k] == j,
            decreases self@.len() - i,
        {
            let p = &self.platforms[i];
            let version_ok = match version {
                Some(v) => p.version == v,
                None => true,
            };
            let build_ok = match build {
                Some(b) => p.build == b,
                None => true,
            };
            let keep = p.generation == generation && version_ok && build_ok;
            if keep {
                let ghost old_r = r@;
                r.push(i);
                assert forall|j: int|
                    0 <= j < i + 1 && matches_query(#[trigger] self@[j], q) implies exists|k: int|
                        0 <= k < r@.len() && r@[k] == j by {
                    if j < i {
                        let k = choose|k: int| 0 <= k < old_r.len() && old_r[k] == j;
                        assert(r@[k] == j);
                    } else {
                        assert(r@[r@.len() - 1] == j);
                    }
                }
            }
            i = i + 1;
        }
        r
    }

    /// The position in `filtered` of the newest build of architecture `arch`,
    /// the first one among equals.
    fn best_of_arch(&self, filtered: &Vec<usize>, arch: V8Arch) -> (r: Option<usize>)
        requires
            forall|k: int| 0 <= k < filtered@.len() ==> filtered@[k] < self@.len(),
        ensures
            match r {
                None => forall|m: int| 0 <= m < filtered@.len() ==> self@[#[trigger] filtered@[m] as int].arch != arch,
                Some(b) => {
                    &&& b < filtered@.len()
                    &&& self@[filtered@[b as int] as int].arch == arch
                    &&& forall|m: int|
                        0 <= m < filtered@.len() && self@[#[trigger] filtered@[m] as int].arch == arch
                            ==> !key_lt(self@[filtered@[b as int] as int], self@[filtered@[m] as int])
                    &&& forall|m: int|
                        0 <= m < b && self@[#[trigger] filtered@[m] as int].arch == arch ==> key_lt(
                            self@[filtered@[m] as int],
                            self@[filtered@[b as int] as int],
                        )
                },
            },
    {
        let mut best: Option<usize> = None;
        let mut k: usize = 0;
        while k < filtered.len()
            invariant
                forall|m: int| 0 <= m < filtered@.len() ==> filtered@[m] < self@.len(),
                k <= filtered@.len(),
                match best {
                    None => forall|m: int| 0 <= m < k ==> self@[#[trigger] filtered@[m] as int].arch != arch,
                    Some(b) => {
                        &&& b < k
                        &&& self@[filtered@[b as int] as int].arch == arch
                        &&& forall|m: int|
                            0 <= m < k && self@[#[trigger] filtered@[m] as int].arch == arch
                                ==> !key_lt(self@[filtered@[b as int] as int], self@[filtered@[m] as int])
                        &&& forall|m: int|
                            0 <= m < b && self@[#[trigger] filtered@[m] as int].arch == arch ==> key_lt(
                                self@[filtered@[m] as int],
                                self@[filtered@[b as int] as int],
                            )
                    },
                },
            decreases filtered@.len() - k,
        {
            let p = &self.platforms[filtered[k]];
            if p.arch == arch {
                match best {
                    None => {
                        best = Some(k);
                    },
                    Some(b) => {
                        if matches!(self.platforms[filtered[b]].key_cmp(p), std::cmp::Ordering::Less) {
                            best = Some(k);
                        }
                    },
                }
            }
            k = k + 1;
        }
        best
    }

    /// The answer among the listed builds under the priority: the newest
    /// 32-bit or 64-bit build, or the newer of the two, the first in the list
    /// among equals.
    fn max_platform_by_search_priority(&self, filtered: &Vec<usize>, search_priority: SearchPriority) -> (r:
        Option<usize>)
        requires
            forall|k: int| 0 <= k < filtered@.len() ==> filtered@[k] < self@.len(),
        ensures
            match r {
                Some(i) => exists|k: int|
                    is_best_in(self@, filtered@, k, search_priority) && filtered@[k] == i,
                None => forall|k: int|
                    0 <= k < filtered@.len() ==> !admits(
                        search_priority,
                        self@[#[trigger] filtered@[k] as int].arch,
                    ),
            },
    {
        let max_x32 = self.best_of_arch(filtered, V8Arch::X86);
        let max_x64 = self.best_of_arch(filtered, V8Arch::X64);
        let pick = match search_priority {
            SearchPriority::X32 => max_x32,
            SearchPriority::X64 => max_x64,
            SearchPriority::X32_64 | SearchPriority::X64_32 => match (max_x32, max_x64) {
                (Some(a), Some(b)) => {
                    if matches!(
                        self.platforms[filtered[a]].key_cmp(&self.platforms[filtered[b]]),
                        std::cmp::Ordering::Less
                    ) {
                        Some(b)
                    } else {
                        Some(a)
                    }
                },
                (Some(a), None) => Some(a),
                (None, b) => b,
            },
        };
        match pick {
            Some(k) => {
                assert(is_best_in(self@, filtered@, k as int, search_priority));
                Some(filtered[k])
            },
            None => None,
        }
    }
}

} // verus!
