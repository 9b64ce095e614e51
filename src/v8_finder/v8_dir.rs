//! Candidate roots: directories that may hold installed builds, as the
//! starter's configuration files and the usual install locations name them.
use crate::text::{has_prefix, joined, join_path, split_on, split_str, str_starts_with};
use vstd::prelude::*;

verus! {

/// A directory that may hold installed builds. Two are equal, and hash
/// alike, when their paths are.
#[derive(Clone, Debug, Hash)]
pub struct V8Dir {
    /// The directory.
    pub path: String,
}

impl PartialEq for V8Dir {
    fn eq(&self, other: &Self) -> (r: bool) {
        self.path == other.path
    }
}

impl vstd::std_specs::cmp::PartialEqSpecImpl for V8Dir {
    open spec fn obeys_eq_spec() -> bool {
        true
    }

    open spec fn eq_spec(&self, other: &V8Dir) -> bool {
        self.path@ == other.path@
    }
}

impl Eq for V8Dir {

}

impl V8Dir {
    /// The candidate root at `path`.
    pub fn from_path(path: String) -> (r: V8Dir)
        ensures
            r.path == path,
    {
        V8Dir { path }
    }
}

/// The paths of a list of roots.
pub open spec fn dir_paths(v: Seq<V8Dir>) -> Seq<Seq<char>> {
    v.map_values(|d: V8Dir| d.path@)
}

/// The texts of a list of strings.
pub open spec fn string_views(v: Seq<String>) -> Seq<Seq<char>> {
    v.map_values(|s: String| s@)
}

/// `s` without repetitions: each item where it first occurs, in order.
pub open spec fn first_occurrences(s: Seq<Seq<char>>) -> Seq<Seq<char>>
    decreases s.len(),
{
    if s.len() == 0 {
        Seq::<Seq<char>>::empty()
    } else {
        let rest = first_occurrences(s.drop_last());
        if s.drop_last().contains(s.last()) {
            rest
        } else {
            rest.push(s.last())
        }
    }
}

/// Relies on itertools' `Itertools::unique`: it yields each item the first
/// time it is met and drops the later equal ones, keeping the order; `String`
/// equality is equality of the characters.
#[verifier::external_body]
fn unique_paths(paths: Vec<String>) -> (r: Vec<String>)
    ensures
        string_views(r@) == first_occurrences(string_views(paths@)),
{
    itertools::Itertools::unique(paths.into_iter()).collect()
}

/// The lines of a text: the pieces between line feeds, each without the
/// carriage return that precedes its line feed; an empty piece after the last
/// line feed is no line.
pub open spec fn text_lines(s: Seq<char>) -> Seq<Seq<char>> {
    let p = split_on(s, '\n');
    let body = p.take(p.len() - 1).map_values(
        |l: Seq<char>|
            if l.len() > 0 && l.last() == '\r' {
                l.drop_last()
            } else {
                l
            },
    );
    if p.last().len() == 0 {
        body
    } else {
        body.push(p.last())
    }
}

/// What follows the first `=` of a line, if it has one.
pub open spec fn after_equals(l: Seq<char>) -> Option<Seq<char>>
    decreases l.len(),
{
    if l.len() == 0 {
        None
    } else if l[0] == '=' {
        Some(l.drop_first())
    } else {
        after_equals(l.drop_first())
    }
}

/// The location that a line of the starter's configuration names: what follows
/// its first `=`, or, where it has none, the line without its first character.
pub open spec fn location_value(l: Seq<char>) -> Seq<char> {
    match after_equals(l) {
        Some(v) => v,
        None => l.drop_first(),
    }
}

/// The key of the lines that name an install location.
pub open spec fn location_key() -> Seq<char> {
    "InstalledLocation"@
}

/// The locations that the lines name, in order: one for each line that starts
/// with the location key.
pub open spec fn locations_in(lines: Seq<Seq<char>>) -> Seq<Seq<char>>
    decreases lines.len(),
{
    if lines.len() == 0 {
        Seq::<Seq<char>>::empty()
    } else {
        let rest = locations_in(lines.drop_last());
        if has_prefix(lines.last(), location_key()) {
            rest.push(location_value(lines.last()))
        } else {
            rest
        }
    }
}

/// The roots that the usual install locations give, from the values of the
/// program-files folder for 32-bit programs, the program-files folder and the
/// user's local application-data folder, where each is set.
pub open spec fn default_paths(
    program_files_x86: Option<Seq<char>>,
    program_files: Option<Seq<char>>,
    local_appdata: Option<Seq<char>>,
) -> Seq<Seq<char>> {
    let a = match program_files_x86 {
        Some(d) => seq![joined(d, "1cv8"@), joined(d, "1cv82"@)],
        None => Seq::<Seq<char>>::empty(),
    };
    let b = match program_files {
        Some(d) => seq![joined(d, "1cv8"@), joined(d, "1cv82"@)],
        None => Seq::<Seq<char>>::empty(),
    };
    let c = match local_appdata {
        Some(d) => seq![
            joined(joined(d, "Programs"@), "1cv8"@),
            joined(joined(d, "Programs"@), "1cv8_x86"@),
            joined(joined(d, "Programs"@), "1cv8_x64"@),
        ],
        None => Seq::<Seq<char>>::empty(),
    };
    a + b + c
}

/// The text of an optional string.
pub open spec fn opt_view(s: Option<&str>) -> Option<Seq<char>> {
    match s {
        Some(v) => Some(v@),
        None => None,
    }
}

/// The lines of `s`.
fn lines_of<'a>(s: &'a str) -> (r: Vec<&'a str>)
    ensures
        r@.len() == text_lines(s@).len(),
        forall|k: int| 0 <= k < r@.len() ==> (#[trigger] r@[k])@ == text_lines(s@)[k],
{
    let pieces = split_str(s, '\n');
    let ghost p = split_on(s@, '\n');
    proof {
        crate::text::lemma_split_on_nonempty(s@, '\n');
    }
    let n = pieces.len();
    let mut r: Vec<&'a str> = Vec::new();
    let mut k: usize = 0;
    while k + 1 < n
        invariant
            n == p.len(),
            n >= 1,
            p == split_on(s@, '\n'),
            pieces@.len() == n,
            forall|j: int| 0 <= j < n ==> (#[trigger] pieces@[j])@ == p[j],
            k + 1 <= n,
            r@.len() == k,
            forall|j: int| 0 <= j < k ==> (#[trigger] r@[j])@ == text_lines(s@)[j],
        decreases n - k,
    {
        let piece = pieces[k];
        let len = piece.unicode_len();
        if len > 0 && piece.get_char(len - 1) == '\r' {
            let line = piece.substring_char(0, len - 1);
            assert(line@ =~= piece@.drop_last());
            r.push(line);
        } else {
            r.push(piece);
        }
        k = k + 1;
    }
    let last = pieces[n - 1];
    if last.unicode_len() > 0 {
        r.push(last);
    }
    r
}

/// What follows the first `=` of `l`, or `l` without its first character
/// where it has none.
fn location_of<'a>(l: &'a str) -> (r: &'a str)
    requires
        l@.len() > 0,
    ensures
        r@ == location_value(l@),
{
    let n = l.unicode_len();
    let mut i: usize = 0;
    assert(l@.subrange(0, n as int) =~= l@);
    while i < n
        invariant
            n == l@.len(),
            i <= n,
            after_equals(l@) == after_equals(l@.subrange(i as int, n as int)),
        decreases n - i,
    {
        assert(l@.subrange(i as int, n as int).drop_first() =~= l@.subrange(i + 1, n as int));
        if l.get_char(i) == '=' {
            return l.substring_char(i + 1, n);
        }
        i = i + 1;
    }
    assert(l@.subrange(n as int, n as int).len() == 0);
    l.substring_char(1, n)
}

/// The roots that a starter configuration file names, in the order of its
/// lines: the value of each line that starts with `InstalledLocation`.
pub fn read_paths_from_starter(content: &str) -> (r: Vec<V8Dir>)
    ensures
        dir_paths(r@) == locations_in(text_lines(content@)),
{
    let lines = lines_of(content);
    let ghost ls = text_lines(content@);
    let key = "InstalledLocation";
    proof {
        reveal_strlit("InstalledLocation");
    }
    let mut r: Vec<V8Dir> = Vec::new();
    let mut k: usize = 0;
    while k < lines.len()
        invariant
            key@ == location_key(),
            location_key().len() == 17,
            ls == text_lines(content@),
            lines@.len() == ls.len(),
            forall|j: int| 0 <= j < lines@.len() ==> (#[trigger] lines@[j])@ == ls[j],
            k <= lines@.len(),
            dir_paths(r@) == locations_in(ls.take(k as int)),
        decreases lines@.len() - k,
    {
        assert(ls.take(k + 1).drop_last() =~= ls.take(k as int));
        let line = lines[k];
        if str_starts_with(line, key) {
            let loc = location_of(line);
            r.push(V8Dir::from_path(String::from_str(loc)));
            assert(dir_paths(r@) =~= dir_paths(r@.drop_last()).push(loc@));
        }
        k = k + 1;
    }
    assert(ls.take(k as int) =~= ls);
    r
}

/// The starter's configuration file under a configuration folder.
pub open spec fn starter_cfg_path(config_dir: Seq<char>) -> Seq<char> {
    joined(config_dir, "1C\\1CEStart\\1CEStart.cfg"@)
}

/// Where the starter keeps its configuration file under the folder
/// `config_dir` (the all-users or the user's application-data folder).
pub fn get_starter_path_windows(config_dir: &str) -> (r: String)
    ensures
        r@ == starter_cfg_path(config_dir@),
{
    join_path(config_dir, "1C\\1CEStart\\1CEStart.cfg")
}

/// Appends to `out` the roots `base\name` for each of `names`.
fn push_joined(out: &mut Vec<V8Dir>, base: &str, names: &[&str])
    ensures
        dir_paths(final(out)@) == dir_paths(old(out)@) + names@.map_values(
            |n: &str| joined(base@, n@),
        ),
{
    let ghost start = dir_paths(out@);
    let mut i: usize = 0;
    while i < names.len()
        invariant
            i <= names@.len(),
            dir_paths(out@) == start + names@.take(i as int).map_values(|n: &str| joined(base@, n@)),
        decreases names@.len() - i,
    {
        let p = join_path(base, names[i]);
        let ghost before = dir_paths(out@);
        out.push(V8Dir::from_path(p));
        assert(dir_paths(out@) =~= before.push(p@));
        assert(names@.take(i + 1).map_values(|n: &str| joined(base@, n@)) =~= names@.take(
            i as int,
        ).map_values(|n: &str| joined(base@, n@)).push(joined(base@, names@[i as int]@)));
        i = i + 1;
    }
    assert(names@.take(i as int) =~= names@);
}

/// The roots at the usual install locations, from the values of the
/// program-files folder for 32-bit programs, the program-files folder and the
/// user's local application-data folder, where each is set.
pub fn default_v8_paths(
    program_files_x86: Option<&str>,
    program_files: Option<&str>,
    local_appdata: Option<&str>,
) -> (r: Vec<V8Dir>)
    ensures
        dir_paths(r@) == default_paths(
            opt_view(program_files_x86),
            opt_view(program_files),
            opt_view(local_appdata),
        ),
{
    let mut v8_paths: Vec<V8Dir> = Vec::new();
    let names = ["1cv8", "1cv82"];
    let local_names = ["1cv8", "1cv8_x86", "1cv8_x64"];
    if let Some(d) = program_files_x86 {
        push_joined(&mut v8_paths, d, &names);
    }
    let ghost after_a = dir_paths(v8_paths@);
    if let Some(d) = program_files {
        push_joined(&mut v8_paths, d, &names);
    }
    let ghost after_b = dir_paths(v8_paths@);
    if let Some(d) = local_appdata {
        let programs = join_path(d, "Programs");
        push_joined(&mut v8_paths, programs.as_str(), &local_names);
    }
    let ghost pf86 = opt_view(program_files_x86);
    let ghost pf = opt_view(program_files);
    let ghost la = opt_view(local_appdata);
    assert(dir_paths(v8_paths@) =~= default_paths(pf86, pf, la));
    v8_paths
}

/// The candidate roots of a Windows host: those named by the all-users
/// starter configuration, then by the user's, then the usual install
/// locations, each root kept where it first appears.
pub fn v8_windows_paths(all_users: &Vec<V8Dir>, local_user: &Vec<V8Dir>, defaults: &Vec<V8Dir>) -> (r:
    Vec<V8Dir>)
    ensures
        dir_paths(r@) == first_occurrences(
            dir_paths(all_users@) + dir_paths(local_user@) + dir_paths(defaults@),
        ),
{
    let mut all: Vec<String> = Vec::new();
    append_paths(&mut all, all_users);
    append_paths(&mut all, local_user);
    append_paths(&mut all, defaults);
    assert(string_views(all@) =~= dir_paths(all_users@) + dir_paths(local_user@) + dir_paths(
        defaults@,
    ));
    let unique = unique_paths(all);
    let mut r: Vec<V8Dir> = Vec::new();
    let mut i: usize = 0;
    while i < unique.len()
        invariant
            i <= unique@.len(),
            dir_paths(r@) == string_views(unique@.take(i as int)),
        decreases unique@.len() - i,
    {
        let ghost before = dir_paths(r@);
        r.push(V8Dir::from_path(unique[i].clone()));
        assert(dir_paths(r@) =~= before.push(unique@[i as int]@));
        assert(string_views(unique@.take(i + 1)) =~= string_views(unique@.take(i as int)).push(
            unique@[i as int]@,
        ));
        i = i + 1;
    }
    assert(unique@.take(i as int) =~= unique@);
    r
}

/// Appends the paths of `dirs` to `out`.
fn append_paths(out: &mut Vec<String>, dirs: &Vec<V8Dir>)
    ensures
        string_views(final(out)@) == string_views(old(out)@) + dir_paths(dirs@),
{
    let ghost start = string_views(out@);
    let mut i: usize = 0;
    while i < dirs.len()
        invariant
            i <= dirs@.len(),
            string_views(out@) == start + dir_paths(dirs@.take(i as int)),
        decreases dirs@.len() - i,
    {
        let ghost before = string_views(out@);
        out.push(dirs[i].path.clone());
        assert(string_views(out@) =~= before.push(dirs@[i as int].path@));
        assert(dir_paths(dirs@.take(i + 1)) =~= dir_paths(dirs@.take(i as int)).push(
            dirs@[i as int].path@,
        ));
        i = i + 1;
    }
    assert(dirs@.take(i as int) =~= dirs@);
}

} // verus!
