//! Resolving a program name to an executable file on the search path.
//!
//! Reading the search-path variable and the files' metadata is left to the
//! caller; this module decides which paths to look at and which one wins.
use vstd::prelude::*;
use crate::command::strings_view;

verus! {

/// The pieces of `s` between `:` separators, in order; empty pieces are kept.
pub open spec fn path_entries(s: Seq<char>) -> Seq<Seq<char>>
    decreases s.len(),
{
    if s.len() == 0 {
        seq![seq![]]
    } else {
        let before = path_entries(s.drop_last());
        if s.last() == ':' {
            before.push(seq![])
        } else {
            before.update(before.len() - 1, before.last().push(s.last()))
        }
    }
}

/// Splits a search-path value into its directories.
pub fn split_paths(search_path: &str) -> (r: Vec<String>)
    ensures
        strings_view(r@) == path_entries(search_path@),
{
    let n = search_path.unicode_len();
    let mut done: Vec<String> = Vec::new();
    let mut start: usize = 0;
    let mut i: usize = 0;
    assert(search_path@.take(0) =~= seq![]);
    assert(search_path@.subrange(0, 0) =~= seq![]);
    assert(strings_view(done@).push(search_path@.subrange(0, 0)) =~= seq![seq![]]);
    while i < n
        invariant
            n == search_path@.len(),
            start <= i <= n,
            path_entries(search_path@.take(i as int)) == strings_view(done@).push(
                search_path@.subrange(start as int, i as int),
            ),
        decreases n - i,
    {
        let c = search_path.get_char(i);
        let ghost s = search_path@.take(i as int + 1);
        assert(s.drop_last() =~= search_path@.take(i as int));
        assert(s.last() == c);
        if c == ':' {
            let piece = search_path.substring_char(start, i);
            let ghost prev = done@;
            done.push(String::from_str(piece));
            assert(strings_view(done@) =~= strings_view(prev).push(piece@));
            start = i + 1;
            assert(search_path@.subrange(start as int, i as int + 1) =~= seq![]);
        } else {
            assert(search_path@.subrange(start as int, i as int).push(c) =~= search_path@.subrange(
                start as int,
                i as int + 1,
            ));
        }
        i = i + 1;
    }
    assert(search_path@.take(n as int) =~= search_path@);
    let piece = search_path.substring_char(start, n);
    let ghost prev = done@;
    done.push(String::from_str(piece));
    assert(strings_view(done@) =~= strings_view(prev).push(piece@));
    done
}

/// `name` placed under `dir`: a name that starts with `/` stands alone, an
/// empty `dir` adds nothing, and a `/` is put between the two where `dir`
/// does not end with one.
pub open spec fn joined_path(dir: Seq<char>, name: Seq<char>) -> Seq<char> {
    if name.len() > 0 && name[0] == '/' {
        name
    } else if dir.len() == 0 {
        name
    } else if dir.last() == '/' {
        dir + name
    } else {
        dir + "/"@ + name
    }
}

/// Places `name` under the directory `dir`.
pub fn join_path(dir: &str, name: &str) -> (r: String)
    ensures
        r@ == joined_path(dir@, name@),
{
    let dn = dir.unicode_len();
    let nn = name.unicode_len();
    if nn > 0 && name.get_char(0) == '/' {
        return String::from_str(name);
    }
    if dn == 0 {
        return String::from_str(name);
    }
    let mut r = String::from_str(dir);
    if dir.get_char(dn - 1) != '/' {
        r.append("/");
        proof {
            reveal_strlit("/");
        }
    }
    r.append(name);
    r
}

/// Why no path could be searched.
#[derive(Debug, Clone, Copy, PartialEq, Eq)]
pub enum ResolveError {
    /// The search-path variable is not set.
    SearchPathUnset,
}

/// The paths at which `name` is looked for, one per directory of the search path.
pub open spec fn candidate_paths(search_path: Seq<char>, name: Seq<char>) -> Seq<Seq<char>> {
    path_entries(search_path).map_values(|d: Seq<char>| joined_path(d, name))
}

/// The paths at which `name` is looked for, in search order. An unset search
/// path is an error.
pub fn search_candidates(search_path: Option<&str>, name: &str) -> (r: Result<
    Vec<String>,
    ResolveError,
>)
    ensures
        search_path.is_none() <==> r is Err,
        search_path matches Some(p) ==> r matches Ok(v) && strings_view(v@) == candidate_paths(
            p@,
            name@,
        ),
{
    let p = match search_path {
        Some(p) => p,
        None => return Err(ResolveError::SearchPathUnset),
    };
    let dirs = split_paths(p);
    let ghost d = path_entries(p@);
    let mut out: Vec<String> = Vec::new();
    let mut i: usize = 0;
    while i < dirs.len()
        invariant
            strings_view(dirs@) == d,
            d == path_entries(p@),
            i <= dirs@.len(),
            strings_view(out@) =~= d.take(i as int).map_values(
                |x: Seq<char>| joined_path(x, name@),
            ),
        decreases dirs@.len() - i,
    {
        let full = join_path(dirs[i].as_str(), name);
        let ghost prev = out@;
        out.push(full);
        assert(strings_view(out@) =~= strings_view(prev).push(full@));
        assert(d[i as int] == dirs@[i as int]@);
        i = i + 1;
    }
    assert(d.take(d.len() as int) =~= d);
    Ok(out)
}

/// What the file system says of a path: whether it is a regular file, and
/// its permission bits.
#[derive(Debug, Clone, Copy, PartialEq, Eq)]
pub struct FileStatus {
    pub is_file: bool,
    pub mode: u32,
}

/// A regular file with at least one of the owner, group and other execute
/// bits set.
pub open spec fn spec_is_executable(st: Option<FileStatus>) -> bool {
    match st {
        Some(st) => st.is_file && st.mode & 0o111 != 0,
        None => false,
    }
}

/// Whether a path with status `st` (`None`: nothing there) may be run.
pub fn is_executable(st: &Option<FileStatus>) -> (r: bool)
    ensures
        r == spec_is_executable(*st),
{
    match st {
        Some(st) => st.is_file && st.mode & 0o111 != 0,
        None => false,
    }
}

/// The first index at which `statuses` holds an executable file.
pub open spec fn first_executable(statuses: Seq<Option<FileStatus>>) -> Option<int>
    decreases statuses.len(),
{
    if statuses.len() == 0 {
        None
    } else if spec_is_executable(statuses[0]) {
        Some(0)
    } else {
        match first_executable(statuses.drop_first()) {
            Some(i) => Some(i + 1),
            None => None,
        }
    }
}

/// The path that a search over `candidates` finds, where `statuses[i]` is
/// what the file system says of `candidates[i]`.
pub open spec fn spec_find(candidates: Seq<Seq<char>>, statuses: Seq<Option<FileStatus>>) -> Option<
    Seq<char>,
> {
    match first_executable(statuses) {
        Some(i) => Some(candidates[i]),
        None => None,
    }
}

proof fn lemma_first_executable(statuses: Seq<Option<FileStatus>>)
    ensures
        match first_executable(statuses) {
            Some(i) => 0 <= i < statuses.len() && spec_is_executable(statuses[i]) && forall|
                j: int,
            |
                0 <= j < i ==> !spec_is_executable(#[trigger] statuses[j]),
            None => forall|j: int|
                0 <= j < statuses.len() ==> !spec_is_executable(#[trigger] statuses[j]),
        },
    decreases statuses.len(),
{
    if statuses.len() > 0 {
        let rest = statuses.drop_first();
        lemma_first_executable(rest);
        assert forall|j: int| 1 <= j < statuses.len() implies statuses[j] == rest[j - 1] by {}
        if !spec_is_executable(statuses[0]) {
            match first_executable(rest) {
                Some(i) => {
                    assert forall|j: int| 0 <= j < i + 1 implies !spec_is_executable(
                        #[trigger] statuses[j],
                    ) by {
                        if j > 0 {
                            assert(statuses[j] == rest[j - 1]);
                        }
                    }
                },
                None => {
                    assert forall|j: int| 0 <= j < statuses.len() implies !spec_is_executable(
                        #[trigger] statuses[j],
                    ) by {
                        if j > 0 {
                            assert(statuses[j] == rest[j - 1]);
                        }
                    }
                },
            }
        }
    }
}

/// Where both directories of a two-entry search path hold an executable file
/// of the name, the search finds the one in the first directory.
pub proof fn first_match_wins(
    search_path: Seq<char>,
    name: Seq<char>,
    statuses: Seq<Option<FileStatus>>,
)
    requires
        path_entries(search_path).len() == 2,
        statuses.len() == 2,
        spec_is_executable(statuses[0]),
        spec_is_executable(statuses[1]),
    ensures
        spec_find(candidate_paths(search_path, name), statuses) == Some(
            joined_path(path_entries(search_path)[0], name),
        ),
{
}

/// A path whose status is not that of an executable regular file is never
/// what the search finds, and where it is the only candidate nothing is found.
pub proof fn non_executable_never_found(
    candidates: Seq<Seq<char>>,
    statuses: Seq<Option<FileStatus>>,
    i: int,
)
    requires
        0 <= i < statuses.len(),
        !spec_is_executable(statuses[i]),
    ensures
        first_executable(statuses) != Some(i),
        statuses.len() == 1 ==> spec_find(candidates, statuses) is None,
{
    lemma_first_executable(statuses);
    if statuses.len() == 1 {
        assert(statuses.drop_first().len() == 0);
    }
}

/// The first of `candidates` whose status shows an executable regular file,
/// or `None` where there is none.
pub fn find_executable(candidates: &Vec<String>, statuses: &Vec<Option<FileStatus>>) -> (r:
    Option<String>)
    requires
        candidates@.len() == statuses@.len(),
    ensures
        r matches Some(p) ==> spec_find(strings_view(candidates@), statuses@) == Some(p@),
        r is None ==> spec_find(strings_view(candidates@), statuses@) is None,
{
    proof {
        lemma_first_executable(statuses@);
    }
    let mut i: usize = 0;
    while i < statuses.len()
        invariant
            candidates@.len() == statuses@.len(),
            i <= statuses@.len(),
            forall|j: int| 0 <= j < i ==> !spec_is_executable(#[trigger] statuses@[j]),
            match first_executable(statuses@) {
                Some(k) => 0 <= k < statuses@.len() && spec_is_executable(statuses@[k]) && forall|
                    j: int,
                |
                    0 <= j < k ==> !spec_is_executable(#[trigger] statuses@[j]),
                None => forall|j: int|
                    0 <= j < statuses@.len() ==> !spec_is_executable(#[trigger] statuses@[j]),
            },
        decreases statuses@.len() - i,
    {
        if is_executable(&statuses[i]) {
            let found = candidates[i].clone();
            assert(first_executable(statuses@) == Some(i as int));
            return Some(found);
        }
        i = i + 1;
    }
    None
}

/// The final component of `p`: what follows its last `/`, or all of `p`
/// where it has none.
pub open spec fn base_name(p: Seq<char>) -> Seq<char>
    decreases p.len(),
{
    if p.len() == 0 {
        p
    } else if p.last() == '/' {
        seq![]
    } else {
        base_name(p.drop_last()).push(p.last())
    }
}

proof fn lemma_base_name(p: Seq<char>, i: int)
    requires
        0 <= i <= p.len(),
        i == 0 || p[i - 1] == '/',
        forall|j: int| i <= j < p.len() ==> p[j] != '/',
    ensures
        base_name(p) == p.subrange(i, p.len() as int),
    decreases p.len(),
{
    if p.len() == i {
        if i > 0 {
            assert(p.last() == '/');
        }
        assert(p.subrange(i, p.len() as int) =~= seq![]);
    } else {
        let q = p.drop_last();
        lemma_base_name(q, i);
        assert(p.subrange(i, p.len() as int) =~= q.subrange(i, q.len() as int).push(p.last()));
    }
}

/// The final component of the path `p`, the name that a program run from
/// `p` is given as its own.
pub fn file_name(p: &str) -> (r: String)
    ensures
        r@ == base_name(p@),
{
    let n = p.unicode_len();
    let mut i: usize = n;
    while i > 0
        invariant
            n == p@.len(),
            i <= n,
            forall|j: int| i <= j < n ==> p@[j] != '/',
        ensures
            i == 0 || p@[i - 1] == '/',
            forall|j: int| i <= j < n ==> p@[j] != '/',
        decreases i,
    {
        if p.get_char(i - 1) == '/' {
            break;
        }
        i = i - 1;
    }
    proof {
        lemma_base_name(p@, i as int);
    }
    String::from_str(p.substring_char(i, n))
}

} // verus!
