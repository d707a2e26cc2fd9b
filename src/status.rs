//! Parsing of the status listings and the lookups that join them to paths.

use vstd::prelude::*;

use crate::command::CommandOutput;
use crate::text::{
    char_string, chars_of, lines_of, parse_u32, parse_u32_of, prefixed_string, string_of,
    text_lines, words, words_of,
};

verus! {

/// One line of `chezmoi status`: a managed path and its local status code.
#[derive(Debug)]
pub struct StatusEntry {
    pub path: String,
    pub code: String,
}

impl View for StatusEntry {
    type V = (Seq<char>, Seq<char>);

    open spec fn view(&self) -> (Seq<char>, Seq<char>) {
        (self.path@, self.code@)
    }
}

/// One key of the source tree's git status: a file name and its index and
/// worktree codes.
#[derive(Debug)]
pub struct GitEntry {
    pub name: String,
    pub index: String,
    pub worktree: String,
}

impl View for GitEntry {
    type V = (Seq<char>, (Seq<char>, Seq<char>));

    open spec fn view(&self) -> (Seq<char>, (Seq<char>, Seq<char>)) {
        (self.name@, (self.index@, self.worktree@))
    }
}

/// The (path, code) pairs of the local status entries `v`.
pub open spec fn status_view(v: Seq<StatusEntry>) -> Seq<(Seq<char>, Seq<char>)> {
    v.map_values(|e: StatusEntry| e@)
}

/// The (name, codes) pairs of the git status entries `v`.
pub open spec fn git_view(v: Seq<GitEntry>) -> Seq<(Seq<char>, (Seq<char>, Seq<char>))> {
    v.map_values(|e: GitEntry| e@)
}

/// The value that the last insertion under `k` left in a map built by
/// inserting `es` in order.
pub open spec fn last_value<V>(es: Seq<(Seq<char>, V)>, k: Seq<char>) -> Option<V>
    decreases es.len(),
{
    if es.len() == 0 {
        None
    } else if es.last().0 == k {
        Some(es.last().1)
    } else {
        last_value(es.drop_last(), k)
    }
}

/// The insertions that the lines of a local status listing make: the text
/// after the three-character prefix, keyed to the first character. Shorter
/// lines are skipped.
pub open spec fn local_entries(ls: Seq<Seq<char>>) -> Seq<(Seq<char>, Seq<char>)>
    decreases ls.len(),
{
    if ls.len() == 0 {
        Seq::empty()
    } else {
        let p = local_entries(ls.drop_last());
        let l = ls.last();
        if l.len() >= 3 {
            p.push((l.subrange(3, l.len() as int), seq![l[0]]))
        } else {
            p
        }
    }
}

/// The part of `s` after its last `/`; all of `s` where it has none.
pub open spec fn last_segment(s: Seq<char>) -> Seq<char>
    decreases s.len(),
{
    if s.len() == 0 {
        s
    } else if s.last() == '/' {
        Seq::empty()
    } else {
        last_segment(s.drop_last()).push(s.last())
    }
}

/// The insertions that the lines of a porcelain git status make: for each
/// line of at least three characters, its file name's last segment and then
/// its whole file name, both keyed to the first two characters.
pub open spec fn git_entries(ls: Seq<Seq<char>>) -> Seq<(Seq<char>, (Seq<char>, Seq<char>))>
    decreases ls.len(),
{
    if ls.len() == 0 {
        Seq::empty()
    } else {
        let p = git_entries(ls.drop_last());
        let l = ls.last();
        let name = l.subrange(3, l.len() as int);
        let codes = (seq![l[0]], seq![l[1]]);
        if l.len() >= 3 {
            p.push((last_segment(name), codes)).push((name, codes))
        } else {
            p
        }
    }
}

/// The candidate source file name of a managed path: a leading period
/// becomes `dot_`, the rest stays.
pub open spec fn source_name(p: Seq<char>) -> Seq<char> {
    if p.len() > 0 && p[0] == '.' {
        seq!['d', 'o', 't', '_'] + p.drop_first()
    } else {
        p
    }
}

/// The local status code of `path`; a space where none is listed.
pub open spec fn local_code(es: Seq<(Seq<char>, Seq<char>)>, path: Seq<char>) -> Seq<char> {
    match last_value(es, path) {
        Some(c) => c,
        None => seq![' '],
    }
}

/// The git codes of `path`, looked up by its source name, then by that
/// name's last segment; spaces where neither is listed.
pub open spec fn git_codes(es: Seq<(Seq<char>, (Seq<char>, Seq<char>))>, path: Seq<char>) -> (
    Seq<char>,
    Seq<char>,
) {
    let n = source_name(path);
    match last_value(es, n) {
        Some(v) => v,
        None => match last_value(es, last_segment(n)) {
            Some(v) => v,
            None => (seq![' '], seq![' ']),
        },
    }
}

/// The ahead and behind counts that a rev-list count output states: exactly
/// two words, each an unsigned number; zeros otherwise.
pub open spec fn counts_of_text(s: Seq<char>) -> (u32, u32) {
    let w = words(s);
    if w.len() == 2 && parse_u32(w[0]) is Some && parse_u32(w[1]) is Some {
        (parse_u32(w[0])->0, parse_u32(w[1])->0)
    } else {
        (0, 0)
    }
}

/// The ahead and behind counts of a rev-list count run; zeros where it
/// could not be started or failed.
pub open spec fn sync_counts(run: Result<CommandOutput, String>) -> (u32, u32) {
    match run {
        Ok(o) => if o.success {
            counts_of_text(o.stdout@)
        } else {
            (0, 0)
        },
        Err(_) => (0, 0),
    }
}

/// The entries that the local status listing `stdout` makes, in order.
pub fn parse_local_status(stdout: &str) -> (r: Vec<StatusEntry>)
    ensures
        status_view(r@) == local_entries(text_lines(stdout@)),
{
    let lines = lines_of(stdout);
    let ghost ls = text_lines(stdout@);
    let mut r: Vec<StatusEntry> = Vec::new();
    let mut i: usize = 0;
    while i < lines.len()
        invariant
            i <= lines@.len(),
            ls.len() == lines@.len(),
            forall|k: int| 0 <= k < ls.len() ==> #[trigger] ls[k] == lines@[k]@,
            status_view(r@) == local_entries(ls.subrange(0, i as int)),
        decreases lines.len() - i,
    {
        let cs = chars_of(lines[i].as_str());
        assert(ls.subrange(0, i + 1).drop_last() =~= ls.subrange(0, i as int));
        assert(ls[i as int] == cs@);
        if cs.len() >= 3 {
            let e = StatusEntry { path: string_of(&cs, 3, cs.len()), code: char_string(cs[0]) };
            r.push(e);
        }
        i = i + 1;
        assert(status_view(r@) =~= local_entries(ls.subrange(0, i as int)));
    }
    assert(ls.subrange(0, ls.len() as int) =~= ls);
    r
}

/// The part of `s` after its last `/`.
pub fn last_segment_of(s: &str) -> (r: String)
    ensures
        r@ == last_segment(s@),
{
    let cs = chars_of(s);
    let n = cs.len();
    let mut j: usize = n;
    assert(cs@.subrange(0, n as int) =~= cs@);
    assert(cs@.subrange(n as int, n as int) =~= Seq::<char>::empty());
    while j > 0 && cs[j - 1] != '/'
        invariant
            j <= n == cs@.len(),
            last_segment(cs@) == last_segment(cs@.subrange(0, j as int)) + cs@.subrange(
                j as int,
                n as int,
            ),
        decreases j,
    {
        assert(cs@.subrange(0, j as int).drop_last() =~= cs@.subrange(0, j - 1));
        assert(cs@.subrange(j - 1, n as int) =~= seq![cs@[j - 1]] + cs@.subrange(j as int, n as int));
        assert(last_segment(cs@.subrange(0, j - 1)).push(cs@[j - 1]) + cs@.subrange(j as int, n as int)
            =~= last_segment(cs@.subrange(0, j - 1)) + cs@.subrange(j - 1, n as int));
        j = j - 1;
    }
    assert(last_segment(cs@.subrange(0, j as int)) =~= Seq::<char>::empty());
    assert(last_segment(cs@) =~= cs@.subrange(j as int, n as int));
    string_of(&cs, j, n)
}

/// The entries that the porcelain git status `stdout` makes, in order.
pub fn parse_git_status(stdout: &str) -> (r: Vec<GitEntry>)
    ensures
        git_view(r@) == git_entries(text_lines(stdout@)),
{
    let lines = lines_of(stdout);
    let ghost ls = text_lines(stdout@);
    let mut r: Vec<GitEntry> = Vec::new();
    let mut i: usize = 0;
    while i < lines.len()
        invariant
            i <= lines@.len(),
            ls.len() == lines@.len(),
            forall|k: int| 0 <= k < ls.len() ==> #[trigger] ls[k] == lines@[k]@,
            git_view(r@) == git_entries(ls.subrange(0, i as int)),
        decreases lines.len() - i,
    {
        let cs = chars_of(lines[i].as_str());
        assert(ls.subrange(0, i + 1).drop_last() =~= ls.subrange(0, i as int));
        assert(ls[i as int] == cs@);
        if cs.len() >= 3 {
            let name = string_of(&cs, 3, cs.len());
            let base = GitEntry {
                name: last_segment_of(name.as_str()),
                index: char_string(cs[0]),
                worktree: char_string(cs[1]),
            };
            r.push(base);
            let full = GitEntry { name, index: char_string(cs[0]), worktree: char_string(cs[1]) };
            r.push(full);
        }
        i = i + 1;
        assert(git_view(r@) =~= git_entries(ls.subrange(0, i as int)));
    }
    assert(ls.subrange(0, ls.len() as int) =~= ls);
    r
}

/// The candidate source file name of the managed path `path`: a path that
/// begins with a period has that period replaced by `dot_`; any other path
/// is its own candidate. Later segments are never changed.
pub fn path_to_source_name(path: &str) -> (r: String)
    ensures
        r@ == source_name(path@),
        path@.len() > 0 && path@[0] == '.' ==> r@ == seq!['d', 'o', 't', '_'] + path@.subrange(
            1,
            path@.len() as int,
        ),
        !(path@.len() > 0 && path@[0] == '.') ==> r@ == path@,
{
    let cs = chars_of(path);
    if cs.len() > 0 && cs[0] == '.' {
        let r = prefixed_string("dot_", &cs, 1);
        proof {
            reveal_strlit("dot_");
        }
        assert(r@ =~= seq!['d', 'o', 't', '_'] + path@.drop_first());
        r
    } else {
        string_of(&cs, 0, cs.len())
    }
}

/// The local status code of `path` among `es`; a space where none is listed.
pub fn find_local_code(es: &Vec<StatusEntry>, path: &String) -> (r: String)
    ensures
        r@ == local_code(status_view(es@), path@),
{
    let ghost v = status_view(es@);
    let mut j: usize = es.len();
    assert(v.subrange(0, j as int) =~= v);
    while j > 0
        invariant
            j <= es@.len(),
            v == status_view(es@),
            last_value(v, path@) == last_value(v.subrange(0, j as int), path@),
        decreases j,
    {
        assert(v.subrange(0, j as int).drop_last() =~= v.subrange(0, j - 1));
        if es[j - 1].path == *path {
            return es[j - 1].code.clone();
        }
        j = j - 1;
    }
    char_string(' ')
}

/// The codes of the last entry of `es` keyed `k`.
fn find_git_key(es: &Vec<GitEntry>, k: &String) -> (r: Option<(String, String)>)
    ensures
        match r {
            Some(c) => last_value(git_view(es@), k@) == Some((c.0@, c.1@)),
            None => last_value(git_view(es@), k@) is None,
        },
{
    let ghost v = git_view(es@);
    let mut j: usize = es.len();
    assert(v.subrange(0, j as int) =~= v);
    while j > 0
        invariant
            j <= es@.len(),
            v == git_view(es@),
            last_value(v, k@) == last_value(v.subrange(0, j as int), k@),
        decreases j,
    {
        assert(v.subrange(0, j as int).drop_last() =~= v.subrange(0, j - 1));
        if es[j - 1].name == *k {
            return Some((es[j - 1].index.clone(), es[j - 1].worktree.clone()));
        }
        j = j - 1;
    }
    None
}

/// The git codes of the managed path `path` among `es`: by its source name,
/// then by that name's last segment; spaces where neither is listed.
pub fn find_git_codes(es: &Vec<GitEntry>, path: &str) -> (r: (String, String))
    ensures
        (r.0@, r.1@) == git_codes(git_view(es@), path@),
{
    let name = path_to_source_name(path);
    match find_git_key(es, &name) {
        Some(c) => c,
        None => {
            let base = last_segment_of(name.as_str());
            match find_git_key(es, &base) {
                Some(c) => c,
                None => (char_string(' '), char_string(' ')),
            }
        },
    }
}

/// The ahead and behind counts of a rev-list count run. A run that could
/// not be started, that failed, or whose output is not exactly two unsigned
/// numbers gives zero for both.
pub fn ahead_behind(run: &Result<CommandOutput, String>) -> (r: (u32, u32))
    ensures
        r == sync_counts(*run),
        run is Err ==> r == (0u32, 0u32),
        run is Ok && !run->Ok_0.success ==> r == (0u32, 0u32),
        words(run->Ok_0.stdout@).len() != 2 ==> r == (0u32, 0u32),
{
    match run {
        Ok(o) => {
            if !o.success {
                return (0, 0);
            }
            let w = words_of(o.stdout.as_str());
            if w.len() != 2 {
                return (0, 0);
            }
            assert(w@[0]@ == words(o.stdout@)[0]);
            assert(w@[1]@ == words(o.stdout@)[1]);
            match (parse_u32_of(w[0].as_str()), parse_u32_of(w[1].as_str())) {
                (Some(a), Some(b)) => (a, b),
                _ => (0, 0),
            }
        },
        Err(_) => (0, 0),
    }
}

} // verus!
