//! Captured command results and the argument lists of the chezmoi commands.

use vstd::prelude::*;

use crate::text::{chars_of, push_char, push_range, string_of, strings_view, trim, trimmed};

verus! {

/// What one run of an external command produced.
#[derive(Debug)]
pub struct CommandOutput {
    pub stdout: String,
    pub stderr: String,
    pub success: bool,
}

} // verus!

verus! {

/// The chezmoi arguments that run `git` with `args` in the source directory.
pub fn run_chezmoi_git(args: &Vec<String>) -> (r: Vec<String>)
    ensures
        strings_view(r@) == seq!["git"@, "--"@] + strings_view(args@),
{
    let mut r: Vec<String> = Vec::new();
    r.push("git".to_owned());
    r.push("--".to_owned());
    let mut i: usize = 0;
    while i < args.len()
        invariant
            i <= args@.len(),
            strings_view(r@) == seq!["git"@, "--"@] + strings_view(args@).subrange(0, i as int),
        decreases args.len() - i,
    {
        let a = args[i].clone();
        let ghost prev = r@;
        r.push(a);
        assert(strings_view(r@) =~= strings_view(prev).push(args@[i as int]@));
        assert(strings_view(args@).subrange(0, i + 1) =~= strings_view(args@).subrange(0, i as int).push(args@[i as int]@));
        i = i + 1;
        assert(strings_view(r@) =~= seq!["git"@, "--"@] + strings_view(args@).subrange(0, i as int));
    }
    assert(strings_view(args@).subrange(0, args@.len() as int) =~= strings_view(args@));
    r
}

} // verus!

verus! {

/// Whether `path` is absolute or already relative to the home marker `~/`.
pub open spec fn is_rooted(path: Seq<char>) -> bool {
    (path.len() > 0 && path[0] == '/') || (path.len() > 1 && path[0] == '~' && path[1] == '/')
}

/// `path` made absolute under the home directory `home`, unless it is
/// rooted already.
pub open spec fn expanded(path: Seq<char>, home: Seq<char>) -> Seq<char> {
    if is_rooted(path) {
        path
    } else {
        home + seq!['/'] + path
    }
}

/// Expands a path relative to the home directory `home` (such as `.bashrc`)
/// to an absolute one; a path that begins with `/` or `~/` is kept.
pub fn expand_home(path: &str, home: &str) -> (r: String)
    ensures
        r@ == expanded(path@, home@),
{
    let cs = chars_of(path);
    let n = cs.len();
    if (n > 0 && cs[0] == '/') || (n > 1 && cs[0] == '~' && cs[1] == '/') {
        return string_of(&cs, 0, n);
    }
    let mut r = home.to_owned();
    push_char(&mut r, '/');
    push_range(&mut r, &cs, 0, n);
    assert(cs@.subrange(0, n as int) =~= cs@);
    r
}

/// The arguments `base`, then `path` expanded under `home` where one is given.
pub open spec fn with_path(base: Seq<Seq<char>>, path: Option<String>, home: Seq<char>) -> Seq<
    Seq<char>,
> {
    match path {
        Some(p) => base.push(expanded(p@, home)),
        None => base,
    }
}

/// The arguments `a`, as owned strings.
pub(crate) fn args_of(a: &[&str]) -> (r: Vec<String>)
    ensures
        r@.len() == a@.len(),
        forall|k: int| 0 <= k < a@.len() ==> #[trigger] r@[k]@ == a@[k]@,
{
    let mut r: Vec<String> = Vec::new();
    let mut i: usize = 0;
    while i < a.len()
        invariant
            i <= a@.len(),
            r@.len() == i,
            forall|k: int| 0 <= k < i ==> #[trigger] r@[k]@ == a@[k]@,
        decreases a.len() - i,
    {
        r.push(a[i].to_owned());
        i = i + 1;
    }
    r
}

fn push_path(args: &mut Vec<String>, path: Option<String>, home: &str)
    ensures
        strings_view(final(args)@) == with_path(strings_view(old(args)@), path, home@),
{
    if let Some(p) = path {
        let e = expand_home(p.as_str(), home);
        let ghost prev = args@;
        args.push(e);
        assert(strings_view(args@) =~= strings_view(prev).push(e@));
    }
}

/// The chezmoi arguments of `diff`, for one path or for all files.
pub fn chezmoi_diff(path: Option<String>, home: &str) -> (r: Vec<String>)
    ensures
        strings_view(r@) == with_path(seq!["diff"@], path, home@),
{
    let mut r = args_of(&["diff"]);
    assert(strings_view(r@) =~= seq!["diff"@]);
    push_path(&mut r, path, home);
    r
}

/// The chezmoi arguments that diff the source file `source_path` in the
/// source tree.
pub fn chezmoi_diff_git(source_path: String) -> (r: Vec<String>)
    ensures
        strings_view(r@) == seq!["git"@, "--"@, "diff"@, source_path@],
{
    let mut a = args_of(&["diff"]);
    a.push(source_path);
    let r = run_chezmoi_git(&a);
    assert(strings_view(r@) =~= seq!["git"@, "--"@, "diff"@, source_path@]);
    r
}

/// The chezmoi arguments that diff the staged state of the source file
/// `source_path` against the source tree's last commit.
pub fn chezmoi_diff_git_cached(source_path: String) -> (r: Vec<String>)
    ensures
        strings_view(r@) == seq!["git"@, "--"@, "diff"@, "--cached"@, source_path@],
{
    let mut a = args_of(&["diff", "--cached"]);
    a.push(source_path);
    let r = run_chezmoi_git(&a);
    assert(strings_view(r@) =~= seq!["git"@, "--"@, "diff"@, "--cached"@, source_path@]);
    r
}

/// The chezmoi arguments of a forced `apply`, for one path or for all files.
pub fn chezmoi_apply(path: Option<String>, home: &str) -> (r: Vec<String>)
    ensures
        strings_view(r@) == with_path(seq!["apply"@, "--force"@], path, home@),
{
    let mut r = args_of(&["apply", "--force"]);
    assert(strings_view(r@) =~= seq!["apply"@, "--force"@]);
    push_path(&mut r, path, home);
    r
}

/// The chezmoi arguments that add `path` to the managed files.
pub fn chezmoi_add(path: String, home: &str) -> (r: Vec<String>)
    ensures
        strings_view(r@) == seq!["add"@, expanded(path@, home@)],
{
    let mut r = args_of(&["add"]);
    r.push(expand_home(path.as_str(), home));
    assert(strings_view(r@) =~= seq!["add"@, expanded(path@, home@)]);
    r
}

/// The chezmoi arguments that stop managing `path`, without asking.
pub fn chezmoi_forget(path: String, home: &str) -> (r: Vec<String>)
    ensures
        strings_view(r@) == seq!["forget"@, "--force"@, expanded(path@, home@)],
{
    let mut r = args_of(&["forget", "--force"]);
    r.push(expand_home(path.as_str(), home));
    assert(strings_view(r@) =~= seq!["forget"@, "--force"@, expanded(path@, home@)]);
    r
}

/// The chezmoi arguments of `source-path`, for one path or for the source
/// directory itself.
pub fn chezmoi_source_path(path: Option<String>, home: &str) -> (r: Vec<String>)
    ensures
        strings_view(r@) == with_path(seq!["source-path"@], path, home@),
{
    let mut r = args_of(&["source-path"]);
    assert(strings_view(r@) =~= seq!["source-path"@]);
    push_path(&mut r, path, home);
    r
}

/// The chezmoi arguments that list every managed entry.
pub fn chezmoi_managed() -> (r: Vec<String>)
    ensures
        strings_view(r@) == seq!["managed"@],
{
    let r = args_of(&["managed"]);
    assert(strings_view(r@) =~= seq!["managed"@]);
    r
}

/// The chezmoi arguments that run `git` with `args` in the source directory.
pub fn chezmoi_git(args: Vec<String>) -> (r: Vec<String>)
    ensures
        strings_view(r@) == seq!["git"@, "--"@] + strings_view(args@),
{
    run_chezmoi_git(&args)
}

/// The chezmoi arguments that print the template data as JSON.
pub fn chezmoi_data() -> (r: Vec<String>)
    ensures
        strings_view(r@) == seq!["data"@, "--format=json"@],
{
    let r = args_of(&["data", "--format=json"]);
    assert(strings_view(r@) =~= seq!["data"@, "--format=json"@]);
    r
}

/// The chezmoi arguments of `doctor`.
pub fn chezmoi_doctor() -> (r: Vec<String>)
    ensures
        strings_view(r@) == seq!["doctor"@],
{
    let r = args_of(&["doctor"]);
    assert(strings_view(r@) =~= seq!["doctor"@]);
    r
}

/// The chezmoi arguments that print the target contents of `path`.
pub fn chezmoi_cat(path: String, home: &str) -> (r: Vec<String>)
    ensures
        strings_view(r@) == seq!["cat"@, expanded(path@, home@)],
{
    let mut r = args_of(&["cat"]);
    r.push(expand_home(path.as_str(), home));
    assert(strings_view(r@) =~= seq!["cat"@, expanded(path@, home@)]);
    r
}

/// The source directory that a `source-path` run printed, without
/// surrounding whitespace; the run's error where it could not be started.
pub fn source_dir(out: Result<CommandOutput, String>) -> (r: Result<String, String>)
    ensures
        match out {
            Ok(o) => r is Ok && r->Ok_0@ == trim(o.stdout@),
            Err(e) => r == Err::<String, String>(e),
        },
{
    match out {
        Ok(o) => Ok(trimmed(o.stdout.as_str())),
        Err(e) => Err(e),
    }
}

} // verus!
