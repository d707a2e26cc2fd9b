//! Joining the managed-file listing with the local and git status listings.

use vstd::prelude::*;

use crate::command::{args_of, run_chezmoi_git, CommandOutput};
use crate::status::{
    ahead_behind, last_segment, last_value, source_name, find_git_codes, find_local_code, git_codes, git_entries, git_view, local_code,
    local_entries, parse_git_status, parse_local_status, status_view, sync_counts, GitEntry,
    StatusEntry,
};
use crate::text::{lines_of, strings_view, text_lines};

verus! {

/// The full state of one managed file.
#[derive(Debug)]
pub struct FileState {
    /// Path relative to the home directory, such as `.bashrc`.
    pub path: String,
    /// Local status code: a space where the file matches its source.
    pub local_change: String,
    /// Git index (staged) code of the source file.
    pub git_index: String,
    /// Git worktree (unstaged) code of the source file.
    pub git_worktree: String,
    /// Commits of the source repository not yet pushed.
    pub commits_ahead: u32,
    /// Commits of the upstream not yet pulled.
    pub commits_behind: u32,
}

impl View for FileState {
    type V = (Seq<char>, Seq<char>, Seq<char>, Seq<char>, u32, u32);

    open spec fn view(&self) -> Self::V {
        (
            self.path@,
            self.local_change@,
            self.git_index@,
            self.git_worktree@,
            self.commits_ahead,
            self.commits_behind,
        )
    }
}

/// The views of the records `v`.
pub open spec fn states_view(v: Seq<FileState>) -> Seq<
    (Seq<char>, Seq<char>, Seq<char>, Seq<char>, u32, u32),
> {
    v.map_values(|f: FileState| f@)
}

/// The record of `path`, given the local and git status insertions and the
/// repository's ahead and behind counts.
pub open spec fn file_state(
    path: Seq<char>,
    local: Seq<(Seq<char>, Seq<char>)>,
    git: Seq<(Seq<char>, (Seq<char>, Seq<char>))>,
    counts: (u32, u32),
) -> (Seq<char>, Seq<char>, Seq<char>, Seq<char>, u32, u32) {
    (
        path,
        local_code(local, path),
        git_codes(git, path).0,
        git_codes(git, path).1,
        counts.0,
        counts.1,
    )
}

/// One record per managed path, in the order of `managed`.
pub open spec fn file_states(
    managed: Seq<Seq<char>>,
    local: Seq<(Seq<char>, Seq<char>)>,
    git: Seq<(Seq<char>, (Seq<char>, Seq<char>))>,
    counts: (u32, u32),
) -> Seq<(Seq<char>, Seq<char>, Seq<char>, Seq<char>, u32, u32)> {
    Seq::new(managed.len(), |k: int| file_state(managed[k], local, git, counts))
}

/// One record per managed path, in order, joined with the status entries.
pub fn join_states(
    managed: &Vec<String>,
    local: &Vec<StatusEntry>,
    git: &Vec<GitEntry>,
    counts: (u32, u32),
) -> (r: Vec<FileState>)
    ensures
        states_view(r@) == file_states(
            strings_view(managed@),
            status_view(local@),
            git_view(git@),
            counts,
        ),
{
    let ghost target = file_states(strings_view(managed@), status_view(local@), git_view(git@), counts);
    let mut r: Vec<FileState> = Vec::new();
    let mut i: usize = 0;
    while i < managed.len()
        invariant
            i <= managed@.len(),
            target == file_states(strings_view(managed@), status_view(local@), git_view(git@), counts),
            states_view(r@) == target.subrange(0, i as int),
        decreases managed.len() - i,
    {
        let path = &managed[i];
        let local_change = find_local_code(local, path);
        let (git_index, git_worktree) = find_git_codes(git, path.as_str());
        let ghost prev = r@;
        r.push(
            FileState {
                path: path.clone(),
                local_change,
                git_index,
                git_worktree,
                commits_ahead: counts.0,
                commits_behind: counts.1,
            },
        );
        assert(strings_view(managed@)[i as int] == managed@[i as int]@);
        assert(states_view(r@) =~= states_view(prev).push(target[i as int]));
        i = i + 1;
        assert(states_view(r@) =~= target.subrange(0, i as int));
    }
    assert(target.subrange(0, managed@.len() as int) =~= target);
    r
}

/// The file states that the four command outputs give: the managed listing,
/// the local status listing, the source tree's porcelain git status, and the
/// ahead/behind count run. There is one record per non-empty line of the
/// managed listing, in its order, and every record carries the same counts.
pub fn reconcile(
    managed_stdout: &str,
    status_stdout: &str,
    git_stdout: &str,
    rev: &Result<CommandOutput, String>,
) -> (r: Vec<FileState>)
    ensures
        states_view(r@) == file_states(
            text_lines(managed_stdout@),
            local_entries(text_lines(status_stdout@)),
            git_entries(text_lines(git_stdout@)),
            sync_counts(*rev),
        ),
        r@.len() == text_lines(managed_stdout@).len(),
        forall|k: int| 0 <= k < r@.len() ==> #[trigger] r@[k].path@ == text_lines(managed_stdout@)[k],
        forall|k: int|
            0 <= k < r@.len() ==> (#[trigger] r@[k].commits_ahead, r@[k].commits_behind)
                == sync_counts(*rev),
{
    let managed = lines_of(managed_stdout);
    let local = parse_local_status(status_stdout);
    let git = parse_git_status(git_stdout);
    let counts = ahead_behind(rev);
    let r = join_states(&managed, &local, &git, counts);
    proof {
        assert(states_view(r@).len() == r@.len());
        assert forall|k: int| 0 <= k < r@.len() implies #[trigger] r@[k].path@ == text_lines(
            managed_stdout@,
        )[k] by {
            assert(states_view(r@)[k] == r@[k]@);
        }
        assert forall|k: int| 0 <= k < r@.len() implies (
            #[trigger] r@[k].commits_ahead,
            r@[k].commits_behind,
        ) == sync_counts(*rev) by {
            assert(states_view(r@)[k] == r@[k]@);
        }
    }
    r
}

} // verus!

verus! {

/// The chezmoi arguments that list the managed files.
pub open spec fn managed_args() -> Seq<Seq<char>> {
    seq!["managed"@, "--include=files"@]
}

/// The chezmoi arguments of the local status listing.
pub open spec fn status_args() -> Seq<Seq<char>> {
    seq!["status"@]
}

/// The chezmoi arguments of the source tree's porcelain git status.
pub open spec fn git_status_args() -> Seq<Seq<char>> {
    seq!["git"@, "--"@, "status"@, "--porcelain"@]
}

/// The chezmoi arguments that count commits ahead of and behind upstream.
pub open spec fn rev_count_args() -> Seq<Seq<char>> {
    seq!["git"@, "--"@, "rev-list"@, "--left-right"@, "--count"@, "HEAD...@{upstream}"@]
}

/// Which command of a file-state pass awaits its result.
#[derive(Debug, Clone, Copy, PartialEq, Eq, Structural)]
pub enum PassStep {
    Managed,
    LocalStatus,
    GitStatus,
    AheadBehind,
    Finished,
}

/// What a file-state pass asks for next.
#[derive(Debug)]
pub enum PassAction {
    /// Run chezmoi with these arguments and hand back what it produced.
    Run(Vec<String>),
    /// The pass is over, with this outcome.
    Finish(Result<Vec<FileState>, String>),
}

/// One computation of the file states, fed the results of the chezmoi
/// commands that it asks for, one at a time.
#[derive(Debug)]
pub struct FileStatesPass {
    pub step: PassStep,
    pub managed: Vec<String>,
    pub local: Vec<StatusEntry>,
    pub git: Vec<GitEntry>,
}

/// Whether `a` asks to run chezmoi with exactly the arguments `args`.
pub open spec fn runs(a: PassAction, args: Seq<Seq<char>>) -> bool {
    a is Run && strings_view(a->Run_0@) == args
}

impl FileStatesPass {
    /// A new pass, and its first command: the managed-file listing.
    pub fn start() -> (r: (FileStatesPass, PassAction))
        ensures
            r.0.step == PassStep::Managed,
            runs(r.1, managed_args()),
    {
        let args = args_of(&["managed", "--include=files"]);
        assert(strings_view(args@) =~= managed_args());
        (
            FileStatesPass {
                step: PassStep::Managed,
                managed: Vec::new(),
                local: Vec::new(),
                git: Vec::new(),
            },
            PassAction::Run(args),
        )
    }

    /// Takes the result of the command last asked for and says what comes
    /// next. A command that could not be started ends the pass with its
    /// error, except the ahead/behind count, whose counts then default to
    /// zero. An empty managed listing ends the pass at once with no records.
    /// Otherwise the pass runs, in order, the local status, the git status
    /// and the ahead/behind count, and ends with one record per managed path.
    pub fn advance(&mut self, out: Result<CommandOutput, String>) -> (r: PassAction)
        requires
            old(self).step != PassStep::Finished,
        ensures
            (r is Run) == (final(self).step != PassStep::Finished),
            out is Err && old(self).step != PassStep::AheadBehind ==> r == PassAction::Finish(
                Err(out->Err_0),
            ),
            old(self).step == PassStep::Managed && out is Ok ==> {
                let ls = text_lines(out->Ok_0.stdout@);
                if ls.len() == 0 {
                    r is Finish && r->Finish_0 is Ok && r->Finish_0->Ok_0@.len() == 0
                } else {
                    &&& final(self).step == PassStep::LocalStatus
                    &&& strings_view(final(self).managed@) == ls
                    &&& runs(r, status_args())
                }
            },
            old(self).step == PassStep::LocalStatus && out is Ok ==> {
                &&& final(self).step == PassStep::GitStatus
                &&& final(self).managed@ == old(self).managed@
                &&& status_view(final(self).local@) == local_entries(
                    text_lines(out->Ok_0.stdout@),
                )
                &&& runs(r, git_status_args())
            },
            old(self).step == PassStep::GitStatus && out is Ok ==> {
                &&& final(self).step == PassStep::AheadBehind
                &&& final(self).managed@ == old(self).managed@
                &&& final(self).local@ == old(self).local@
                &&& git_view(final(self).git@) == git_entries(text_lines(out->Ok_0.stdout@))
                &&& runs(r, rev_count_args())
            },
            old(self).step == PassStep::AheadBehind ==> {
                &&& r is Finish
                &&& r->Finish_0 is Ok
                &&& states_view(r->Finish_0->Ok_0@) == file_states(
                    strings_view(old(self).managed@),
                    status_view(old(self).local@),
                    git_view(old(self).git@),
                    sync_counts(out),
                )
            },
    {
        match self.step {
            PassStep::Managed => match out {
                Err(e) => {
                    self.step = PassStep::Finished;
                    PassAction::Finish(Err(e))
                },
                Ok(o) => {
                    let managed = lines_of(o.stdout.as_str());
                    if managed.len() == 0 {
                        self.step = PassStep::Finished;
                        PassAction::Finish(Ok(Vec::new()))
                    } else {
                        self.managed = managed;
                        self.step = PassStep::LocalStatus;
                        let args = args_of(&["status"]);
                        assert(strings_view(args@) =~= status_args());
                        PassAction::Run(args)
                    }
                },
            },
            PassStep::LocalStatus => match out {
                Err(e) => {
                    self.step = PassStep::Finished;
                    PassAction::Finish(Err(e))
                },
                Ok(o) => {
                    self.local = parse_local_status(o.stdout.as_str());
                    self.step = PassStep::GitStatus;
                    let args = run_chezmoi_git(&args_of(&["status", "--porcelain"]));
                    assert(strings_view(args@) =~= git_status_args());
                    PassAction::Run(args)
                },
            },
            PassStep::GitStatus => match out {
                Err(e) => {
                    self.step = PassStep::Finished;
                    PassAction::Finish(Err(e))
                },
                Ok(o) => {
                    self.git = parse_git_status(o.stdout.as_str());
                    self.step = PassStep::AheadBehind;
                    let args = run_chezmoi_git(
                        &args_of(&["rev-list", "--left-right", "--count", "HEAD...@{upstream}"]),
                    );
                    assert(strings_view(args@) =~= rev_count_args());
                    PassAction::Run(args)
                },
            },
            _ => {
                let counts = ahead_behind(&out);
                self.step = PassStep::Finished;
                PassAction::Finish(Ok(join_states(&self.managed, &self.local, &self.git, counts)))
            },
        }
    }
}

/// No key of `es` equal to `k` leaves no value under `k`.
proof fn lemma_absent_key<V>(es: Seq<(Seq<char>, V)>, k: Seq<char>)
    requires
        forall|i: int| 0 <= i < es.len() ==> (#[trigger] es[i]).0 != k,
    ensures
        last_value(es, k) is None,
    decreases es.len(),
{
    if es.len() > 0 {
        assert(es.last() == es[es.len() - 1]);
        assert forall|i: int| 0 <= i < es.drop_last().len() implies (
        #[trigger] es.drop_last()[i]).0 != k by {
            assert(es.drop_last()[i] == es[i]);
        }
        lemma_absent_key(es.drop_last(), k);
    }
}

/// A managed path that the local status names nowhere, and whose source
/// name the git status names neither in full nor by its last segment, gets
/// the default record: a space as local code and as both git codes, with
/// the pass's ahead and behind counts.
pub proof fn lemma_unlisted_path_defaults(
    path: Seq<char>,
    local: Seq<(Seq<char>, Seq<char>)>,
    git: Seq<(Seq<char>, (Seq<char>, Seq<char>))>,
    counts: (u32, u32),
)
    requires
        forall|i: int| 0 <= i < local.len() ==> (#[trigger] local[i]).0 != path,
        forall|i: int|
            0 <= i < git.len() ==> (#[trigger] git[i]).0 != source_name(path) && git[i].0
                != last_segment(source_name(path)),
    ensures
        file_state(path, local, git, counts) == (
            path,
            seq![' '],
            seq![' '],
            seq![' '],
            counts.0,
            counts.1,
        ),
{
    lemma_absent_key(local, path);
    lemma_absent_key(git, source_name(path));
    lemma_absent_key(git, last_segment(source_name(path)));
}

} // verus!
