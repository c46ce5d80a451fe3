//! The interactive chooser: one external fuzzy-finder subprocess, driven as
//! a state machine. The session decides every step — whether to spawn at
//! all, which candidate line to stream next, when to await the result, and
//! what an exit status and captured output mean — while the caller performs
//! the spawning, writing, and waiting, and reports back what happened.

use vstd::prelude::*;

use crate::launch::Invocation;
use crate::text::{spec_split_lines, spec_trim, split_lines, trim};

verus! {

/// Which backend serves an interactive selection.
#[derive(Debug, Clone, Copy, Default)]
pub enum Chooser {
    #[default]
    Fzf,
    Dialoguer,
}

/// The finder's reserved exit code for a user abort.
pub const CANCEL_EXIT_CODE: i32 = 130;

/// The finder's reserved exit code for a run that matched or selected
/// nothing.
pub const NO_MATCH_EXIT_CODE: i32 = 1;

/// The mathematical form of a chooser outcome.
pub enum SpecChooserOutcome {
    Selected(Seq<Seq<char>>),
    NoneSelected,
    Cancelled,
    FinderFailed(Option<int>),
}

/// What one run of the finder came to.
#[derive(Debug, Clone)]
pub enum ChooserOutcome {
    /// At least one name was picked; the names stand in the finder's order.
    Selected(Vec<String>),
    /// Nothing was picked: a quiet no-op, not an error.
    NoneSelected,
    /// The user aborted: a quiet no-op, not an error.
    Cancelled,
    /// The finder ended with an unclassified status, carried here raw; no
    /// code means it did not exit on its own.
    FinderFailed(Option<i32>),
}

impl View for ChooserOutcome {
    type V = SpecChooserOutcome;

    open spec fn view(&self) -> SpecChooserOutcome {
        match self {
            ChooserOutcome::Selected(v) => SpecChooserOutcome::Selected(v.deep_view()),
            ChooserOutcome::NoneSelected => SpecChooserOutcome::NoneSelected,
            ChooserOutcome::Cancelled => SpecChooserOutcome::Cancelled,
            ChooserOutcome::FinderFailed(c) => SpecChooserOutcome::FinderFailed(
                match c {
                    Option::Some(v) => Option::Some(*v as int),
                    Option::None => Option::None,
                },
            ),
        }
    }
}

/// The exit status as the model sees it.
pub open spec fn code_view(code: Option<i32>) -> Option<int> {
    match code {
        Option::Some(c) => Option::Some(c as int),
        Option::None => Option::None,
    }
}

/// The outcome that an exit status and the captured output determine:
/// success with non-blank output is a selection, one name per line; success
/// with blank output and the reserved no-match code are a quiet no-op; the
/// reserved cancel code is a user abort whatever was printed; every other
/// status is a hard failure carrying the raw status.
pub open spec fn spec_outcome(code: Option<int>, out: Seq<char>) -> SpecChooserOutcome {
    if code == Option::<int>::Some(0) {
        if spec_trim(out).len() == 0 {
            SpecChooserOutcome::NoneSelected
        } else {
            SpecChooserOutcome::Selected(spec_split_lines(spec_trim(out)))
        }
    } else if code == Option::<int>::Some(CANCEL_EXIT_CODE as int) {
        SpecChooserOutcome::Cancelled
    } else if code == Option::<int>::Some(NO_MATCH_EXIT_CODE as int) {
        SpecChooserOutcome::NoneSelected
    } else {
        SpecChooserOutcome::FinderFailed(code)
    }
}

/// Map a finder exit status and its captured standard output to the
/// outcome it means.
pub fn interpret_finder_result(code: Option<i32>, stdout: &str) -> (r: ChooserOutcome)
    ensures
        r@ == spec_outcome(code_view(code), stdout@),
{
    match code {
        Some(c) => {
            if c == 0 {
                let t = trim(stdout);
                if t.as_str().unicode_len() == 0 {
                    ChooserOutcome::NoneSelected
                } else {
                    ChooserOutcome::Selected(split_lines(t.as_str()))
                }
            } else if c == CANCEL_EXIT_CODE {
                ChooserOutcome::Cancelled
            } else if c == NO_MATCH_EXIT_CODE {
                ChooserOutcome::NoneSelected
            } else {
                ChooserOutcome::FinderFailed(Some(c))
            }
        },
        None => ChooserOutcome::FinderFailed(None),
    }
}

/// The fixed finder flags: preview pane, layout, tab navigation, cycling,
/// source order kept, colour passed through, and the tmux pane.
pub open spec fn spec_finder_base_args() -> Seq<Seq<char>> {
    seq![
        "--preview-window=right:60%:wrap"@,
        "--layout=reverse"@,
        "--bind=tab:down,shift-tab:up"@,
        "--cycle"@,
        "--no-sort"@,
        "--ansi"@,
        "--tmux=center,70%,40%"@,
    ]
}

/// The flags that enable multi-selection.
pub open spec fn spec_multi_args() -> Seq<Seq<char>> {
    seq!["--multi"@, "--bind=ctrl-a:select-all"@, "--bind=space:toggle+down"@]
}

/// The preview command: a shell one-liner that re-invokes this program's
/// own executable in list mode on the highlighted candidate, so the finder
/// can render a parcel's contents live. The executable path is the running
/// program's own, never a hardcoded name.
pub open spec fn spec_preview_command(exe: Seq<char>, config_path: Seq<char>) -> Seq<char> {
    (((("sh -c '"@ + exe) + " --config "@) + config_path)
        + " list \"$1\" | bat --color=always -pp' sh {}"@)
}

/// The full finder invocation: the fixed flags, the multi-selection flags
/// only when asked for, and the preview command last.
pub open spec fn spec_finder_invocation(exe: Seq<char>, config_path: Seq<char>, multi: bool) -> (
    Seq<char>,
    Seq<Seq<char>>,
) {
    (
        "fzf"@,
        spec_finder_base_args() + (if multi {
            spec_multi_args()
        } else {
            Seq::empty()
        }) + seq!["--preview"@, spec_preview_command(exe, config_path)],
    )
}

/// Build the finder invocation.
fn finder_invocation(exe: &str, config_path: &str, multi: bool) -> (r: Invocation)
    ensures
        r@ == spec_finder_invocation(exe@, config_path@, multi),
{
    let mut args: Vec<String> = Vec::new();
    args.push("--preview-window=right:60%:wrap".to_owned());
    args.push("--layout=reverse".to_owned());
    args.push("--bind=tab:down,shift-tab:up".to_owned());
    args.push("--cycle".to_owned());
    args.push("--no-sort".to_owned());
    args.push("--ansi".to_owned());
    args.push("--tmux=center,70%,40%".to_owned());
    if multi {
        args.push("--multi".to_owned());
        args.push("--bind=ctrl-a:select-all".to_owned());
        args.push("--bind=space:toggle+down".to_owned());
    }
    args.push("--preview".to_owned());
    let mut preview = "sh -c '".to_owned();
    preview.append(exe);
    preview.append(" --config ");
    preview.append(config_path);
    preview.append(" list \"$1\" | bat --color=always -pp' sh {}");
    args.push(preview);
    proof {
        assert(args.deep_view() =~= spec_finder_invocation(exe@, config_path@, multi).1);
    }
    Invocation { program: "fzf".to_owned(), args }
}

/// The phase of one chooser interaction.
#[derive(Debug, Clone, Copy, PartialEq, Eq, Structural)]
pub enum ChooserPhase {
    Idle,
    Spawning,
    Streaming,
    AwaitingResult,
    Done,
}

/// One interactive selection. The session owns the decisions; the caller
/// owns the subprocess: it spawns what `invocation` says, writes exactly
/// the lines `next_candidate` hands out, closes the stream when the
/// candidates run out, only then blocks for the exit, and hands status and
/// output to `finish`.
#[derive(Debug)]
pub struct ChooserSession {
    candidates: Vec<String>,
    multi: bool,
    phase: ChooserPhase,
    sent: usize,
}

impl ChooserSession {
    /// The candidate names offered for selection, in definition order.
    pub closed spec fn spec_candidates(&self) -> Seq<Seq<char>> {
        self.candidates.deep_view()
    }

    /// Whether multi-selection is enabled.
    pub closed spec fn spec_multi(&self) -> bool {
        self.multi
    }

    /// The phase the interaction stands in.
    pub closed spec fn spec_phase(&self) -> ChooserPhase {
        self.phase
    }

    /// How many candidate lines have been handed out for writing.
    pub closed spec fn spec_sent(&self) -> int {
        self.sent as int
    }

    /// No more lines are ever handed out than there are candidates.
    pub open spec fn wf(&self) -> bool {
        0 <= self.spec_sent() <= self.spec_candidates().len()
    }

    /// A fresh session over these candidates.
    pub fn new(candidates: Vec<String>, multi: bool) -> (s: ChooserSession)
        ensures
            s.wf(),
            s.spec_phase() == ChooserPhase::Idle,
            s.spec_candidates() == candidates.deep_view(),
            s.spec_multi() == multi,
            s.spec_sent() == 0,
    {
        ChooserSession { candidates, multi, phase: ChooserPhase::Idle, sent: 0 }
    }

    /// Begin. With no candidates at all the finder is never spawned: the
    /// session ends at once and the caller reports that nothing is
    /// available, as a quiet informational state. Otherwise move to
    /// spawning.
    pub fn start(&mut self) -> (spawn: bool)
        requires
            old(self).wf(),
            old(self).spec_phase() == ChooserPhase::Idle,
        ensures
            final(self).wf(),
            spawn == (old(self).spec_candidates().len() > 0),
            final(self).spec_candidates() == old(self).spec_candidates(),
            final(self).spec_multi() == old(self).spec_multi(),
            final(self).spec_sent() == old(self).spec_sent(),
            spawn ==> final(self).spec_phase() == ChooserPhase::Spawning,
            !spawn ==> final(self).spec_phase() == ChooserPhase::Done,
    {
        if self.candidates.len() == 0 {
            self.phase = ChooserPhase::Done;
            false
        } else {
            self.phase = ChooserPhase::Spawning;
            true
        }
    }

    /// The finder invocation for this session, built from the running
    /// executable's own path and the config path the preview must re-read.
    pub fn invocation(&self, exe: &str, config_path: &str) -> (r: Invocation)
        requires
            self.spec_phase() == ChooserPhase::Spawning,
        ensures
            r@ == spec_finder_invocation(exe@, config_path@, self.spec_multi()),
    {
        finder_invocation(exe, config_path, self.multi)
    }

    /// The finder process is live: begin streaming candidates to it.
    pub fn on_spawned(&mut self)
        requires
            old(self).wf(),
            old(self).spec_phase() == ChooserPhase::Spawning,
        ensures
            final(self).wf(),
            final(self).spec_phase() == ChooserPhase::Streaming,
            final(self).spec_candidates() == old(self).spec_candidates(),
            final(self).spec_multi() == old(self).spec_multi(),
            final(self).spec_sent() == old(self).spec_sent(),
    {
        self.phase = ChooserPhase::Streaming;
    }

    /// The next candidate line to write to the finder, in order, one name
    /// at a time. When the candidates run out the session awaits the
    /// result: the caller must close the finder's input stream before it
    /// blocks on the exit, so neither side can deadlock on a full pipe.
    pub fn next_candidate(&mut self) -> (r: Option<String>)
        requires
            old(self).wf(),
            old(self).spec_phase() == ChooserPhase::Streaming,
        ensures
            final(self).wf(),
            final(self).spec_candidates() == old(self).spec_candidates(),
            final(self).spec_multi() == old(self).spec_multi(),
            old(self).spec_sent() < old(self).spec_candidates().len() ==> (r matches Some(line)
                && line@ == old(self).spec_candidates()[old(self).spec_sent()]
                && final(self).spec_sent() == old(self).spec_sent() + 1
                && final(self).spec_phase() == ChooserPhase::Streaming),
            old(self).spec_sent() == old(self).spec_candidates().len() ==> (r is None
                && final(self).spec_sent() == old(self).spec_sent()
                && final(self).spec_phase() == ChooserPhase::AwaitingResult),
    {
        if self.sent < self.candidates.len() {
            let line = self.candidates[self.sent].clone();
            self.sent = self.sent + 1;
            Some(line)
        } else {
            self.phase = ChooserPhase::AwaitingResult;
            None
        }
    }

    /// The finder ended: map its exit status and captured output to the
    /// outcome it means, and close the session.
    pub fn finish(&mut self, code: Option<i32>, stdout: &str) -> (r: ChooserOutcome)
        requires
            old(self).wf(),
            old(self).spec_phase() == ChooserPhase::AwaitingResult,
        ensures
            final(self).wf(),
            final(self).spec_phase() == ChooserPhase::Done,
            r@ == spec_outcome(code_view(code), stdout@),
    {
        self.phase = ChooserPhase::Done;
        interpret_finder_result(code, stdout)
    }
}

/// The candidate names at the picked indices, in pick order: the handoff
/// from an index-based multi-selection. Nothing when an index is out of
/// range.
pub fn select_by_indices(candidates: &Vec<String>, indices: &Vec<usize>) -> (r: Option<
    Vec<String>,
>)
    ensures
        (r is Some) <==> (forall|k: int|
            0 <= k < indices@.len() ==> indices@[k] < candidates@.len()),
        r matches Some(v) ==> v.deep_view() == indices@.map_values(
            |ix: usize| candidates.deep_view()[ix as int],
        ),
{
    let mut out: Vec<String> = Vec::new();
    let mut k: usize = 0;
    proof {
        assert(out.deep_view() =~= indices@.take(0).map_values(
            |ix: usize| candidates.deep_view()[ix as int],
        ));
    }
    while k < indices.len()
        invariant
            0 <= k <= indices.len(),
            forall|j: int| 0 <= j < k ==> indices@[j] < candidates@.len(),
            out.deep_view() =~= indices@.take(k as int).map_values(
                |ix: usize| candidates.deep_view()[ix as int],
            ),
        decreases indices.len() - k,
    {
        let ix = indices[k];
        if ix >= candidates.len() {
            return None;
        }
        let ghost old_deep = out.deep_view();
        out.push(candidates[ix].clone());
        proof {
            assert(out.deep_view() =~= old_deep.push(candidates.deep_view()[ix as int]));
            assert(indices@.take(k + 1) =~= indices@.take(k as int).push(indices@[k as int]));
            assert(indices@.take(k + 1).map_values(
                |ix2: usize| candidates.deep_view()[ix2 as int],
            ) =~= indices@.take(k as int).map_values(
                |ix2: usize| candidates.deep_view()[ix2 as int],
            ).push(candidates.deep_view()[indices@[k as int] as int]));
        }
        k = k + 1;
    }
    proof {
        assert(indices@.take(indices.len() as int) =~= indices@);
    }
    Some(out)
}

/// Law: the cancel code means a user abort, whatever the finder printed.
pub proof fn lemma_cancel_code_wins(out: Seq<char>)
    ensures
        spec_outcome(Option::Some(CANCEL_EXIT_CODE as int), out)
            == SpecChooserOutcome::Cancelled,
{
}

/// Law: a selection is never empty. Whatever the finder printed, a
/// selected outcome holds at least one name.
pub proof fn lemma_selection_nonempty(code: Option<int>, out: Seq<char>)
    ensures
        spec_outcome(code, out) matches SpecChooserOutcome::Selected(names) ==> names.len() > 0,
{
}

/// Law: a successful exit with non-blank output selects exactly the
/// trimmed output's lines, in the finder's order.
pub proof fn lemma_success_selects_lines(out: Seq<char>)
    requires
        spec_trim(out).len() > 0,
    ensures
        spec_outcome(Option::Some(0), out) == SpecChooserOutcome::Selected(
            spec_split_lines(spec_trim(out)),
        ),
{
}

} // verus!
