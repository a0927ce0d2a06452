//! The batch executor as a step machine. The caller performs each action on
//! the file system or at the prompt and hands back what came of it; the
//! machine decides the rest: planning, the conflict policy, the transfer, and
//! on a fatal error the undoing of what was done, last first.
use crate::path::{copy_bytes, join, joined, last_component, last_name, parent, parent_of};
use crate::rename::{opt_bytes, planned, OnConflict, PlanError, Rename, RenameOut};
use crate::bytes::push_bytes;
use vstd::prelude::*;

verus! {

/// How many invalid answers to a conflict prompt are borne for one file.
pub const ANSWER_LIMIT: u8 = 5;

/// The operator's answer when a target path is taken.
#[derive(Clone, Debug)]
pub enum ConflictDecision {
    Overwrite,
    Skip,
    /// Give the incoming file this name instead, and check again.
    RenameNew(Vec<u8>),
    /// Move the existing file to this name, and check again.
    RenameOriginal(Vec<u8>),
    /// Put this before the incoming file's name, and check again.
    PrefixNew(Vec<u8>),
    /// Put this before the existing file's name, and check again.
    PrefixOriginal(Vec<u8>),
    Abort,
    /// An answer that means none of these.
    Invalid,
}

/// The operator's choice at a conflict prompt, before any name was typed.
#[derive(Clone, Copy, Debug, PartialEq, Eq, Structural)]
pub enum ConflictChoice {
    Overwrite,
    Skip,
    RenameNew,
    RenameOriginal,
    PrefixNew,
    PrefixOriginal,
    Abort,
    Invalid,
}

/// The choice that an answer at the prompt stands for: `o`verwrite, `s`kip,
/// `r`ename new, `R`ename original, `p`refix new, `P`refix original, `a`bort.
pub open spec fn choice_of(input: Seq<char>) -> ConflictChoice {
    if input == seq!['o'] {
        ConflictChoice::Overwrite
    } else if input == seq!['s'] {
        ConflictChoice::Skip
    } else if input == seq!['r'] {
        ConflictChoice::RenameNew
    } else if input == seq!['R'] {
        ConflictChoice::RenameOriginal
    } else if input == seq!['p'] {
        ConflictChoice::PrefixNew
    } else if input == seq!['P'] {
        ConflictChoice::PrefixOriginal
    } else if input == seq!['a'] {
        ConflictChoice::Abort
    } else {
        ConflictChoice::Invalid
    }
}

/// Reads the operator's answer at a conflict prompt.
pub fn parse_choice(input: &str) -> (r: ConflictChoice)
    ensures
        r == choice_of(input@),
{
    if input.unicode_len() != 1 {
        proof {
            assert(input@ != seq!['o'] && input@ != seq!['s'] && input@ != seq!['r'] && input@
                != seq!['R'] && input@ != seq!['p'] && input@ != seq!['P'] && input@ != seq![
                'a',
            ]);
        }
        return ConflictChoice::Invalid;
    }
    let c = input.get_char(0);
    proof {
        assert(input@ =~= seq![c]);
    }
    if c == 'o' {
        ConflictChoice::Overwrite
    } else if c == 's' {
        ConflictChoice::Skip
    } else if c == 'r' {
        ConflictChoice::RenameNew
    } else if c == 'R' {
        ConflictChoice::RenameOriginal
    } else if c == 'p' {
        ConflictChoice::PrefixNew
    } else if c == 'P' {
        ConflictChoice::PrefixOriginal
    } else if c == 'a' {
        ConflictChoice::Abort
    } else {
        proof {
            assert(input@ != seq!['o'] && input@ != seq!['s'] && input@ != seq!['r'] && input@
                != seq!['R'] && input@ != seq!['p'] && input@ != seq!['P'] && input@ != seq![
                'a',
            ]) by {
                if input@ == seq!['o'] || input@ == seq!['s'] || input@ == seq!['r'] || input@
                    == seq!['R'] || input@ == seq!['p'] || input@ == seq!['P'] || input@ == seq![
                    'a',
                ] {
                    assert(input@[0] == c);
                }
            }
        }
        ConflictChoice::Invalid
    }
}

impl ConflictChoice {
    /// Whether the choice needs a name or a prefix typed after it.
    pub fn needs_text(self) -> (r: bool)
        ensures
            r == (self == ConflictChoice::RenameNew || self == ConflictChoice::RenameOriginal
                || self == ConflictChoice::PrefixNew || self == ConflictChoice::PrefixOriginal),
    {
        match self {
            ConflictChoice::RenameNew | ConflictChoice::RenameOriginal | ConflictChoice::PrefixNew
            | ConflictChoice::PrefixOriginal => true,
            _ => false,
        }
    }

    /// The answer this choice gives with `text` typed after it; `text` is
    /// dropped by a choice that needs none.
    pub fn decide(self, text: Vec<u8>) -> (r: ConflictDecision)
        ensures
            r == match self {
                ConflictChoice::Overwrite => ConflictDecision::Overwrite,
                ConflictChoice::Skip => ConflictDecision::Skip,
                ConflictChoice::RenameNew => ConflictDecision::RenameNew(text),
                ConflictChoice::RenameOriginal => ConflictDecision::RenameOriginal(text),
                ConflictChoice::PrefixNew => ConflictDecision::PrefixNew(text),
                ConflictChoice::PrefixOriginal => ConflictDecision::PrefixOriginal(text),
                ConflictChoice::Abort => ConflictDecision::Abort,
                ConflictChoice::Invalid => ConflictDecision::Invalid,
            },
    {
        match self {
            ConflictChoice::Overwrite => ConflictDecision::Overwrite,
            ConflictChoice::Skip => ConflictDecision::Skip,
            ConflictChoice::RenameNew => ConflictDecision::RenameNew(text),
            ConflictChoice::RenameOriginal => ConflictDecision::RenameOriginal(text),
            ConflictChoice::PrefixNew => ConflictDecision::PrefixNew(text),
            ConflictChoice::PrefixOriginal => ConflictDecision::PrefixOriginal(text),
            ConflictChoice::Abort => ConflictDecision::Abort,
            ConflictChoice::Invalid => ConflictDecision::Invalid,
        }
    }
}

/// Why resolving a conflict failed.
#[derive(Clone, Copy, Debug, PartialEq, Eq, Structural)]
pub enum ResolveError {
    Aborted,
    InputExhausted,
    /// The taken target has no directory to put another name in.
    NoParent,
}

/// A file system operation failed.
#[derive(Clone, Copy, Debug, PartialEq, Eq, Structural)]
pub enum ExecError {
    FsOp,
}

/// Why one file of a batch failed.
#[derive(Clone, Debug)]
pub enum BatchError {
    Plan(PlanError),
    Resolve(ResolveError),
    Exec(ExecError),
}

/// The file at `index` failed with `error`.
#[derive(Clone, Debug)]
pub struct Failure {
    pub index: usize,
    pub error: BatchError,
}

/// What the caller reports back.
#[derive(Clone, Debug)]
pub enum Event {
    /// Whether the current file exists and whether it is a directory.
    Inspected { exists: bool, is_dir: bool },
    /// Whether the target path asked about is taken.
    TargetExists(bool),
    Answer(ConflictDecision),
    /// Whether the copy, move or removal asked for succeeded.
    OpDone(bool),
}

/// What the caller is to do next.
#[derive(Clone, Debug)]
pub enum Action {
    /// Report whether this path exists and is a directory.
    Inspect(Vec<u8>),
    /// Report whether this path is taken.
    CheckTarget(Vec<u8>),
    /// Ask the operator what to do about this taken path.
    Ask(Vec<u8>),
    Copy { from: Vec<u8>, to: Vec<u8> },
    Move { from: Vec<u8>, to: Vec<u8> },
    Remove(Vec<u8>),
    /// The batch is over.
    Finish,
}

/// Where the current file stands.
#[derive(Clone, Debug)]
pub enum Stage {
    Inspecting,
    Checking(Vec<u8>),
    Asking(Vec<u8>),
    /// The taken target is being moved to the second path.
    MovingAside(Vec<u8>, Vec<u8>),
    Transferring(Vec<u8>),
    Undoing,
    Done,
}

/// A batch in progress and, once it is over, its report.
#[derive(Clone, Debug)]
pub struct BatchRun {
    /// The file being worked on.
    pub index: usize,
    pub stage: Stage,
    /// Invalid answers given for the current file.
    pub invalid_answers: u8,
    /// What was moved or copied, kept when undoing on error.
    pub history: Vec<RenameOut>,
    /// One per file that finished without error: where it went, or `None`.
    pub outcomes: Vec<RenameOut>,
    pub errors: Vec<Failure>,
    /// How many entries of the history have been undone.
    pub undone: usize,
}

/// A stage as values.
pub enum StageV {
    Inspecting,
    Checking(Seq<u8>),
    Asking(Seq<u8>),
    MovingAside(Seq<u8>, Seq<u8>),
    Transferring(Seq<u8>),
    Undoing,
    Done,
}

/// An action as values.
pub enum ActionV {
    Inspect(Seq<u8>),
    CheckTarget(Seq<u8>),
    Ask(Seq<u8>),
    Copy(Seq<u8>, Seq<u8>),
    Move(Seq<u8>, Seq<u8>),
    Remove(Seq<u8>),
    Finish,
}

/// A file and where it went, as values.
pub type OutV = (Seq<u8>, Option<Seq<u8>>);

/// A run as values: the file worked on, its stage and invalid answers, the
/// history, the outcomes, the failures, and how much was undone.
pub struct RunV {
    pub index: int,
    pub stage: StageV,
    pub invalid: int,
    pub history: Seq<OutV>,
    pub outcomes: Seq<OutV>,
    pub errors: Seq<Failure>,
    pub undone: int,
}

impl View for Stage {
    type V = StageV;

    open spec fn view(&self) -> StageV {
        match self {
            Stage::Inspecting => StageV::Inspecting,
            Stage::Checking(t) => StageV::Checking(t@),
            Stage::Asking(t) => StageV::Asking(t@),
            Stage::MovingAside(t, a) => StageV::MovingAside(t@, a@),
            Stage::Transferring(t) => StageV::Transferring(t@),
            Stage::Undoing => StageV::Undoing,
            Stage::Done => StageV::Done,
        }
    }
}

impl View for Action {
    type V = ActionV;

    open spec fn view(&self) -> ActionV {
        match self {
            Action::Inspect(p) => ActionV::Inspect(p@),
            Action::CheckTarget(p) => ActionV::CheckTarget(p@),
            Action::Ask(p) => ActionV::Ask(p@),
            Action::Copy { from, to } => ActionV::Copy(from@, to@),
            Action::Move { from, to } => ActionV::Move(from@, to@),
            Action::Remove(p) => ActionV::Remove(p@),
            Action::Finish => ActionV::Finish,
        }
    }
}

/// The values of a list of outcomes.
pub open spec fn outs_view(v: Seq<RenameOut>) -> Seq<OutV> {
    v.map_values(|o: RenameOut| o@)
}

impl View for BatchRun {
    type V = RunV;

    open spec fn view(&self) -> RunV {
        RunV {
            index: self.index as int,
            stage: self.stage@,
            invalid: self.invalid_answers as int,
            history: outs_view(self.history@),
            outcomes: outs_view(self.outcomes@),
            errors: self.errors@,
            undone: self.undone as int,
        }
    }
}

/// The run placed at file `index`, fresh: inspecting it, or done when there
/// is no such file.
pub open spec fn fresh(cfg: Rename, s: RunV, index: int) -> RunV {
    RunV {
        index,
        stage: if index < cfg.files.len() {
            StageV::Inspecting
        } else {
            StageV::Done
        },
        invalid: 0,
        ..s
    }
}

/// The first state of a batch.
pub open spec fn initial(cfg: Rename) -> RunV {
    fresh(
        cfg,
        RunV {
            index: 0,
            stage: StageV::Done,
            invalid: 0,
            history: Seq::empty(),
            outcomes: Seq::empty(),
            errors: Seq::empty(),
            undone: 0,
        },
        0,
    )
}

/// The current file is over with this outcome; on to the next.
pub open spec fn finished_file(cfg: Rename, s: RunV, out: Option<Seq<u8>>) -> RunV {
    fresh(
        cfg,
        RunV { outcomes: s.outcomes.push((cfg.files[s.index]@, out)), ..s },
        s.index + 1,
    )
}

/// The current file failed: in a fragile batch that ends it, after undoing
/// what the history holds; otherwise on to the next.
pub open spec fn failed(cfg: Rename, s: RunV, e: BatchError) -> RunV {
    let s1 = RunV { errors: s.errors.push(Failure { index: s.index as usize, error: e }), ..s };
    if cfg.fragile {
        RunV {
            stage: if cfg.undo_on_err && s.history.len() > 0 {
                StageV::Undoing
            } else {
                StageV::Done
            },
            undone: 0,
            ..s1
        }
    } else {
        fresh(cfg, s1, s.index + 1)
    }
}

/// The current file goes to `t`: in a dry run that is only recorded.
pub open spec fn proceeded(cfg: Rename, s: RunV, t: Seq<u8>) -> RunV {
    if cfg.dry {
        finished_file(cfg, s, Some(t))
    } else {
        RunV { stage: StageV::Transferring(t), ..s }
    }
}

/// The state after the operator answered `d` about the taken target `t`.
pub open spec fn answered(cfg: Rename, s: RunV, t: Seq<u8>, d: ConflictDecision) -> RunV {
    match d {
        ConflictDecision::Overwrite => proceeded(cfg, s, t),
        ConflictDecision::Skip => finished_file(cfg, s, None),
        ConflictDecision::Abort => failed(cfg, s, BatchError::Resolve(ResolveError::Aborted)),
        ConflictDecision::Invalid => if s.invalid >= ANSWER_LIMIT {
            failed(cfg, s, BatchError::Resolve(ResolveError::InputExhausted))
        } else {
            RunV { invalid: s.invalid + 1, ..s }
        },
        ConflictDecision::RenameNew(n) => match parent_of(t) {
            None => failed(cfg, s, BatchError::Resolve(ResolveError::NoParent)),
            Some(dir) => RunV { stage: StageV::Checking(joined(dir, n@)), ..s },
        },
        ConflictDecision::PrefixNew(p) => match parent_of(t) {
            None => failed(cfg, s, BatchError::Resolve(ResolveError::NoParent)),
            Some(dir) => RunV {
                stage: StageV::Checking(joined(dir, p@ + last_component(t))),
                ..s
            },
        },
        ConflictDecision::RenameOriginal(n) => match parent_of(t) {
            None => failed(cfg, s, BatchError::Resolve(ResolveError::NoParent)),
            Some(dir) => RunV { stage: StageV::MovingAside(t, joined(dir, n@)), ..s },
        },
        ConflictDecision::PrefixOriginal(p) => match parent_of(t) {
            None => failed(cfg, s, BatchError::Resolve(ResolveError::NoParent)),
            Some(dir) => RunV {
                stage: StageV::MovingAside(t, joined(dir, p@ + last_component(t))),
                ..s
            },
        },
    }
}

/// The state after event `e`. An event that does not answer the pending
/// action changes nothing.
pub open spec fn next(cfg: Rename, s: RunV, e: Event) -> RunV {
    match s.stage {
        StageV::Inspecting => match e {
            Event::Inspected { exists, is_dir } => match planned(
                cfg,
                cfg.files[s.index]@,
                exists,
                is_dir,
            ) {
                Err(pe) => failed(cfg, s, BatchError::Plan(pe)),
                Ok(None) => finished_file(cfg, s, None),
                Ok(Some(t)) => RunV { stage: StageV::Checking(t), ..s },
            },
            _ => s,
        },
        StageV::Checking(t) => match e {
            Event::TargetExists(taken) => if !taken {
                proceeded(cfg, s, t)
            } else {
                match cfg.on_conflict {
                    OnConflict::Overwrite => proceeded(cfg, s, t),
                    OnConflict::Skip => finished_file(cfg, s, None),
                    OnConflict::Ask => RunV { stage: StageV::Asking(t), ..s },
                }
            },
            _ => s,
        },
        StageV::Asking(t) => match e {
            Event::Answer(d) => answered(cfg, s, t, d),
            _ => s,
        },
        StageV::MovingAside(t, _) => match e {
            Event::OpDone(ok) => if ok {
                RunV { stage: StageV::Checking(t), ..s }
            } else {
                failed(cfg, s, BatchError::Exec(ExecError::FsOp))
            },
            _ => s,
        },
        StageV::Transferring(t) => match e {
            Event::OpDone(ok) => if ok {
                let s1 = if cfg.undo_on_err {
                    RunV { history: s.history.push((cfg.files[s.index]@, Some(t))), ..s }
                } else {
                    s
                };
                finished_file(cfg, s1, Some(t))
            } else {
                failed(cfg, s, BatchError::Exec(ExecError::FsOp))
            },
            _ => s,
        },
        StageV::Undoing => match e {
            Event::OpDone(_) => RunV {
                stage: if s.undone + 1 >= s.history.len() {
                    StageV::Done
                } else {
                    StageV::Undoing
                },
                undone: s.undone + 1,
                ..s
            },
            _ => s,
        },
        StageV::Done => s,
    }
}

/// What undoes a history entry: removing the copy, or moving the file back.
pub open spec fn undo_action(cfg: Rename, h: OutV) -> ActionV {
    if cfg.copy {
        ActionV::Remove(h.1->Some_0)
    } else {
        ActionV::Move(h.1->Some_0, h.0)
    }
}

/// The action that the state `s` waits on.
pub open spec fn pending(cfg: Rename, s: RunV) -> ActionV {
    match s.stage {
        StageV::Inspecting => ActionV::Inspect(cfg.files[s.index]@),
        StageV::Checking(t) => ActionV::CheckTarget(t),
        StageV::Asking(t) => ActionV::Ask(t),
        StageV::MovingAside(t, a) => ActionV::Move(t, a),
        StageV::Transferring(t) => if cfg.copy {
            ActionV::Copy(cfg.files[s.index]@, t)
        } else {
            ActionV::Move(cfg.files[s.index]@, t)
        },
        StageV::Undoing => undo_action(cfg, s.history[s.history.len() - 1 - s.undone]),
        StageV::Done => ActionV::Finish,
    }
}

/// The state is one that a batch over `cfg` can reach.
pub open spec fn well_formed(cfg: Rename, s: RunV) -> bool {
    &&& 0 <= s.index <= cfg.files.len()
    &&& 0 <= s.invalid <= ANSWER_LIMIT
    &&& 0 <= s.undone
    &&& !(s.stage is Done || s.stage is Undoing) ==> s.index < cfg.files.len()
    &&& s.stage is Undoing ==> s.undone < s.history.len()
    &&& forall|m: int| 0 <= m < s.history.len() ==> (#[trigger] s.history[m]).1 is Some
}

/// Every step keeps a reachable state reachable.
pub proof fn lemma_next_well_formed(cfg: Rename, s: RunV, e: Event)
    requires
        well_formed(cfg, s),
    ensures
        well_formed(cfg, next(cfg, s, e)),
{
    let s2 = next(cfg, s, e);
    if s.stage is Transferring && e is OpDone && cfg.undo_on_err {
        let t = s.stage->Transferring_0;
        let h = s.history.push((cfg.files[s.index]@, Some(t)));
        assert forall|m: int| 0 <= m < h.len() implies (#[trigger] h[m]).1 is Some by {
            if m < s.history.len() {
                assert(h[m] == s.history[m]);
            }
        }
    }
}

/// With the `Skip` policy, a taken target ends the file at once: it is
/// recorded as skipped, nothing is undone or kept, and the next action only
/// inspects the next file or ends the batch, so nothing on disk changes for it.
pub proof fn lemma_skip_policy(cfg: Rename, s: RunV, t: Seq<u8>)
    requires
        well_formed(cfg, s),
        s.stage == StageV::Checking(t),
        cfg.on_conflict == OnConflict::Skip,
    ensures
        ({
            let s2 = next(cfg, s, Event::TargetExists(true));
            &&& s2.outcomes == s.outcomes.push((cfg.files[s.index]@, None::<Seq<u8>>))
            &&& s2.history == s.history
            &&& s2.errors == s.errors
            &&& s2.index == s.index + 1
            &&& (pending(cfg, s2) is Inspect || pending(cfg, s2) is Finish)
        }),
{
}

/// With the `Overwrite` policy, a taken target is written over: the file is
/// copied onto it (the original stays) or moved onto it (the original goes),
/// and once that succeeded the file is recorded as gone there.
pub proof fn lemma_overwrite_policy(cfg: Rename, s: RunV, t: Seq<u8>)
    requires
        well_formed(cfg, s),
        s.stage == StageV::Checking(t),
        cfg.on_conflict == OnConflict::Overwrite,
        !cfg.dry,
    ensures
        ({
            let f = cfg.files[s.index]@;
            let s2 = next(cfg, s, Event::TargetExists(true));
            let s3 = next(cfg, s2, Event::OpDone(true));
            &&& pending(cfg, s2) == if cfg.copy {
                ActionV::Copy(f, t)
            } else {
                ActionV::Move(f, t)
            }
            &&& s3.outcomes == s.outcomes.push((f, Some(t)))
            &&& s3.index == s.index + 1
        }),
{
}

/// The history grows only when a transfer succeeded in a run that undoes on
/// error, and then by that file and its target.
pub proof fn lemma_history_records_transfers(cfg: Rename, s: RunV, e: Event)
    requires
        well_formed(cfg, s),
    ensures
        next(cfg, s, e).history == if s.stage is Transferring && e == Event::OpDone(true)
            && cfg.undo_on_err {
            s.history.push((cfg.files[s.index]@, Some(s.stage->Transferring_0)))
        } else {
            s.history
        },
{
}

/// The state after undo steps, each reported with the result in `oks`.
pub open spec fn after_undo_steps(cfg: Rename, s: RunV, oks: Seq<bool>) -> RunV
    decreases oks.len(),
{
    if oks.len() == 0 {
        s
    } else {
        next(cfg, after_undo_steps(cfg, s, oks.drop_last()), Event::OpDone(oks.last()))
    }
}

proof fn lemma_undo_steps(cfg: Rename, f: RunV, oks: Seq<bool>)
    requires
        f.stage is Undoing,
        f.undone == 0,
        0 < f.history.len(),
        oks.len() <= f.history.len(),
    ensures
        after_undo_steps(cfg, f, oks) == (RunV {
            stage: if oks.len() < f.history.len() {
                StageV::Undoing
            } else {
                StageV::Done
            },
            undone: oks.len() as int,
            ..f
        }),
    decreases oks.len(),
{
    if oks.len() > 0 {
        lemma_undo_steps(cfg, f, oks.drop_last());
    }
}

/// Rollback: when a file fails in a fragile batch that undoes on error, the
/// batch attempts no further file. Whatever the undo steps report, each next
/// action undoes one history entry, the latest first (removing a copy, or
/// moving a file back to where it was), and after the last one the batch ends;
/// the history, the outcomes and the error that stopped it stay as they are.
pub proof fn lemma_rollback(cfg: Rename, s: RunV, e: BatchError, oks: Seq<bool>)
    requires
        well_formed(cfg, s),
        cfg.fragile,
        cfg.undo_on_err,
        oks.len() <= s.history.len(),
    ensures
        ({
            let u = after_undo_steps(cfg, failed(cfg, s, e), oks);
            &&& u.history == s.history
            &&& u.outcomes == s.outcomes
            &&& u.errors == s.errors.push(Failure { index: s.index as usize, error: e })
            &&& u.index == s.index
            &&& oks.len() < s.history.len() ==> pending(cfg, u) == undo_action(
                cfg,
                s.history[s.history.len() - 1 - oks.len()],
            )
            &&& oks.len() == s.history.len() ==> pending(cfg, u) == ActionV::Finish
        }),
{
    let f = failed(cfg, s, e);
    if s.history.len() > 0 {
        lemma_undo_steps(cfg, f, oks);
    } else {
        assert(oks.len() == 0);
    }
}

impl BatchRun {
    /// The run is in a state that a batch over `cfg` can reach.
    pub open spec fn wf(&self, cfg: &Rename) -> bool {
        well_formed(*cfg, self@)
    }

    /// The run placed at file `index`, fresh.
    fn at_file(self, cfg: &Rename, index: usize) -> (r: Self)
        requires
            index <= cfg.files@.len(),
        ensures
            r@ == fresh(*cfg, self@, index as int),
    {
        let stage = if index < cfg.files.len() {
            Stage::Inspecting
        } else {
            Stage::Done
        };
        BatchRun {
            index,
            stage,
            invalid_answers: 0,
            history: self.history,
            outcomes: self.outcomes,
            errors: self.errors,
            undone: self.undone,
        }
    }

    /// Records the current file's outcome and moves on.
    fn finish_file(self, cfg: &Rename, out: Option<Vec<u8>>) -> (r: Self)
        requires
            self.index < cfg.files@.len(),
        ensures
            r@ == finished_file(*cfg, self@, opt_bytes(out)),
    {
        let mut s = self;
        let original = copy_bytes(cfg.files[s.index].as_slice());
        let ghost before = s.outcomes@;
        let entry = RenameOut { original, new_path: out };
        assert(entry@ == (cfg.files@[self.index as int]@, opt_bytes(out)));
        s.outcomes.push(entry);
        assert(outs_view(s.outcomes@) =~= outs_view(before).push(entry@));
        let i = s.index + 1;
        s.at_file(cfg, i)
    }

    /// Records the failure of the current file and moves on or stops.
    fn fail(self, cfg: &Rename, e: BatchError) -> (r: Self)
        requires
            self.index < cfg.files@.len(),
        ensures
            r@ == failed(*cfg, self@, e),
    {
        let mut s = self;
        s.errors.push(Failure { index: s.index, error: e });
        if cfg.fragile {
            s.stage = if cfg.undo_on_err && s.history.len() > 0 {
                Stage::Undoing
            } else {
                Stage::Done
            };
            s.undone = 0;
            s
        } else {
            let i = s.index + 1;
            s.at_file(cfg, i)
        }
    }

    /// Sends the current file to `t`, or records that it would go there.
    fn proceed(self, cfg: &Rename, t: Vec<u8>) -> (r: Self)
        requires
            self.index < cfg.files@.len(),
        ensures
            r@ == proceeded(*cfg, self@, t@),
    {
        if cfg.dry {
            self.finish_file(cfg, Some(t))
        } else {
            let mut s = self;
            s.stage = Stage::Transferring(t);
            s
        }
    }

    /// Moves to another stage and keeps the rest.
    fn with_stage(self, stage: Stage) -> (r: Self)
        ensures
            r@ == (RunV { stage: stage@, ..self@ }),
    {
        let mut s = self;
        s.stage = stage;
        s
    }

    /// The state after the operator answered `d` about the taken target `t`.
    fn answer(self, cfg: &Rename, t: Vec<u8>, d: ConflictDecision) -> (r: Self)
        requires
            self.index < cfg.files@.len(),
        ensures
            r@ == answered(*cfg, self@, t@, d),
    {
        match d {
            ConflictDecision::Overwrite => self.proceed(cfg, t),
            ConflictDecision::Skip => self.finish_file(cfg, None),
            ConflictDecision::Abort => self.fail(cfg, BatchError::Resolve(ResolveError::Aborted)),
            ConflictDecision::Invalid => {
                if self.invalid_answers >= ANSWER_LIMIT {
                    self.fail(cfg, BatchError::Resolve(ResolveError::InputExhausted))
                } else {
                    let mut s = self;
                    s.invalid_answers = s.invalid_answers + 1;
                    s
                }
            },
            ConflictDecision::RenameNew(n) => match parent(t.as_slice()) {
                None => self.fail(cfg, BatchError::Resolve(ResolveError::NoParent)),
                Some(dir) => self.with_stage(Stage::Checking(join(dir.as_slice(), n.as_slice()))),
            },
            ConflictDecision::PrefixNew(p) => match parent(t.as_slice()) {
                None => self.fail(cfg, BatchError::Resolve(ResolveError::NoParent)),
                Some(dir) => {
                    let mut name = copy_bytes(p.as_slice());
                    push_bytes(&mut name, last_name(t.as_slice()).as_slice());
                    self.with_stage(Stage::Checking(join(dir.as_slice(), name.as_slice())))
                },
            },
            ConflictDecision::RenameOriginal(n) => match parent(t.as_slice()) {
                None => self.fail(cfg, BatchError::Resolve(ResolveError::NoParent)),
                Some(dir) => {
                    let aside = join(dir.as_slice(), n.as_slice());
                    self.with_stage(Stage::MovingAside(t, aside))
                },
            },
            ConflictDecision::PrefixOriginal(p) => match parent(t.as_slice()) {
                None => self.fail(cfg, BatchError::Resolve(ResolveError::NoParent)),
                Some(dir) => {
                    let mut name = copy_bytes(p.as_slice());
                    push_bytes(&mut name, last_name(t.as_slice()).as_slice());
                    let aside = join(dir.as_slice(), name.as_slice());
                    self.with_stage(Stage::MovingAside(t, aside))
                },
            },
        }
    }

    /// The state after event `e`.
    fn transition(self, cfg: &Rename, e: Event) -> (r: Self)
        requires
            self.wf(cfg),
        ensures
            r@ == next(*cfg, self@, e),
    {
        match (&self.stage, e) {
            (Stage::Inspecting, Event::Inspected { exists, is_dir }) => {
                match cfg.get_new_path(cfg.files[self.index].as_slice(), exists, is_dir) {
                    Err(pe) => self.fail(cfg, BatchError::Plan(pe)),
                    Ok(None) => self.finish_file(cfg, None),
                    Ok(Some(t)) => self.with_stage(Stage::Checking(t)),
                }
            },
            (Stage::Checking(t), Event::TargetExists(taken)) => {
                let t = copy_bytes(t.as_slice());
                if !taken {
                    self.proceed(cfg, t)
                } else {
                    match cfg.on_conflict {
                        OnConflict::Overwrite => self.proceed(cfg, t),
                        OnConflict::Skip => self.finish_file(cfg, None),
                        OnConflict::Ask => self.with_stage(Stage::Asking(t)),
                    }
                }
            },
            (Stage::Asking(t), Event::Answer(d)) => {
                let t = copy_bytes(t.as_slice());
                self.answer(cfg, t, d)
            },
            (Stage::MovingAside(t, _), Event::OpDone(ok)) => {
                let t = copy_bytes(t.as_slice());
                if ok {
                    self.with_stage(Stage::Checking(t))
                } else {
                    self.fail(cfg, BatchError::Exec(ExecError::FsOp))
                }
            },
            (Stage::Transferring(t), Event::OpDone(ok)) => {
                let t = copy_bytes(t.as_slice());
                if ok {
                    let mut s = self;
                    if cfg.undo_on_err {
                        let original = copy_bytes(cfg.files[s.index].as_slice());
                        let kept = copy_bytes(t.as_slice());
                        let ghost before = s.history@;
                        let entry = RenameOut { original, new_path: Some(kept) };
                        s.history.push(entry);
                        assert(outs_view(s.history@) =~= outs_view(before).push(entry@));
                    }
                    s.finish_file(cfg, Some(t))
                } else {
                    self.fail(cfg, BatchError::Exec(ExecError::FsOp))
                }
            },
            (Stage::Undoing, Event::OpDone(_)) => {
                let n = self.history.len();
                assert(self.undone < outs_view(self.history@).len());
                assert(self.undone < n);
                let mut s = self;
                s.undone = s.undone + 1;
                if s.undone >= n {
                    s.stage = Stage::Done;
                }
                s
            },
            _ => self,
        }
    }

    /// The action this run waits on.
    pub fn pending(&self, cfg: &Rename) -> (r: Action)
        requires
            self.wf(cfg),
        ensures
            r@ == pending(*cfg, self@),
    {
        match &self.stage {
            Stage::Inspecting => Action::Inspect(copy_bytes(cfg.files[self.index].as_slice())),
            Stage::Checking(t) => Action::CheckTarget(copy_bytes(t.as_slice())),
            Stage::Asking(t) => Action::Ask(copy_bytes(t.as_slice())),
            Stage::MovingAside(t, a) => Action::Move {
                from: copy_bytes(t.as_slice()),
                to: copy_bytes(a.as_slice()),
            },
            Stage::Transferring(t) => {
                let from = copy_bytes(cfg.files[self.index].as_slice());
                let to = copy_bytes(t.as_slice());
                if cfg.copy {
                    Action::Copy { from, to }
                } else {
                    Action::Move { from, to }
                }
            },
            Stage::Undoing => {
                let h = &self.history[self.history.len() - 1 - self.undone];
                assert(outs_view(self.history@)[self.history@.len() - 1 - self.undone] == h@);
                match &h.new_path {
                    Some(p) => {
                        if cfg.copy {
                            Action::Remove(copy_bytes(p.as_slice()))
                        } else {
                            Action::Move {
                                from: copy_bytes(p.as_slice()),
                                to: copy_bytes(h.original.as_slice()),
                            }
                        }
                    },
                    None => Action::Finish,
                }
            },
            Stage::Done => Action::Finish,
        }
    }

    /// A batch over `cfg` at its start, and its first action.
    pub fn start(cfg: &Rename) -> (r: (BatchRun, Action))
        ensures
            r.0@ == initial(*cfg),
            r.0.wf(cfg),
            r.1@ == pending(*cfg, r.0@),
    {
        let s = BatchRun {
            index: 0,
            stage: Stage::Done,
            invalid_answers: 0,
            history: Vec::new(),
            outcomes: Vec::new(),
            errors: Vec::new(),
            undone: 0,
        };
        assert(outs_view(Seq::<RenameOut>::empty()) =~= Seq::<OutV>::empty());
        let s = s.at_file(cfg, 0);
        let a = s.pending(cfg);
        (s, a)
    }

    /// Hands the run what came of its pending action; returns the next state
    /// and the action it waits on.
    pub fn step(self, cfg: &Rename, e: Event) -> (r: (BatchRun, Action))
        requires
            self.wf(cfg),
        ensures
            r.0@ == next(*cfg, self@, e),
            r.0.wf(cfg),
            r.1@ == pending(*cfg, r.0@),
    {
        proof {
            lemma_next_well_formed(*cfg, self@, e);
        }
        let s = self.transition(cfg, e);
        let a = s.pending(cfg);
        (s, a)
    }

    /// Whether the batch is over.
    pub fn is_done(&self) -> (r: bool)
        ensures
            r == (self@.stage is Done),
    {
        matches!(self.stage, Stage::Done)
    }
}

} // verus!
