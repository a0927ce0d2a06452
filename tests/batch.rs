use renameplus::{
    parse_choice, Action, BatchError, BatchRun, ConflictChoice, ConflictDecision, Event, ExecError,
    OnConflict, PlanError, Rename, ResolveError, ANSWER_LIMIT,
};

fn b(s: &str) -> Vec<u8> {
    s.as_bytes().to_vec()
}

/// A file system of paths, some of them directories, where moving or copying
/// from a path listed in `failing` fails.
struct Disk {
    files: Vec<Vec<u8>>,
    dirs: Vec<Vec<u8>>,
    failing: Vec<Vec<u8>>,
}

impl Disk {
    fn new(files: &[&str]) -> Disk {
        Disk { files: files.iter().map(|f| b(f)).collect(), dirs: vec![], failing: vec![] }
    }
    fn has(&self, p: &[u8]) -> bool {
        self.files.iter().any(|f| f.as_slice() == p) || self.dirs.iter().any(|d| d.as_slice() == p)
    }
    fn drop_path(&mut self, p: &[u8]) {
        self.files.retain(|f| f.as_slice() != p);
    }
    fn add(&mut self, p: Vec<u8>) {
        if !self.has(&p) {
            self.files.push(p);
        }
    }
}

/// Runs a batch to its end; returns the run and every action it asked for.
fn drive(cfg: &Rename, disk: &mut Disk, answers: &[ConflictDecision]) -> (BatchRun, Vec<Action>) {
    let (mut run, mut action) = BatchRun::start(cfg);
    let mut seen = vec![];
    let mut answers = answers.iter();
    for _ in 0..1000 {
        seen.push(action.clone());
        let event = match &action {
            Action::Finish => break,
            Action::Inspect(p) => Event::Inspected {
                exists: disk.has(p),
                is_dir: disk.dirs.iter().any(|d| d == p),
            },
            Action::CheckTarget(p) => Event::TargetExists(disk.has(p)),
            Action::Ask(_) => Event::Answer(answers.next().expect("an answer").clone()),
            Action::Copy { from, to } => {
                if disk.failing.contains(from) || !disk.has(from) {
                    Event::OpDone(false)
                } else {
                    disk.add(to.clone());
                    Event::OpDone(true)
                }
            }
            Action::Move { from, to } => {
                if disk.failing.contains(from) || !disk.has(from) {
                    Event::OpDone(false)
                } else {
                    disk.drop_path(from);
                    disk.add(to.clone());
                    Event::OpDone(true)
                }
            }
            Action::Remove(p) => {
                let there = disk.has(p);
                disk.drop_path(p);
                Event::OpDone(there)
            }
        };
        let (next, a) = run.step(cfg, event);
        run = next;
        action = a;
    }
    assert!(run.is_done());
    (run, seen)
}

fn prefixed(files: &[&str]) -> Rename {
    let mut r = Rename::default();
    r.prefix = Some("x_".to_string());
    r.files = files.iter().map(|f| b(f)).collect();
    r
}

fn is_mutation(a: &Action) -> bool {
    matches!(a, Action::Copy { .. } | Action::Move { .. } | Action::Remove(_))
}

#[test]
fn moves_each_file_in_order() {
    let cfg = prefixed(&["d/a.txt", "d/b.txt"]);
    let mut disk = Disk::new(&["d/a.txt", "d/b.txt"]);
    let (run, _) = drive(&cfg, &mut disk, &[]);
    assert!(run.errors.is_empty());
    let outs: Vec<_> = run.outcomes.iter().map(|o| (o.original.clone(), o.new_path.clone())).collect();
    assert_eq!(
        outs,
        vec![
            (b("d/a.txt"), Some(b("d/x_a.txt"))),
            (b("d/b.txt"), Some(b("d/x_b.txt"))),
        ]
    );
    assert_eq!(disk.files, vec![b("d/x_a.txt"), b("d/x_b.txt")]);
    assert!(run.history.is_empty());
}

#[test]
fn copy_keeps_the_source() {
    let mut cfg = prefixed(&["d/a.txt"]);
    cfg.copy = true;
    let mut disk = Disk::new(&["d/a.txt"]);
    let (_, seen) = drive(&cfg, &mut disk, &[]);
    assert!(seen.iter().any(|a| matches!(a, Action::Copy { from, to } if *from == b("d/a.txt") && *to == b("d/x_a.txt"))));
    assert_eq!(disk.files, vec![b("d/a.txt"), b("d/x_a.txt")]);
}

#[test]
fn dry_run_changes_nothing() {
    let mut cfg = prefixed(&["d/a.txt", "d/b.txt"]);
    cfg.dry = true;
    let mut disk = Disk::new(&["d/a.txt", "d/b.txt"]);
    let (run, seen) = drive(&cfg, &mut disk, &[]);
    assert!(!seen.iter().any(is_mutation));
    assert_eq!(disk.files, vec![b("d/a.txt"), b("d/b.txt")]);
    assert_eq!(run.outcomes[1].new_path, Some(b("d/x_b.txt")));
}

#[test]
fn skip_policy_leaves_taken_target_alone() {
    let mut cfg = prefixed(&["d/a.txt", "d/b.txt"]);
    cfg.on_conflict = OnConflict::Skip;
    let mut disk = Disk::new(&["d/a.txt", "d/b.txt", "d/x_a.txt"]);
    let (run, seen) = drive(&cfg, &mut disk, &[]);
    assert!(!seen.iter().any(|a| matches!(a, Action::Move { from, .. } if *from == b("d/a.txt"))));
    assert_eq!(run.outcomes[0].original, b("d/a.txt"));
    assert_eq!(run.outcomes[0].new_path, None);
    assert_eq!(run.outcomes[1].new_path, Some(b("d/x_b.txt")));
    assert!(disk.has(b"d/a.txt") && disk.has(b"d/x_a.txt"));
}

#[test]
fn overwrite_policy_moves_onto_taken_target() {
    let mut cfg = prefixed(&["d/a.txt"]);
    cfg.on_conflict = OnConflict::Overwrite;
    let mut disk = Disk::new(&["d/a.txt", "d/x_a.txt"]);
    let (run, seen) = drive(&cfg, &mut disk, &[]);
    assert!(seen.iter().any(|a| matches!(a, Action::Move { from, to } if *from == b("d/a.txt") && *to == b("d/x_a.txt"))));
    assert_eq!(run.outcomes[0].new_path, Some(b("d/x_a.txt")));
    assert!(!disk.has(b"d/a.txt") && disk.has(b"d/x_a.txt"));
}

#[test]
fn overwrite_policy_with_copy_keeps_original() {
    let mut cfg = prefixed(&["d/a.txt"]);
    cfg.on_conflict = OnConflict::Overwrite;
    cfg.copy = true;
    let mut disk = Disk::new(&["d/a.txt", "d/x_a.txt"]);
    let (_, seen) = drive(&cfg, &mut disk, &[]);
    assert!(seen.iter().any(|a| matches!(a, Action::Copy { from, to } if *from == b("d/a.txt") && *to == b("d/x_a.txt"))));
    assert!(disk.has(b"d/a.txt") && disk.has(b"d/x_a.txt"));
}

#[test]
fn rollback_restores_earlier_files_and_stops() {
    let mut cfg = prefixed(&["d/a", "d/b", "d/c", "d/e"]);
    cfg.set_undo_on_err(true);
    let mut disk = Disk::new(&["d/a", "d/b", "d/c", "d/e"]);
    disk.failing.push(b("d/c"));
    let (run, seen) = drive(&cfg, &mut disk, &[]);
    let tail: Vec<Action> = seen[seen.len() - 4..].to_vec();
    assert!(matches!(&tail[0], Action::Move { from, .. } if *from == b("d/c")));
    assert!(matches!(&tail[1], Action::Move { from, to } if *from == b("d/x_b") && *to == b("d/b")));
    assert!(matches!(&tail[2], Action::Move { from, to } if *from == b("d/x_a") && *to == b("d/a")));
    assert!(matches!(&tail[3], Action::Finish));
    assert!(!seen.iter().any(|a| matches!(a, Action::Inspect(p) if *p == b("d/e"))));
    assert_eq!(disk.files, vec![b("d/c"), b("d/e"), b("d/b"), b("d/a")]);
    assert_eq!(run.errors.len(), 1);
    assert_eq!(run.errors[0].index, 2);
    assert!(matches!(run.errors[0].error, BatchError::Exec(ExecError::FsOp)));
    assert_eq!(run.undone, 2);
}

#[test]
fn rollback_of_copies_removes_them() {
    let mut cfg = prefixed(&["d/a", "d/b", "d/c"]);
    cfg.copy = true;
    cfg.set_undo_on_err(true);
    let mut disk = Disk::new(&["d/a", "d/b", "d/c"]);
    disk.failing.push(b("d/b"));
    let (_, seen) = drive(&cfg, &mut disk, &[]);
    assert!(seen.iter().any(|a| matches!(a, Action::Remove(p) if *p == b("d/x_a"))));
    assert_eq!(disk.files, vec![b("d/a"), b("d/b"), b("d/c")]);
}

#[test]
fn fragile_without_undo_just_stops() {
    let mut cfg = prefixed(&["d/a", "d/gone", "d/c"]);
    cfg.fragile = true;
    let mut disk = Disk::new(&["d/a", "d/c"]);
    let (run, _) = drive(&cfg, &mut disk, &[]);
    assert!(matches!(run.errors[0].error, BatchError::Plan(PlanError::NotFound)));
    assert_eq!(disk.files, vec![b("d/c"), b("d/x_a")]);
}

#[test]
fn errors_are_logged_and_the_batch_goes_on() {
    let cfg = prefixed(&["d/gone", "d/a"]);
    let mut disk = Disk::new(&["d/a"]);
    let (run, _) = drive(&cfg, &mut disk, &[]);
    assert_eq!(run.errors.len(), 1);
    assert_eq!(run.errors[0].index, 0);
    assert_eq!(run.outcomes.len(), 1);
    assert_eq!(disk.files, vec![b("d/x_a")]);
}

#[test]
fn ask_then_skip_changes_nothing() {
    let mut cfg = prefixed(&["d/out.txt"]);
    cfg.prefix = None;
    cfg.output_dir = Some(b("o"));
    cfg.on_conflict = OnConflict::Ask;
    let mut disk = Disk::new(&["d/out.txt", "o/out.txt"]);
    let (run, seen) = drive(&cfg, &mut disk, &[ConflictDecision::Skip]);
    assert!(seen.iter().any(|a| matches!(a, Action::Ask(p) if *p == b("o/out.txt"))));
    assert!(!seen.iter().any(is_mutation));
    assert_eq!(run.outcomes[0].new_path, None);
    assert_eq!(disk.files, vec![b("d/out.txt"), b("o/out.txt")]);
}

#[test]
fn ask_rename_new_checks_again() {
    let mut cfg = prefixed(&["d/a"]);
    cfg.on_conflict = OnConflict::Ask;
    let mut disk = Disk::new(&["d/a", "d/x_a", "d/taken"]);
    let answers = [
        ConflictDecision::Invalid,
        ConflictDecision::RenameNew(b("taken")),
        ConflictDecision::PrefixNew(b("y_")),
    ];
    let (run, _) = drive(&cfg, &mut disk, &answers);
    assert_eq!(run.outcomes[0].new_path, Some(b("d/y_taken")));
    assert!(disk.has(b"d/y_taken") && !disk.has(b"d/a"));
}

#[test]
fn ask_rename_original_moves_it_aside() {
    let mut cfg = prefixed(&["d/a"]);
    cfg.on_conflict = OnConflict::Ask;
    let mut disk = Disk::new(&["d/a", "d/x_a"]);
    let (run, _) = drive(&cfg, &mut disk, &[ConflictDecision::PrefixOriginal(b("old_"))]);
    assert_eq!(run.outcomes[0].new_path, Some(b("d/x_a")));
    assert!(disk.has(b"d/old_x_a") && disk.has(b"d/x_a") && !disk.has(b"d/a"));
}

#[test]
fn ask_abort_fails_the_file() {
    let mut cfg = prefixed(&["d/a"]);
    cfg.on_conflict = OnConflict::Ask;
    let mut disk = Disk::new(&["d/a", "d/x_a"]);
    let (run, _) = drive(&cfg, &mut disk, &[ConflictDecision::Abort]);
    assert!(matches!(run.errors[0].error, BatchError::Resolve(ResolveError::Aborted)));
}

#[test]
fn too_many_invalid_answers_exhaust_input() {
    let mut cfg = prefixed(&["d/a"]);
    cfg.on_conflict = OnConflict::Ask;
    let mut disk = Disk::new(&["d/a", "d/x_a"]);
    let answers = vec![ConflictDecision::Invalid; ANSWER_LIMIT as usize + 1];
    let (run, _) = drive(&cfg, &mut disk, &answers);
    assert!(matches!(run.errors[0].error, BatchError::Resolve(ResolveError::InputExhausted)));
    assert!(disk.has(b"d/a"));
}

#[test]
fn empty_batch_finishes_at_once() {
    let cfg = Rename::default();
    let (run, action) = BatchRun::start(&cfg);
    assert!(matches!(action, Action::Finish));
    assert!(run.is_done());
}

#[test]
fn unexpected_event_repeats_the_action() {
    let cfg = prefixed(&["d/a"]);
    let (run, first) = BatchRun::start(&cfg);
    let (_, again) = run.step(&cfg, Event::OpDone(true));
    assert!(matches!((&first, &again), (Action::Inspect(p), Action::Inspect(q)) if p == q));
}

#[test]
fn prompt_letters_choose() {
    assert_eq!(parse_choice("o"), ConflictChoice::Overwrite);
    assert_eq!(parse_choice("s"), ConflictChoice::Skip);
    assert_eq!(parse_choice("r"), ConflictChoice::RenameNew);
    assert_eq!(parse_choice("R"), ConflictChoice::RenameOriginal);
    assert_eq!(parse_choice("p"), ConflictChoice::PrefixNew);
    assert_eq!(parse_choice("P"), ConflictChoice::PrefixOriginal);
    assert_eq!(parse_choice("a"), ConflictChoice::Abort);
    assert_eq!(parse_choice("x"), ConflictChoice::Invalid);
    assert_eq!(parse_choice("oo"), ConflictChoice::Invalid);
    assert_eq!(parse_choice(""), ConflictChoice::Invalid);
    assert!(ConflictChoice::RenameNew.needs_text());
    assert!(!ConflictChoice::Skip.needs_text());
    assert!(matches!(
        ConflictChoice::PrefixNew.decide(b("y_")),
        ConflictDecision::PrefixNew(p) if p == b("y_")
    ));
    assert!(matches!(ConflictChoice::Abort.decide(b("z")), ConflictDecision::Abort));
}

#[test]
fn renaming_into_a_target_without_directory_fails() {
    let mut cfg = Rename::default();
    cfg.files = vec![b("a")];
    cfg.push_replace("a".to_string(), "/".to_string());
    cfg.on_conflict = OnConflict::Ask;
    let mut disk = Disk::new(&["a", "/"]);
    let (run, seen) = drive(&cfg, &mut disk, &[ConflictDecision::RenameNew(b("b"))]);
    assert!(seen.iter().any(|a| matches!(a, Action::Ask(p) if *p == b("/"))));
    assert!(matches!(run.errors[0].error, BatchError::Resolve(ResolveError::NoParent)));
}
