use renameplus::{
    parse_replace, ArgError, Config, ConfigError, PlanError, Rename, ReplaceSet, ReplaceSetData,
};

fn b(s: &str) -> Vec<u8> {
    s.as_bytes().to_vec()
}

fn with_no_whitespace_set() -> Rename {
    let mut r = Rename::default();
    r.config.sets = r.config.builtin_sets();
    r
}

#[test]
fn empty_config_keeps_stem() {
    let r = Rename::default();
    for stem in ["My File", "a", "x.y", "ünï cödé"] {
        assert_eq!(r.compute_name(stem.as_bytes()).unwrap(), b(stem));
    }
}

#[test]
fn prefix_and_suffix_surround_stem() {
    let mut r = Rename::default();
    r.prefix = Some("pre_".to_string());
    r.suffix = Some("_post".to_string());
    assert_eq!(r.compute_name(b"stem").unwrap(), b("pre_stem_post"));
}

#[test]
fn prefix_suffix_scenario_keeps_extension() {
    let mut r = Rename::default();
    r.prefix = Some("pre_".to_string());
    r.suffix = Some("_post".to_string());
    assert_eq!(r.compute_name(b"My File").unwrap(), b("pre_My File_post"));
    let target = r.get_new_path(b"dir/My File.txt", true, false).unwrap();
    assert_eq!(target, Some(b("dir/pre_My File_post.txt")));
}

#[test]
fn direct_pair_replaces_every_space() {
    let mut r = Rename::default();
    r.push_replace(" ".to_string(), "_".to_string());
    assert_eq!(r.compute_name(b"a b c").unwrap(), b("a_b_c"));
}

#[test]
fn rule_set_by_name_replaces_every_space() {
    let mut r = with_no_whitespace_set();
    r.replace_sets.push("no_whitespace".to_string());
    assert_eq!(r.compute_name(b"a b c").unwrap(), b("a_b_c"));
}

#[test]
fn missing_rule_set_is_an_error() {
    let mut r = with_no_whitespace_set();
    r.replace_sets.push("no_whitespace".to_string());
    r.replace_sets.push("nope".to_string());
    r.replace_sets.push("other".to_string());
    match r.compute_name(b"a b") {
        Err(ConfigError::SetNotFound(n)) => assert_eq!(n, "nope"),
        other => panic!("unexpected {:?}", other),
    }
    match r.validate_sets() {
        Err(ConfigError::SetNotFound(n)) => assert_eq!(n, "nope"),
        other => panic!("unexpected {:?}", other),
    }
    match r.get_new_path(b"a b.txt", true, false) {
        Err(PlanError::Config(ConfigError::SetNotFound(n))) => assert_eq!(n, "nope"),
        other => panic!("unexpected {:?}", other),
    }
}

#[test]
fn order_is_decorate_then_pairs_then_sets() {
    let mut r = with_no_whitespace_set();
    r.prefix = Some("a ".to_string());
    r.push_replace("a".to_string(), "b".to_string());
    r.replace_sets.push("no_whitespace".to_string());
    // the prefix is in place before the pair replaces, and the set replaces last
    assert_eq!(r.compute_name(b"x a").unwrap(), b("b_x_b"));
}

#[test]
fn later_pairs_see_earlier_replacements() {
    let mut r = Rename::default();
    r.push_replace("a".to_string(), "b".to_string());
    r.push_replace("b".to_string(), "c".to_string());
    assert_eq!(r.compute_name(b"ab").unwrap(), b("cc"));
}

#[test]
fn replacement_does_not_overlap() {
    let mut r = Rename::default();
    r.push_replace("aa".to_string(), "b".to_string());
    assert_eq!(r.compute_name(b"aaa").unwrap(), b("ba"));
}

#[test]
fn empty_search_matches_everywhere() {
    let mut r = Rename::default();
    r.push_replace("".to_string(), "Z".to_string());
    assert_eq!(r.compute_name(b"foo").unwrap(), b("ZfZoZoZ"));
    let mut e = Rename::default();
    e.push_replace("".to_string(), "".to_string());
    assert_eq!(e.compute_name(b"foo").unwrap(), b("foo"));
}

#[test]
fn user_set_replaces_each_term() {
    let mut r = Rename::default();
    r.config.insert_set(ReplaceSetData {
        set: ReplaceSet {
            description: "dashes".to_string(),
            name: "dashes".to_string(),
            replace: "-".to_string(),
            search: vec![" ".to_string(), "_".to_string()],
        },
        used: None,
        editable: true,
    });
    r.replace_sets.push("dashes".to_string());
    assert_eq!(r.compute_name(b"a b_c").unwrap(), b("a-b-c"));
}

#[test]
fn extension_is_kept_whatever_the_rules() {
    let mut r = Rename::default();
    r.push_replace("t".to_string(), "".to_string());
    r.push_replace(".".to_string(), "!".to_string());
    r.suffix = Some(".bak".to_string());
    assert_eq!(
        r.get_new_path(b"notes.v2.txt", true, false).unwrap(),
        Some(b("noes!v2!bak.txt"))
    );
}

#[test]
fn planning_twice_gives_the_same_path() {
    let mut r = with_no_whitespace_set();
    r.prefix = Some("p ".to_string());
    r.replace_sets.push("no_whitespace".to_string());
    let first = r.get_new_path(b"/tmp/some file.md", true, false).unwrap();
    let second = r.get_new_path(b"/tmp/some file.md", true, false).unwrap();
    assert_eq!(first, second);
    assert_eq!(first, Some(b("/tmp/p_some_file.md")));
}

#[test]
fn missing_file_is_not_planned() {
    let r = Rename::default();
    assert!(matches!(r.get_new_path(b"gone.txt", false, false), Err(PlanError::NotFound)));
}

#[test]
fn directories_are_skipped_unless_allowed() {
    let mut r = Rename::default();
    r.prefix = Some("x_".to_string());
    assert_eq!(r.get_new_path(b"a/dir.d", true, true).unwrap(), None);
    assert_eq!(r.get_new_path(b"a/..", true, true).unwrap(), None);
    r.dirs = true;
    assert_eq!(r.get_new_path(b"a/dir.d", true, true).unwrap(), Some(b("a/x_dir.d")));
    assert_eq!(r.get_new_path(b"a/dir.d/", true, true).unwrap(), Some(b("a/x_dir.d")));
    assert!(matches!(r.get_new_path(b"a/..", true, true), Err(PlanError::NoFileName)));
    assert!(matches!(r.get_new_path(b"/", true, true), Err(PlanError::NoFileName)));
}

#[test]
fn output_dir_replaces_parent() {
    let mut r = Rename::default();
    r.output_dir = Some(b("/out"));
    assert_eq!(r.get_new_path(b"a/b/c.txt", true, false).unwrap(), Some(b("/out/c.txt")));
    assert!(r.verify_output_dir(true).is_ok());
    assert!(matches!(r.verify_output_dir(false), Err(PlanError::NotFound)));
    let plain = Rename::default();
    assert!(plain.verify_output_dir(false).is_ok());
}

#[test]
fn file_without_directory_stays_in_place() {
    let mut r = Rename::default();
    r.suffix = Some("2".to_string());
    assert_eq!(r.get_new_path(b"c.txt", true, false).unwrap(), Some(b("c2.txt")));
    assert_eq!(r.get_new_path(b".bashrc", true, false).unwrap(), Some(b(".bashrc2")));
}

#[test]
fn undo_implies_fragile() {
    let mut r = Rename::default();
    r.set_undo_on_err(true);
    assert!(r.undo_on_err && r.fragile);
    let mut s = Rename::default();
    s.set_undo_on_err(false);
    assert!(!s.undo_on_err && !s.fragile);
}

#[test]
fn replace_argument_splits_at_slash() {
    assert_eq!(parse_replace("a/b").unwrap(), ("a".to_string(), "b".to_string()));
    assert_eq!(parse_replace("abc").unwrap(), ("abc".to_string(), "".to_string()));
    assert_eq!(parse_replace("/x").unwrap(), ("".to_string(), "x".to_string()));
    assert_eq!(parse_replace("x/").unwrap(), ("x".to_string(), "".to_string()));
    match parse_replace("a/b/c") {
        Err(ArgError::TooManySeparators(s)) => assert_eq!(s, "a/b/c"),
        other => panic!("unexpected {:?}", other),
    }
}

#[test]
fn config_default_is_empty() {
    let c = Config::default();
    assert!(c.sets.is_empty());
    assert!(c.default_sets.is_none());
}

#[test]
fn preview_lists_planned_files() {
    let mut r = Rename::default();
    r.prefix = Some("n_".to_string());
    r.files = vec![b("d/a.txt"), b("d/gone.txt"), b("d/sub")];
    let facts = vec![(true, false), (false, false), (true, true)];
    let p = r.preview(&facts);
    assert_eq!(p, vec![(b("d/a.txt"), Some(b("d/n_a.txt"))), (b("d/sub"), None)]);
}

#[test]
fn changes_need_some_text() {
    let mut r = Rename::default();
    assert!(!r.any_changes());
    r.prefix = Some(String::new());
    r.push_replace(String::new(), "x".to_string());
    assert!(!r.any_changes());
    r.push_replace("a".to_string(), String::new());
    assert!(r.any_changes());
    let mut s = Rename::default();
    s.suffix = Some("_1".to_string());
    assert!(s.any_changes());
}
