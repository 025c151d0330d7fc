use by_env::env_attr::{Args, Env, Modifiers, Segment};
use by_env::naming::{handle_name, macro_name, macro_name_nonp};

fn seg(s: &str) -> Segment {
    Segment::bare(s.to_string())
}

fn path(p: &str) -> Vec<Segment> {
    p.split("::").map(seg).collect()
}

fn path_text(p: &[Segment]) -> String {
    p.iter()
        .map(|s| format!("{}{}", s.ident, s.arguments))
        .collect::<Vec<_>>()
        .join("::")
}

fn env(p: &str) -> Env {
    Env::from_segments(path(p))
}

fn args(text: &str) -> Args {
    let mut modifiers = vec![];
    let mut rest = text.trim();
    while let Some(after) = rest.strip_prefix('@') {
        let (word, tail) = after.split_once(' ').unwrap_or((after, ""));
        modifiers.push(Modifiers::from_keyword(&word.to_string()).expect("known modifier"));
        rest = tail.trim();
    }
    let envs = rest
        .split(',')
        .map(|p| p.trim())
        .filter(|p| !p.is_empty())
        .map(env)
        .collect();
    Args::new(modifiers, envs)
}

fn names(a: &Args) -> Vec<String> {
    a.envs.iter().map(|e| e.name.clone()).collect()
}

#[test]
fn env_args_local_paths_are_respected() {
    let e = env("Env::Local");
    assert_eq!(path_text(&e.env), "Env");
    assert_eq!(e.name, "Local");
    assert_eq!(path_text(&e.env_as_holder), "Local");
    assert_eq!(path_text(&e.macro_name), "define_local_p");
    assert_eq!(path_text(&e.nonp_macro_name), "define_local_nonp");
}

#[test]
fn env_args_crate_paths_are_respected() {
    let e = env("some_crate::env::Env::Local");
    assert_eq!(path_text(&e.env), "some_crate::env::Env");
    assert_eq!(e.name, "Local");
    assert_eq!(path_text(&e.env_as_holder), "some_crate::env::Local");
    assert_eq!(path_text(&e.macro_name), "some_crate::env::define_local_p");
}

#[test]
fn env_args_bare_variant() {
    let e = env("Local");
    assert_eq!(path_text(&e.env), "");
    assert_eq!(path_text(&e.env_as_holder), "Local");
    assert_eq!(path_text(&e.macro_name), "define_local_p");
}

#[test]
fn env_args_keep_generic_arguments_of_the_enum() {
    let mut p = path("Envs::Dev");
    p[0].arguments = "<u8>".to_string();
    let e = Env::from_segments(p);
    assert_eq!(path_text(&e.env), "Envs<u8>");
    assert_eq!(path_text(&e.env_as_holder), "Dev");
}

#[test]
fn macro_names_are_snake_case() {
    assert_eq!(macro_name(&"Local".to_string()), "define_local_p");
    assert_eq!(macro_name_nonp(&"Dev".to_string()), "define_dev_nonp");
    assert_eq!(macro_name(&"QaStage".to_string()), "define_qa_stage_p");
}

#[test]
fn handle_names_are_snake_case() {
    assert_eq!(handle_name(&"Basic".to_string(), &"test".to_string()), "impl_basic_test");
}

#[test]
fn modifiers_know_only_supercede() {
    assert!(matches!(Modifiers::from_keyword(&"supercede".to_string()), Some(Modifiers::Supercede)));
    assert!(Modifiers::from_keyword(&"supersede".to_string()).is_none());
    assert!(Modifiers::from_keyword(&"".to_string()).is_none());
}

#[test]
fn args_parse_directives() {
    let a = args("@supercede Envs::Dev, Envs::Local");
    assert!(a.supercede);
    assert_eq!(names(&a), vec!["Dev", "Local"]);
    let b = args("Envs::Dev, Envs::Local,");
    assert!(!b.supercede);
    assert_eq!(names(&b), vec!["Dev", "Local"]);
}

#[test]
fn test_merge_this_supercedes() {
    let parent = args("D");
    let mut this = args("@supercede A, B, C");
    assert!(this.supercede);
    this.merge(&parent);
    assert_eq!(names(&this), vec!["A", "B", "C"]);
    assert!(this.supercede);
}

#[test]
fn test_merge_other_supercedes() {
    let parent = args("@supercede D");
    let mut this = args("A, B, C");
    assert!(!this.supercede);
    this.merge(&parent);
    assert_eq!(names(&this), vec!["D"]);
}

#[test]
fn test_merge_does_not_supercede() {
    let parent = args("D");
    let mut this = args("A, B, C");
    this.merge(&parent);
    assert_eq!(names(&this), vec!["A", "B", "C", "D"]);
}

#[test]
fn merge_keeps_the_first_of_each_name() {
    let parent = args("Other::B, D, A");
    let mut this = args("A, B, A, C");
    this.merge(&parent);
    assert_eq!(names(&this), vec!["A", "B", "C", "D"]);
    assert_eq!(path_text(&this.envs[1].env), "");
}

#[test]
fn merge_twice_changes_nothing() {
    let parent = args("C, D, A");
    let mut this = args("A, B");
    this.merge(&parent);
    let once = names(&this);
    this.merge(&parent);
    assert_eq!(names(&this), once);
    assert_eq!(once, vec!["A", "B", "C", "D"]);
}

#[test]
fn merge_both_supercede() {
    let parent = args("@supercede D, D");
    let mut this = args("@supercede A");
    this.merge(&parent);
    assert_eq!(names(&this), vec!["D"]);
}
