use by_env::env_attr::Args;
use std::cell::Cell;

use by_env::utils::{disallow, resolved_args, try_collect, try_collect_from};

#[test]
fn try_collect_all_ok() {
    let items: Vec<Result<i32, String>> = vec![Ok(1), Ok(2), Ok(3)];
    assert_eq!(try_collect(items.into_iter()), Ok(vec![1, 2, 3]));
}

#[test]
fn try_collect_empty() {
    let items: Vec<Result<i32, String>> = vec![];
    assert_eq!(try_collect(items.into_iter()), Ok(vec![]));
}

#[test]
fn try_collect_first_error() {
    let items: Vec<Result<i32, &str>> = vec![Ok(1), Err("first"), Ok(3), Err("second")];
    assert_eq!(try_collect(items.into_iter()), Err("first"));
}

#[test]
fn try_collect_stops_pulling_at_the_first_error() {
    let n = Cell::new(0);
    let it = vec![Ok::<i32, &str>(1), Err("a"), Ok(2), Err("b")].into_iter().inspect(|_| n.set(n.get() + 1));
    assert_eq!(try_collect(it), Err("a"));
    assert_eq!(n.get(), 2);
}

#[test]
fn try_collect_from_leaves_the_iterator_past_the_error() {
    let mut it = vec![Ok::<i32, &str>(1), Ok(2), Err("a"), Ok(3), Err("b")].into_iter();
    assert_eq!(try_collect_from(&mut it), Err("a"));
    assert_eq!(it.collect::<Vec<_>>(), vec![Ok(3), Err("b")]);
}

#[test]
fn try_collect_from_drains_the_iterator_on_success() {
    let mut it = vec![Ok::<i32, &str>(1), Ok(2)].into_iter();
    assert_eq!(try_collect_from(&mut it), Ok(vec![1, 2]));
    assert_eq!(it.next(), None);
}

#[test]
fn resolved_args_prefers_own() {
    let parent = Args::new(vec![], vec![]);
    let own = Some(Args::new(vec![by_env::env_attr::Modifiers::Supercede], vec![]));
    assert!(resolved_args(&parent, &own).supercede);
    let none: Option<Args> = None;
    assert!(!resolved_args(&parent, &none).supercede);
}

#[test]
fn disallow_reports_the_directive() {
    let err = disallow("supercede", "fn", &true, |b: &bool| *b).err().expect("refused");
    assert_eq!(err.message(), "@supercede is not allowed in fn attributes.");
    assert!(disallow("supercede", "impl", &false, |b: &bool| *b).is_ok());
}
