//! Builds driven by hand: pull by pull through the steps, and a whole stream
//! at once through the visitors.

use scoped_serde::{
    HashMap, HashSet, MapBuild, MapVisitor, Phase, Scope, SetBuild, SetVisitor, Step,
};
use seize::Collector;
use std::sync::Arc;

type MapPull = Result<Option<(u8, u8)>, String>;

type SetPull = Result<Option<u8>, String>;

fn pairs(items: &[(u8, u8)]) -> Vec<MapPull> {
    let mut pulls: Vec<MapPull> = items.iter().map(|pair| Ok(Some(*pair))).collect();
    pulls.push(Ok(None));
    pulls
}

fn elements(items: &[u8]) -> Vec<SetPull> {
    let mut pulls: Vec<SetPull> = items.iter().map(|key| Ok(Some(*key))).collect();
    pulls.push(Ok(None));
    pulls
}

fn map_with(items: &[(u8, u8)]) -> HashMap<u8, u8> {
    let mut map = HashMap::new();
    for (key, value) in items {
        map.insert(*key, *value);
    }
    map
}

fn set_with(items: &[u8]) -> HashSet<u8> {
    let mut set = HashSet::new();
    for key in items {
        set.insert(*key);
    }
    set
}

#[test]
fn map_build_goes_from_building_to_complete() {
    let scope = Scope::private();
    let mut build: MapBuild<u8, u8> = MapBuild::begin(&scope, std::collections::HashMap::new());
    assert_eq!(build.current_phase(), Phase::Building);
    assert!(matches!(build.step::<String>(Ok(Some((1, 10)))), Step::Continue));
    assert_eq!(build.current_phase(), Phase::Building);
    assert!(matches!(build.step::<String>(Ok(Some((2, 20)))), Step::Continue));
    assert!(matches!(build.step::<String>(Ok(None)), Step::Complete));
    assert_eq!(build.current_phase(), Phase::Complete);
    let table = build.finish();
    assert_eq!(table.len(), 2);
    assert_eq!(table.get(&1), Some(&10));
    assert_eq!(table.get(&2), Some(&20));
}

#[test]
fn map_build_aborts_on_the_decoder_error_and_hands_it_on() {
    let scope = Scope::private();
    let mut build: MapBuild<u8, u8> = MapBuild::begin(&scope, std::collections::HashMap::new());
    assert!(matches!(build.step::<String>(Ok(Some((1, 10)))), Step::Continue));
    match build.step(Err(String::from("missing value at 2"))) {
        Step::Aborted(error) => assert_eq!(error, "missing value at 2"),
        other => panic!("not aborted: {:?}", other),
    }
    assert_eq!(build.current_phase(), Phase::Aborted);
    let table = build.finish();
    assert!(table.is_empty());
}

#[test]
fn ended_map_build_stays_as_it_is() {
    let scope = Scope::private();
    let mut build: MapBuild<u8, u8> = MapBuild::begin(&scope, std::collections::HashMap::new());
    assert!(matches!(build.step::<String>(Ok(Some((1, 10)))), Step::Continue));
    assert!(matches!(build.step::<String>(Ok(None)), Step::Complete));
    assert!(matches!(build.step::<String>(Ok(Some((2, 20)))), Step::Halted));
    assert!(matches!(build.step(Err(String::from("late"))), Step::Halted));
    assert!(matches!(build.step::<String>(Ok(None)), Step::Halted));
    assert_eq!(build.current_phase(), Phase::Complete);
    let table = build.finish();
    assert_eq!(table.len(), 1);
    assert_eq!(table.get(&1), Some(&10));

    let mut failed: MapBuild<u8, u8> = MapBuild::begin(&scope, std::collections::HashMap::new());
    assert!(matches!(failed.step(Err(String::from("first"))), Step::Aborted(_)));
    assert!(matches!(failed.step(Err(String::from("second"))), Step::Halted));
    assert!(matches!(failed.step::<String>(Ok(Some((2, 20)))), Step::Halted));
    assert_eq!(failed.current_phase(), Phase::Aborted);
    assert!(failed.finish().is_empty());
}

#[test]
fn map_build_that_runs_out_is_finished_as_it_stands() {
    let scope = Scope::private();
    let mut build: MapBuild<u8, u8> = MapBuild::begin(&scope, std::collections::HashMap::new());
    assert!(matches!(build.step::<String>(Ok(Some((1, 10)))), Step::Continue));
    assert_eq!(build.current_phase(), Phase::Building);
    let table = build.finish();
    assert_eq!(table.len(), 1);
}

#[test]
fn set_build_goes_through_the_same_phases() {
    let scope = Scope::fresh_shared();
    let mut build: SetBuild<u8> = SetBuild::begin(&scope, std::collections::HashSet::new());
    assert_eq!(build.current_phase(), Phase::Building);
    assert!(matches!(build.step::<String>(Ok(Some(1))), Step::Continue));
    assert!(matches!(build.step::<String>(Ok(Some(1))), Step::Continue));
    assert!(matches!(build.step::<String>(Ok(Some(2))), Step::Continue));
    assert!(matches!(build.step::<String>(Ok(None)), Step::Complete));
    assert_eq!(build.current_phase(), Phase::Complete);
    assert!(matches!(build.step::<String>(Ok(Some(3))), Step::Halted));
    let table = build.finish();
    assert_eq!(table.len(), 2);
    assert!(table.contains(&1) && table.contains(&2) && !table.contains(&3));

    let mut failed: SetBuild<u8> = SetBuild::begin(&scope, std::collections::HashSet::new());
    assert!(matches!(failed.step::<String>(Ok(Some(1))), Step::Continue));
    match failed.step(Err(String::from("not a number"))) {
        Step::Aborted(error) => assert_eq!(error, "not a number"),
        other => panic!("not aborted: {:?}", other),
    }
    assert_eq!(failed.current_phase(), Phase::Aborted);
    assert!(failed.finish().is_empty());
}

#[test]
fn visit_map_builds_the_map_of_the_stream() {
    let built = MapVisitor::new()
        .visit_map(Some(5), pairs(&[(0, 4), (1, 3), (2, 2), (3, 1), (4, 0)]))
        .unwrap();
    assert_eq!(built, map_with(&[(0, 4), (1, 3), (2, 2), (3, 1), (4, 0)]));
    assert_eq!(built.len(), 5);
    assert!(!built.shared_mode());
}

#[test]
fn visit_map_lets_the_last_write_win() {
    let built = MapVisitor::new()
        .visit_map(None, pairs(&[(1, 10), (2, 20), (1, 11), (3, 30), (1, 12), (2, 21)]))
        .unwrap();
    assert_eq!(built.len(), 3);
    assert_eq!(built.get(&1), Some(&12));
    assert_eq!(built.get(&2), Some(&21));
    assert_eq!(built.get(&3), Some(&30));
}

#[test]
fn visit_map_does_not_depend_on_the_hint() {
    let items = [(0, 4), (1, 3), (2, 2), (3, 1), (4, 0)];
    let unhinted = MapVisitor::new().visit_map(None, pairs(&items)).unwrap();
    for hint in [Some(0), Some(5), Some(3), Some(1000)] {
        let hinted = MapVisitor::new().visit_map(hint, pairs(&items)).unwrap();
        assert_eq!(hinted, unhinted);
        assert_eq!(hinted.len(), 5);
    }
}

#[test]
fn visit_map_of_nothing_is_empty() {
    let from_end = MapVisitor::<u8, u8>::new().visit_map(None, pairs(&[])).unwrap();
    assert!(from_end.is_empty());
    let from_no_pulls = MapVisitor::<u8, u8>::new()
        .visit_map(Some(0), Vec::<MapPull>::new())
        .unwrap();
    assert!(from_no_pulls.is_empty());
    assert_eq!(from_end, from_no_pulls);
}

#[test]
fn visit_map_stops_at_the_end_of_the_stream() {
    let pulls: Vec<MapPull> = vec![
        Ok(Some((1, 10))),
        Ok(None),
        Ok(Some((2, 20))),
        Err(String::from("behind the end")),
    ];
    let built = MapVisitor::new().visit_map(None, pulls).unwrap();
    assert_eq!(built, map_with(&[(1, 10)]));
}

#[test]
fn visit_map_takes_pulls_that_run_out_as_the_stream() {
    let pulls: Vec<MapPull> = vec![Ok(Some((1, 10))), Ok(Some((2, 20)))];
    let built = MapVisitor::new().visit_map(None, pulls).unwrap();
    assert_eq!(built, map_with(&[(1, 10), (2, 20)]));
}

#[test]
fn visit_map_fails_with_the_first_error_as_it_came() {
    let pulls: Vec<MapPull> = vec![
        Ok(Some((1, 10))),
        Err(String::from("missing value")),
        Ok(Some((2, 20))),
        Err(String::from("second error")),
        Ok(None),
    ];
    let failed = MapVisitor::new().visit_map(Some(2), pulls);
    assert_eq!(failed.unwrap_err(), "missing value");
    let at_once: Vec<MapPull> = vec![Err(String::from("not a map"))];
    assert_eq!(MapVisitor::new().visit_map(None, at_once).unwrap_err(), "not a map");
}

#[test]
fn map_deserialize_is_the_visit() {
    let built = HashMap::deserialize(Some(2), pairs(&[(1, 10), (1, 11)])).unwrap();
    assert_eq!(built, map_with(&[(1, 11)]));
    let failed = HashMap::<u8, u8>::deserialize(None, vec![Err(String::from("bad"))]);
    assert_eq!(failed.unwrap_err(), "bad");
}

#[test]
fn visit_seq_builds_the_set_of_the_stream() {
    let built = SetVisitor::new().visit_seq(Some(5), elements(&[0, 1, 2, 3, 4])).unwrap();
    assert_eq!(built, set_with(&[0, 1, 2, 3, 4]));
    assert_eq!(built.len(), 5);
    assert!(!built.shared_mode());
}

#[test]
fn visit_seq_collapses_repeats() {
    let with_repeats = SetVisitor::new()
        .visit_seq(None, elements(&[3, 1, 3, 3, 2, 1]))
        .unwrap();
    let without = SetVisitor::new().visit_seq(None, elements(&[3, 1, 2])).unwrap();
    assert_eq!(with_repeats.len(), 3);
    assert_eq!(with_repeats, without);
}

#[test]
fn visit_seq_does_not_depend_on_the_hint() {
    let items = [0, 1, 2, 3, 4];
    let unhinted = SetVisitor::new().visit_seq(None, elements(&items)).unwrap();
    for hint in [Some(0), Some(5), Some(2), Some(1000)] {
        let hinted = SetVisitor::new().visit_seq(hint, elements(&items)).unwrap();
        assert_eq!(hinted, unhinted);
        let shared = SetVisitor::new_shared().visit_seq(hint, elements(&items)).unwrap();
        assert_eq!(shared, unhinted);
    }
}

#[test]
fn visit_seq_of_nothing_is_empty() {
    let built = SetVisitor::<u8>::new().visit_seq(None, elements(&[])).unwrap();
    assert!(built.is_empty());
    let shared = SetVisitor::<u8>::new_shared()
        .visit_seq(None, Vec::<SetPull>::new())
        .unwrap();
    assert!(shared.is_empty());
    assert!(shared.shared_mode());
}

#[test]
fn visit_seq_fails_with_the_first_error_as_it_came() {
    let pulls: Vec<SetPull> = vec![
        Ok(Some(1)),
        Ok(Some(2)),
        Err(String::from("not a number")),
        Ok(Some(3)),
        Ok(None),
    ];
    let failed = SetVisitor::new().visit_seq(None, pulls);
    assert_eq!(failed.unwrap_err(), "not a number");
    let shared: Vec<SetPull> = vec![Err(String::from("not a sequence"))];
    let failed = SetVisitor::new_shared().visit_seq(Some(3), shared);
    assert_eq!(failed.unwrap_err(), "not a sequence");
}

#[test]
fn visit_seq_builds_into_the_chosen_scope() {
    let private = SetVisitor::new().visit_seq(None, elements(&[1, 2])).unwrap();
    assert!(!private.shared_mode());
    let fresh = SetVisitor::new_shared().visit_seq(None, elements(&[1, 2])).unwrap();
    assert!(fresh.shared_mode());
    let collector = Arc::new(Collector::new());
    let left = SetVisitor::with_collector(collector.clone())
        .visit_seq(Some(2), elements(&[1, 2]))
        .unwrap();
    let right = SetVisitor::with_collector(collector.clone())
        .visit_seq(None, elements(&[2, 3]))
        .unwrap();
    assert!(left.shared_mode() && right.shared_mode());
    assert!(left.joint_with(&right));
    assert!(!left.joint_with(&fresh));
    assert!(!left.joint_with(&private));
    assert!(!private.joint_with(&private));
    assert_eq!(left, private);
    assert_eq!(Arc::strong_count(&collector), 3);
    drop(left);
    drop(right);
    assert_eq!(Arc::strong_count(&collector), 1);
}

#[test]
fn set_deserialize_picks_the_scope_by_its_name() {
    let private = HashSet::deserialize(Some(3), elements(&[1, 2, 2])).unwrap();
    assert!(!private.shared_mode());
    let shared = HashSet::deserialize_shared(Some(3), elements(&[1, 2, 2])).unwrap();
    assert!(shared.shared_mode());
    assert_eq!(private, shared);
    assert_eq!(private, set_with(&[1, 2]));
    let failed = HashSet::<u8>::deserialize_shared(None, vec![Err(String::from("bad"))]);
    assert_eq!(failed.unwrap_err(), "bad");
}

#[test]
fn visitors_say_what_they_expect() {
    assert_eq!(MapVisitor::<u8, u8>::new().expecting(), "a map");
    assert_eq!(SetVisitor::<u8>::new().expecting(), "a set");
    assert_eq!(SetVisitor::<u8>::new_shared().expecting(), "a set");
}

#[test]
fn targets_are_empty_whatever_the_hint() {
    for hint in [None, Some(0), Some(7), Some(1000)] {
        let map = MapVisitor::<u8, u8>::new().target(hint);
        assert!(map.is_empty());
        assert!(!map.shared_mode());
        let set = SetVisitor::<u8>::new().target(hint);
        assert!(set.is_empty());
        assert!(!set.shared_mode());
        let shared = SetVisitor::<u8>::new_shared().target(hint);
        assert!(shared.is_empty());
        assert!(shared.shared_mode());
    }
}
