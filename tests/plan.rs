use qpcr_volumes::greeting::greet;
use qpcr_volumes::plan::{distinct_targets, plan_reactions, Samples};

fn strings(v: &[&str]) -> Vec<String> {
    v.iter().map(|s| s.to_string()).collect()
}

fn samples(targets: &[&str], repeat: usize, groups: &[&str]) -> Samples {
    Samples { targets: strings(targets), repeat, groups: strings(groups) }
}

#[test]
fn scenario_single_target() {
    let p = plan_reactions(&samples(&["geneA"], 3, &["ctrl", "treat"])).unwrap();
    assert_eq!(p.reactions_per_target, Some(6));
    assert_eq!(p.total_reactions, 6);
    assert_eq!(p.working_targets, strings(&["geneA"]));
}

#[test]
fn scenario_two_targets() {
    let p = plan_reactions(&samples(&["geneA", "geneB"], 3, &["ctrl", "treat"])).unwrap();
    assert_eq!(p.reactions_per_target, Some(6));
    assert_eq!(p.total_reactions, 12);
    assert_eq!(p.working_targets, strings(&["geneA", "geneB"]));
}

#[test]
fn scenario_zero_replicates() {
    let p = plan_reactions(&samples(&["geneA", "geneB"], 0, &["ctrl", "treat"])).unwrap();
    assert_eq!(p.reactions_per_target, Some(0));
    assert_eq!(p.total_reactions, 0);
    assert_eq!(p.working_targets, strings(&["geneA", "geneB"]));
}

#[test]
fn empty_targets_give_no_reactions() {
    let p = plan_reactions(&samples(&[], 4, &["a", "b", "c"])).unwrap();
    assert_eq!(p.reactions_per_target, Some(12));
    assert_eq!(p.total_reactions, 0);
    assert!(p.working_targets.is_empty());
}

#[test]
fn empty_targets_with_overflowing_replicates_give_no_reactions() {
    let p = plan_reactions(&samples(&[], usize::MAX, &["ctrl", "treat"])).unwrap();
    assert_eq!(p.reactions_per_target, None);
    assert_eq!(p.total_reactions, 0);
    assert!(p.working_targets.is_empty());
}

#[test]
fn empty_groups_give_no_reactions() {
    let p = plan_reactions(&samples(&["geneA"], 5, &[])).unwrap();
    assert_eq!(p.reactions_per_target, Some(0));
    assert_eq!(p.total_reactions, 0);
    assert_eq!(p.working_targets, strings(&["geneA"]));
}

#[test]
fn reaction_count_is_groups_times_repeat_times_targets() {
    let p = plan_reactions(&samples(&["t1", "t2", "t3"], 4, &["g1", "g2", "g3", "g4", "g5"])).unwrap();
    assert_eq!(p.reactions_per_target, Some(20));
    assert_eq!(p.total_reactions, 60);
}

#[test]
fn repeated_target_gives_one_working_solution() {
    let p = plan_reactions(&samples(&["geneA", "geneB", "geneA"], 2, &["ctrl"])).unwrap();
    assert_eq!(p.total_reactions, 6);
    assert_eq!(p.working_targets, strings(&["geneA", "geneB"]));
}

#[test]
fn per_target_count_overflow_is_refused() {
    assert!(plan_reactions(&samples(&["geneA"], usize::MAX, &["a", "b"])).is_none());
}

#[test]
fn total_count_overflow_is_refused() {
    let big = usize::MAX / 2 + 1;
    assert!(plan_reactions(&samples(&["geneA", "geneB"], big, &["a"])).is_none());
    let p = plan_reactions(&samples(&["geneA"], big, &["a"])).unwrap();
    assert_eq!(p.total_reactions, big);
}

#[test]
fn distinct_targets_keeps_first_appearance_order() {
    let r = distinct_targets(&strings(&["b", "a", "b", "c", "a"]));
    assert_eq!(r, strings(&["b", "a", "c"]));
    assert!(distinct_targets(&Vec::new()).is_empty());
}

#[test]
fn greet_formats_the_name() {
    assert_eq!(greet("Ada"), "Hello, Ada! You've been greeted from Rust!");
    assert_eq!(greet(""), "Hello, ! You've been greeted from Rust!");
}
