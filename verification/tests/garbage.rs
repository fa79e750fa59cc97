use smugdancer::garbage::{
    plan_purge, rows_to_forget, select_victims, total_size, Candidate, Deletion, PurgePlan,
};

fn on_disk(file: &str, size: u64) -> Candidate {
    Candidate { file: file.to_string(), size: Some(size) }
}

fn gone(file: &str) -> Candidate {
    Candidate { file: file.to_string(), size: None }
}

#[test]
fn total_size_adds_up() {
    assert_eq!(total_size(&vec![]), 0);
    assert_eq!(total_size(&vec![1, 2, 3]), 6);
    assert_eq!(total_size(&vec![u64::MAX, u64::MAX, 2]), 2 * (u64::MAX as u128) + 2);
}

#[test]
fn purge_is_planned_at_the_limit() {
    assert_eq!(plan_purge(&vec![10, 20], 31, 5), PurgePlan::Idle);
    assert_eq!(plan_purge(&vec![10, 20], 30, 5), PurgePlan::Purge { fetch: 5, total: 30 });
    assert_eq!(plan_purge(&vec![10, 20], 29, 5), PurgePlan::Purge { fetch: 5, total: 30 });
    assert_eq!(plan_purge(&vec![], 0, 5), PurgePlan::Purge { fetch: 5, total: 0 });
    assert_eq!(
        plan_purge(&vec![u64::MAX, 1], u64::MAX, 1),
        PurgePlan::Purge { fetch: 1, total: u64::MAX as u128 + 1 }
    );
}

#[test]
fn victims_are_taken_oldest_first_until_the_purge_limit() {
    let oldest = vec![on_disk("a", 10), on_disk("b", 10), on_disk("c", 10), on_disk("d", 10)];
    assert_eq!(select_victims(&oldest, 100, 80), vec!["a", "b"]);
    assert_eq!(select_victims(&oldest, 100, 81), vec!["a", "b"]);
    assert_eq!(select_victims(&oldest, 100, 79), vec!["a", "b", "c"]);
    assert_eq!(select_victims(&oldest, 100, 90), vec!["a"]);
}

#[test]
fn files_that_are_gone_are_passed_over() {
    let oldest = vec![gone("a"), on_disk("b", 10), gone("c"), on_disk("d", 10), on_disk("e", 10)];
    assert_eq!(select_victims(&oldest, 100, 80), vec!["b", "d"]);
    assert_eq!(select_victims(&vec![gone("a"), gone("b")], 100, 0), Vec::<String>::new());
}

#[test]
fn all_rows_are_taken_where_the_purge_limit_is_out_of_reach() {
    let oldest = vec![on_disk("a", 10), on_disk("b", 10)];
    assert_eq!(select_victims(&oldest, 100, 50), vec!["a", "b"]);
    assert_eq!(select_victims(&vec![], 100, 50), Vec::<String>::new());
}

#[test]
fn first_file_goes_even_below_the_purge_limit() {
    let oldest = vec![on_disk("a", 10), on_disk("b", 10)];
    assert_eq!(select_victims(&oldest, 10, 100), vec!["a"]);
}

#[test]
fn file_larger_than_the_total_ends_the_pass() {
    let oldest = vec![on_disk("a", 500), on_disk("b", 10)];
    assert_eq!(select_victims(&oldest, 100, 0), vec!["a"]);
}

#[test]
fn empty_files_do_not_end_the_pass() {
    let oldest = vec![on_disk("a", 0), on_disk("b", 0), on_disk("c", 60)];
    assert_eq!(select_victims(&oldest, 100, 50), vec!["a", "b", "c"]);
}

#[test]
fn pass_leaves_more_than_the_purge_limit_less_one_file() {
    let sizes = [30u64, 5, 50, 20, 40];
    let oldest: Vec<Candidate> =
        sizes.iter().enumerate().map(|(i, size)| on_disk(&i.to_string(), *size)).collect();
    let total: u128 = 145;
    for purge_limit in 0..145u64 {
        let victims = select_victims(&oldest, total, purge_limit);
        let freed: u128 = sizes[..victims.len()].iter().map(|size| *size as u128).sum();
        let left = total - freed;
        assert!(left + 50 > purge_limit as u128, "limit {}", purge_limit);
        if victims.len() < sizes.len() {
            assert!(left <= purge_limit as u128, "limit {}", purge_limit);
        }
        let expected: Vec<String> = (0..victims.len()).map(|i| i.to_string()).collect();
        assert_eq!(victims, expected);
    }
}

#[test]
fn rows_of_deleted_files_are_forgotten() {
    let deletions = vec![
        Deletion { file: "a".to_string(), removed: true },
        Deletion { file: "b".to_string(), removed: false },
        Deletion { file: "c".to_string(), removed: true },
    ];
    assert_eq!(rows_to_forget(&deletions), vec!["a", "c"]);
    assert_eq!(rows_to_forget(&vec![]), Vec::<String>::new());
    assert_eq!(
        rows_to_forget(&vec![Deletion { file: "a".to_string(), removed: false }]),
        Vec::<String>::new()
    );
}
