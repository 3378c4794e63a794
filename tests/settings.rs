use fcp::{Cli, DEFAULT_WORKERS};

fn settings(workers: Option<i32>) -> Cli {
    Cli { source: String::from("/s"), destination: String::from("/o/"), workers, verbose: false }
}

#[test]
fn explicit_worker_count_wins() {
    assert_eq!(settings(Some(16)).worker_count(Some(8)), Some(16));
    assert_eq!(settings(Some(1)).worker_count(None), Some(1));
}

#[test]
fn non_positive_worker_count_is_refused() {
    assert_eq!(settings(Some(0)).worker_count(Some(8)), None);
    assert_eq!(settings(Some(-3)).worker_count(Some(8)), None);
}

#[test]
fn available_parallelism_is_the_default() {
    assert_eq!(settings(None).worker_count(Some(12)), Some(12));
}

#[test]
fn falls_back_to_four_workers() {
    assert_eq!(settings(None).worker_count(None), Some(4));
    assert_eq!(settings(None).worker_count(Some(0)), Some(4));
    assert_eq!(DEFAULT_WORKERS, 4);
}
