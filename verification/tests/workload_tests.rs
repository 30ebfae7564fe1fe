use gbm_sim::workload::{paths_per_thread, split_for_workers, split_paths, thread_chunks};

fn run_count(chunks: &[(usize, usize)]) -> usize {
    chunks.iter().map(|&(s, e)| if e > s { e - s } else { 0 }).sum()
}

#[test]
fn share_is_rounded_up() {
    assert_eq!(paths_per_thread(10, 4), 3);
    assert_eq!(paths_per_thread(12, 4), 3);
    assert_eq!(paths_per_thread(0, 4), 0);
    assert_eq!(paths_per_thread(1, 8), 1);
    assert_eq!(paths_per_thread(1_000_000_000, 1), 1_000_000_000);
    assert_eq!(paths_per_thread(1_000_000_000, 3), 333_333_334);
}

#[test]
fn split_gives_each_worker_a_range() {
    assert_eq!(split_paths(10, 4), vec![(0, 3), (3, 6), (6, 9), (9, 10)]);
    assert_eq!(split_paths(12, 4), vec![(0, 3), (3, 6), (6, 9), (9, 12)]);
    assert_eq!(split_paths(5, 1), vec![(0, 5)]);
}

#[test]
fn surplus_workers_get_empty_ranges() {
    assert_eq!(split_paths(5, 8), vec![(0, 1), (1, 2), (2, 3), (3, 4), (4, 5), (5, 5), (6, 5), (7, 5)]);
    assert_eq!(split_paths(0, 3), vec![(0, 0), (0, 0), (0, 0)]);
}

#[test]
fn every_path_runs_exactly_once() {
    for paths in 0..60usize {
        for workers in 1..12usize {
            let chunks = split_paths(paths, workers);
            assert_eq!(chunks.len(), workers);
            assert_eq!(run_count(&chunks), paths);
            for k in 0..paths {
                let owners = chunks.iter().filter(|&&(s, e)| s <= k && k < e).count();
                assert_eq!(owners, 1);
            }
        }
    }
}

#[test]
fn thread_chunks_cover_all_paths() {
    let chunks = thread_chunks(1000).unwrap();
    assert!(chunks.len() >= 1);
    assert_eq!(run_count(&chunks), 1000);
}

#[test]
fn thread_chunks_refuse_counts_that_overflow() {
    match thread_chunks(usize::MAX) {
        Err(workers) => assert!(workers >= 1),
        Ok(_) => panic!("a count that overflows was split"),
    }
}

#[test]
fn split_for_workers_splits_or_reports_overflow() {
    assert_eq!(split_for_workers(10, 4), Ok(vec![(0, 3), (3, 6), (6, 9), (9, 10)]));
    assert_eq!(split_for_workers(usize::MAX - 4, 4), Ok(split_paths(usize::MAX - 4, 4)));
    assert_eq!(split_for_workers(usize::MAX - 3, 4), Err(4));
    assert_eq!(split_for_workers(usize::MAX, 1), Err(1));
}
