use ipfs_upload::coordinator::{BatchCoordinator, CONCURRENCY_LIMIT};
use ipfs_upload::outcome::{UploadError, UploadMode};

fn paths_of(names: &[&str]) -> Vec<String> {
    names.iter().map(|n| n.to_string()).collect()
}

/// Drives a whole per-file batch against a stub gateway: a path containing
/// "missing" fails to open, a path containing "badnet" fails in transport,
/// any other path completes with "{path}-body". Completions are recorded in
/// reverse launch order inside each wave, to exercise order independence.
fn run_multi_file_stub(paths: Vec<String>) -> BatchCoordinator {
    let mut c = BatchCoordinator::new(paths, UploadMode::MultiFile);
    loop {
        let mut wave: Vec<usize> = Vec::new();
        while let Some(i) = c.launch() {
            wave.push(i);
        }
        if wave.is_empty() {
            break;
        }
        for &i in wave.iter().rev() {
            assert!(c.is_in_flight(i));
            let path = c.paths[i].clone();
            if path.contains("missing") {
                c.record_open_failure(i, format!("{path}: no such file"));
            } else if path.contains("badnet") {
                c.record_request_failure(i, format!("{path}: connection reset"));
            } else {
                c.record_completed(i, format!("{path}-body"));
            }
        }
    }
    assert!(c.fanout_complete());
    c
}

#[test]
fn multi_file_echo_two_targets() {
    let c = run_multi_file_stub(paths_of(&["a.txt", "b.txt"]));
    let mut got = c.successes();
    got.sort();
    assert_eq!(got, vec!["a.txt-body".to_string(), "b.txt-body".to_string()]);
    assert!(c.failures().is_empty());
    assert_eq!(c.requests_issued, 2);
}

#[test]
fn missing_file_is_reported_and_isolated() {
    let c = run_multi_file_stub(paths_of(&["a.txt", "missing.txt"]));
    assert_eq!(c.successes(), vec!["a.txt-body".to_string()]);
    let errs = c.failures();
    assert_eq!(errs.len(), 1);
    assert_eq!(
        errs[0],
        UploadError::FileOpen {
            path: "missing.txt".to_string(),
            cause: "missing.txt: no such file".to_string(),
        }
    );
}

#[test]
fn transport_failure_is_reported_and_isolated() {
    let c = run_multi_file_stub(paths_of(&["a.txt", "badnet.txt", "c.txt"]));
    let mut got = c.successes();
    got.sort();
    assert_eq!(got, vec!["a.txt-body".to_string(), "c.txt-body".to_string()]);
    let errs = c.failures();
    assert_eq!(errs.len(), 1);
    assert_eq!(
        errs[0],
        UploadError::Transport {
            path: "badnet.txt".to_string(),
            cause: "badnet.txt: connection reset".to_string(),
        }
    );
}

#[test]
fn result_list_counts_exactly_the_successes() {
    let c = run_multi_file_stub(paths_of(&[
        "a.txt",
        "missing.1",
        "b.txt",
        "badnet.1",
        "missing.2",
        "c.txt",
    ]));
    let oks = c.successes();
    let errs = c.failures();
    assert_eq!(oks.len(), 3);
    assert_eq!(errs.len(), 3);
    assert_eq!(oks.len() + errs.len(), c.paths.len());
    for body in ["a.txt-body", "b.txt-body", "c.txt-body"] {
        assert!(oks.contains(&body.to_string()));
    }
}

#[test]
fn multi_file_issues_one_request_per_opened_target() {
    // Every open succeeds: one request per target, transport failures included.
    let c = run_multi_file_stub(paths_of(&["a", "badnet.1", "b", "badnet.2"]));
    assert_eq!(c.requests_issued, 4);
    // A target that never opened issues no request.
    let c = run_multi_file_stub(paths_of(&["a", "missing.1", "b"]));
    assert_eq!(c.requests_issued, 2);
}

#[test]
fn concurrency_never_exceeds_the_ceiling() {
    let names: Vec<String> = (0..250).map(|k| format!("f{k}.txt")).collect();
    let mut c = BatchCoordinator::new(names, UploadMode::MultiFile);
    let mut max_in_flight: usize = 0;
    let mut active: Vec<usize> = Vec::new();
    let mut launched: usize = 0;
    while !(active.is_empty() && launched == c.paths.len()) {
        while let Some(i) = c.launch() {
            active.push(i);
            launched += 1;
            max_in_flight = max_in_flight.max(c.in_flight);
        }
        // The ceiling is saturated while whole waves remain.
        assert!(c.in_flight <= CONCURRENCY_LIMIT);
        let i = active.remove(0);
        let path = c.paths[i].clone();
        c.record_completed(i, format!("{path}-body"));
    }
    assert_eq!(max_in_flight, CONCURRENCY_LIMIT);
    assert!(c.fanout_complete());
    assert_eq!(c.successes().len(), 250);
    assert_eq!(c.requests_issued, 250);
}

#[test]
fn rerunning_the_same_batch_gives_the_same_results() {
    let paths = paths_of(&["p.txt", "q.txt", "r.txt", "s.txt"]);
    // First run: completions recorded in reverse order inside each wave.
    let first = run_multi_file_stub(paths.clone());
    // Second run: completions recorded in launch order.
    let mut second = BatchCoordinator::new(paths, UploadMode::MultiFile);
    let mut wave: Vec<usize> = Vec::new();
    while let Some(i) = second.launch() {
        wave.push(i);
    }
    for &i in wave.iter() {
        let path = second.paths[i].clone();
        second.record_completed(i, format!("{path}-body"));
    }
    let mut a = first.successes();
    let mut b = second.successes();
    a.sort();
    b.sort();
    assert_eq!(a, b);
    assert_eq!(a.len(), 4);
}

fn run_directory_wrap_stub(paths: Vec<String>, response: &str) -> BatchCoordinator {
    let mut c = BatchCoordinator::new(paths, UploadMode::DirectoryWrap);
    loop {
        let mut wave: Vec<usize> = Vec::new();
        while let Some(i) = c.launch() {
            wave.push(i);
        }
        if wave.is_empty() {
            break;
        }
        for &i in wave.iter().rev() {
            let path = c.paths[i].clone();
            if path.contains("missing") {
                c.record_open_failure(i, format!("{path}: no such file"));
            } else {
                c.record_opened(i);
            }
        }
    }
    assert!(c.fanout_complete());
    assert_eq!(c.requests_issued, 0);
    c.begin_wrap_request();
    c.record_wrap_response(response.to_string());
    c
}

#[test]
fn directory_wrap_empty_batch_still_posts_once() {
    let c = run_directory_wrap_stub(Vec::new(), "empty-dir-hash");
    assert_eq!(c.requests_issued, 1);
    assert_eq!(c.wrap_response(), Some("empty-dir-hash".to_string()));
    assert_eq!(c.wrap_failure(), None);
    assert!(c.failures().is_empty());
}

#[test]
fn directory_wrap_posts_once_whatever_the_batch_size() {
    let c = run_directory_wrap_stub(paths_of(&["a"]), "h1");
    assert_eq!(c.requests_issued, 1);
    let c = run_directory_wrap_stub(paths_of(&["a", "missing.txt", "b"]), "h3");
    assert_eq!(c.requests_issued, 1);
    assert_eq!(c.failures().len(), 1);
    let names: Vec<String> = (0..1000).map(|k| format!("f{k}")).collect();
    let c = run_directory_wrap_stub(names, "h1000");
    assert_eq!(c.requests_issued, 1);
    assert_eq!(c.wrap_response(), Some("h1000".to_string()));
}

#[test]
fn directory_wrap_transport_failure_is_terminal() {
    let mut c = BatchCoordinator::new(paths_of(&["a"]), UploadMode::DirectoryWrap);
    let i = c.launch().unwrap();
    c.record_opened(i);
    c.begin_wrap_request();
    c.record_wrap_failure("gateway unreachable".to_string());
    assert_eq!(c.requests_issued, 1);
    assert_eq!(c.wrap_response(), None);
    assert_eq!(c.wrap_failure(), Some("gateway unreachable".to_string()));
}

#[test]
fn single_file_outcome_is_the_batch_result() {
    let mut c = BatchCoordinator::new(paths_of(&["one.txt"]), UploadMode::SingleFile);
    let i = c.launch().unwrap();
    c.record_completed(i, "one-body".to_string());
    assert_eq!(c.single_outcome(), Ok("one-body".to_string()));

    let mut c = BatchCoordinator::new(paths_of(&["gone.txt"]), UploadMode::SingleFile);
    let i = c.launch().unwrap();
    c.record_open_failure(i, "no such file".to_string());
    assert_eq!(
        c.single_outcome(),
        Err(UploadError::FileOpen {
            path: "gone.txt".to_string(),
            cause: "no such file".to_string(),
        })
    );

    let mut c = BatchCoordinator::new(paths_of(&["sad.txt"]), UploadMode::SingleFile);
    let i = c.launch().unwrap();
    c.record_request_failure(i, "timeout".to_string());
    assert_eq!(
        c.single_outcome(),
        Err(UploadError::Transport {
            path: "sad.txt".to_string(),
            cause: "timeout".to_string(),
        })
    );
}

#[test]
fn single_file_mode_carries_one_target() {
    let mut c = BatchCoordinator::new(paths_of(&["only.txt"]), UploadMode::SingleFile);
    let i = c.launch().unwrap();
    assert_eq!(i, 0);
    c.record_completed(i, "only-body".to_string());
    assert!(c.fanout_complete());
    assert_eq!(c.successes(), vec!["only-body".to_string()]);
    assert_eq!(c.requests_issued, 1);
}
