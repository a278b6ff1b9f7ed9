use launcher::downloads::{
    after_attempt, already_up_to_date, backoff_ms, batch_result, checksum_verdict, effective_concurrency,
    part_path_for, range_header_value, response_verdict, resume_plan, sha1_of_bytes, should_emit_progress,
    total_expected_bytes, AttemptOutcome, DownloadError, DownloadTask, ResponseVerdict, RetryStep,
    MAX_ATTEMPTS,
};

#[test]
fn sha1_of_bytes_matches_known_vector() {
    let digest = sha1_of_bytes(b"abc");
    assert_eq!(digest, "a9993e364706816aba3e25717850c26c9cd0d89d");
}

#[test]
fn sha1_of_empty_input() {
    assert_eq!(sha1_of_bytes(b""), "da39a3ee5e6b4b0d3255bfef95601890afd80709");
}

#[test]
fn task_builders_set_each_field() {
    let t = DownloadTask::new("https://x/y", "/d/y", "label").with_sha1("abc").with_size(12);
    assert_eq!(t.url, "https://x/y");
    assert_eq!(t.destination, "/d/y");
    assert_eq!(t.label, "label");
    assert_eq!(t.sha1.as_deref(), Some("abc"));
    assert_eq!(t.expected_size, Some(12));
    let bare = DownloadTask::new("u", "d", "l");
    assert!(bare.sha1.is_none() && bare.expected_size.is_none());
    assert_eq!(part_path_for("/d/file.jar"), "/d/file.jar.part");
}

#[test]
fn up_to_date_prefers_checksum_then_size_then_presence() {
    let with_sha = DownloadTask::new("u", "d", "l").with_sha1("ABCDEF").with_size(3);
    assert!(!already_up_to_date(&with_sha, false, Some("abcdef"), Some(3)));
    assert!(already_up_to_date(&with_sha, true, Some("abcdef"), Some(99)));
    assert!(!already_up_to_date(&with_sha, true, Some("deadbeef"), Some(3)));
    assert!(!already_up_to_date(&with_sha, true, None, Some(3)));
    let with_size = DownloadTask::new("u", "d", "l").with_size(3);
    assert!(already_up_to_date(&with_size, true, None, Some(3)));
    assert!(!already_up_to_date(&with_size, true, None, Some(4)));
    assert!(!already_up_to_date(&with_size, true, None, None));
    let bare = DownloadTask::new("u", "d", "l");
    assert!(already_up_to_date(&bare, true, None, None));
}

#[test]
fn resume_discards_stale_partials() {
    let p = resume_plan(Some(100), Some(50));
    assert_eq!((p.resume_from, p.discard_part), (0, true));
    let p = resume_plan(Some(50), Some(50));
    assert_eq!((p.resume_from, p.discard_part), (0, true));
    let p = resume_plan(Some(10), Some(50));
    assert_eq!((p.resume_from, p.discard_part), (10, false));
    let p = resume_plan(Some(10), None);
    assert_eq!((p.resume_from, p.discard_part), (10, false));
    let p = resume_plan(None, Some(5));
    assert_eq!((p.resume_from, p.discard_part), (0, false));
    assert_eq!(range_header_value(0), None);
    assert_eq!(range_header_value(1024), Some("bytes=1024-".to_string()));
}

#[test]
fn responses_are_judged_by_status() {
    assert_eq!(
        response_verdict(416, 10, "u"),
        ResponseVerdict::Reject {
            error: DownloadError::HttpStatus { url: "u".to_string(), status: 416 },
            discard_part: true,
        }
    );
    assert_eq!(
        response_verdict(404, 0, "u"),
        ResponseVerdict::Reject {
            error: DownloadError::HttpStatus { url: "u".to_string(), status: 404 },
            discard_part: false,
        }
    );
    assert_eq!(response_verdict(206, 10, "u"), ResponseVerdict::Accept { resuming: true, starting_offset: 10 });
    assert_eq!(response_verdict(200, 10, "u"), ResponseVerdict::Accept { resuming: false, starting_offset: 0 });
    assert_eq!(response_verdict(206, 0, "u"), ResponseVerdict::Accept { resuming: false, starting_offset: 0 });
}

#[test]
fn progress_reports_every_64_kib() {
    assert!(!should_emit_progress(65535, 0));
    assert!(should_emit_progress(65536, 0));
    assert!(!should_emit_progress(10, 20));
    assert!(should_emit_progress(200_000, 100_000));
}

#[test]
fn checksum_mismatch_names_both_digests() {
    assert!(checksum_verdict("l", "ABC", "abc").is_ok());
    assert_eq!(
        checksum_verdict("l", "abc", "abd"),
        Err(DownloadError::ChecksumMismatch {
            label: "l".to_string(),
            expected: "abc".to_string(),
            actual: "abd".to_string(),
        })
    );
}

#[test]
fn backoff_doubles_and_caps() {
    assert_eq!(backoff_ms(1), 500);
    assert_eq!(backoff_ms(2), 1000);
    assert_eq!(backoff_ms(3), 2000);
    assert_eq!(backoff_ms(4), 4000);
    assert_eq!(backoff_ms(5), 8000);
    assert_eq!(backoff_ms(40), 8000);
}

#[test]
fn retries_stop_after_the_last_attempt() {
    assert_eq!(after_attempt("l", 1, AttemptOutcome::Succeeded), RetryStep::Done);
    assert_eq!(after_attempt("l", 2, AttemptOutcome::Cancelled), RetryStep::Stop);
    let err = DownloadError::HttpStatus { url: "u".to_string(), status: 500 };
    assert_eq!(
        after_attempt("l", 1, AttemptOutcome::Failed(err.clone())),
        RetryStep::Retry { message: "server returned HTTP 500 for u".to_string(), delay_ms: 500 }
    );
    assert_eq!(
        after_attempt("l", MAX_ATTEMPTS, AttemptOutcome::Failed(err)),
        RetryStep::GiveUp {
            message: "server returned HTTP 500 for u".to_string(),
            error: DownloadError::RetriesExhausted {
                label: "l".to_string(),
                attempts: 4,
                last_error: "server returned HTTP 500 for u".to_string(),
            },
        }
    );
}

#[test]
fn batch_outcome_reports_first_failure() {
    assert_eq!(batch_result(&[], false, 3), Ok(()));
    assert_eq!(batch_result(&["x".to_string()], true, 3), Err(DownloadError::Cancelled));
    assert_eq!(
        batch_result(&["first".to_string(), "second".to_string()], false, 5),
        Err(DownloadError::PartialFailure { failed_count: 2, total_count: 5, first_message: "first".to_string() })
    );
    let tasks = vec![
        DownloadTask::new("u", "d", "l").with_size(10),
        DownloadTask::new("u", "d", "l"),
        DownloadTask::new("u", "d", "l").with_size(5),
    ];
    assert_eq!(total_expected_bytes(&tasks), 15);
    assert_eq!(effective_concurrency(0), 1);
    assert_eq!(effective_concurrency(12), 12);
}

#[test]
fn error_messages_match_the_user_facing_text() {
    assert_eq!(DownloadError::Cancelled.message(), "download was cancelled");
    assert_eq!(
        DownloadError::Request { url: "u".to_string(), cause: "x".to_string() }.message(),
        "network request failed for u"
    );
    assert_eq!(
        DownloadError::Io { label: "l".to_string(), cause: "x".to_string() }.message(),
        "filesystem error while downloading l"
    );
    assert_eq!(
        DownloadError::ChecksumMismatch { label: "l".to_string(), expected: "a".to_string(), actual: "b".to_string() }
            .message(),
        "checksum mismatch for l: expected a, got b"
    );
    assert_eq!(
        DownloadError::RetriesExhausted { label: "l".to_string(), attempts: 4, last_error: "e".to_string() }.message(),
        "l failed after 4 attempts: e"
    );
    assert_eq!(
        DownloadError::PartialFailure { failed_count: 2, total_count: 10, first_message: "m".to_string() }.message(),
        "2 of 10 downloads failed; first error: m"
    );
}
