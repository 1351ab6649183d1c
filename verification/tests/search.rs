use text_grep::orchestrator::FailReason;
use text_grep::FileContent;
use text_grep::FileInput;
use text_grep::SearchResult;
use text_grep::TextGrep;
use tokio_util::sync::CancellationToken;

fn run_one(
    patterns: &[&str],
    data: &[u8],
    chunk_size: usize,
    case_sensitive: bool,
) -> SearchResult {
    let patterns: Vec<String> = patterns.iter().map(|p| p.to_string()).collect();
    let files = vec![FileInput {
        path: "input.txt".to_string(),
        content: FileContent::Text(data.to_vec()),
    }];
    let grep = TextGrep::new();
    let cancel = CancellationToken::new();
    let mut results = grep
        .count_occurrences(&patterns, &files, chunk_size, case_sensitive, &cancel)
        .expect("patterns should compile");
    assert_eq!(results.len(), 1);
    results.remove(0)
}

fn counts_of(result: &SearchResult) -> Vec<(String, usize)> {
    assert!(result.error.is_none(), "expected a successful outcome");
    result
        .pattern_counts
        .iter()
        .map(|pc| (pc.pattern.clone(), pc.count))
        .collect()
}

#[test]
fn case_sensitive_counts_exact_text_only() {
    let result = run_one(&["foo"], b"Foo\nfoo\n", 4096, true);
    assert_eq!(counts_of(&result), vec![("foo".to_string(), 1)]);
}

#[test]
fn case_insensitive_counts_both_spellings() {
    let result = run_one(&["foo"], b"Foo\nfoo\n", 4096, false);
    assert_eq!(counts_of(&result), vec![("foo".to_string(), 2)]);
}

#[test]
fn counts_occurrences_not_lines() {
    let result = run_one(&["ab"], b"ababab\n", 4096, true);
    assert_eq!(counts_of(&result), vec![("ab".to_string(), 3)]);
}

#[test]
fn empty_file_maps_every_pattern_to_zero() {
    let result = run_one(&["x", "yz"], b"", 4096, true);
    assert_eq!(
        counts_of(&result),
        vec![("x".to_string(), 0), ("yz".to_string(), 0)]
    );
}

#[test]
fn empty_file_succeeds_even_under_cancellation() {
    let patterns: Vec<String> = vec!["a".to_string(), "b".to_string()];
    let files = vec![FileInput {
        path: "empty.txt".to_string(),
        content: FileContent::Text(Vec::new()),
    }];
    let grep = TextGrep::new();
    let cancel = CancellationToken::new();
    cancel.cancel();
    let results = grep
        .count_occurrences(&patterns, &files, 4096, true, &cancel)
        .unwrap();
    assert!(results[0].error.is_none());
    assert_eq!(results[0].pattern_counts.len(), 2);
    assert!(results[0].pattern_counts.iter().all(|pc| pc.count == 0));
}

#[test]
fn totals_are_chunk_size_invariant() {
    let data: &[u8] = b"needle one needle\nno match here\nneedleneedle\nneedle\n";
    let mut seen = Vec::new();
    for chunk_size in [1, 7, 4096, data.len() + 1] {
        let result = run_one(&["needle", "one"], data, chunk_size, true);
        seen.push(counts_of(&result));
    }
    for counts in &seen {
        assert_eq!(
            *counts,
            vec![("needle".to_string(), 5), ("one".to_string(), 1)]
        );
    }
}

#[test]
fn per_chunk_partial_counts_add_up() {
    let patterns: Vec<String> = vec!["ab".to_string()];
    let compiled = text_grep::matcher::compile_patterns(&patterns, true).unwrap();
    let data: Vec<u8> = b"ab\nabab\nxx\nab\n".to_vec();

    let whole = text_grep::worker::match_chunk(&compiled, &data).unwrap();

    let mut reader = text_grep::chunks::ChunkReader::new();
    let mut summed: usize = 0;
    let mut chunks_seen: usize = 0;
    while let Some(chunk) = reader.next(&data, 3) {
        let partial = text_grep::worker::match_chunk(&compiled, &chunk).unwrap();
        summed += partial[0];
        chunks_seen += 1;
    }
    assert!(chunks_seen > 1, "the input should split into several chunks");
    assert_eq!(summed, whole[0]);
    assert_eq!(whole[0], 4);
}

#[test]
fn chunks_end_on_line_terminators_and_rejoin_exactly() {
    let data: Vec<u8> = b"aaa\nbb\ncccc\ndd".to_vec();
    let mut reader = text_grep::chunks::ChunkReader::new();
    let mut rejoined: Vec<u8> = Vec::new();
    let mut chunks: Vec<Vec<u8>> = Vec::new();
    while let Some(chunk) = reader.next(&data, 4) {
        assert!(!chunk.is_empty());
        rejoined.extend_from_slice(&chunk);
        chunks.push(chunk);
    }
    assert_eq!(rejoined, data);
    for chunk in &chunks[..chunks.len() - 1] {
        assert_eq!(*chunk.last().unwrap(), b'\n');
    }
}

#[test]
fn reader_grows_past_requested_size_to_reach_a_terminator() {
    let data: Vec<u8> = b"aaaaa\nbb\n".to_vec();
    let mut reader = text_grep::chunks::ChunkReader::new();
    let first = reader.next(&data, 2).unwrap();
    assert_eq!(first, b"aaaaa\n".to_vec());
    let second = reader.next(&data, 2).unwrap();
    assert_eq!(second, b"bb\n".to_vec());
    assert!(reader.next(&data, 2).is_none());
}

#[test]
fn non_text_file_is_skipped_with_not_text_reason() {
    let patterns: Vec<String> = vec!["foo".to_string()];
    let files = vec![FileInput {
        path: "binary.bin".to_string(),
        content: FileContent::NotText,
    }];
    let grep = TextGrep::new();
    let cancel = CancellationToken::new();
    let results = grep
        .count_occurrences(&patterns, &files, 4096, true, &cancel)
        .unwrap();
    assert_eq!(results.len(), 1);
    assert_eq!(results[0].file_path, "binary.bin");
    assert!(matches!(results[0].error, Some(FailReason::NotText)));
    assert!(results[0].pattern_counts.is_empty());
}

#[test]
fn unreadable_file_reports_io_failure_with_message() {
    let patterns: Vec<String> = vec!["foo".to_string()];
    let files = vec![FileInput {
        path: "gone.txt".to_string(),
        content: FileContent::Unreadable("permission denied".to_string()),
    }];
    let grep = TextGrep::new();
    let cancel = CancellationToken::new();
    let results = grep
        .count_occurrences(&patterns, &files, 4096, true, &cancel)
        .unwrap();
    assert_eq!(results.len(), 1);
    match &results[0].error {
        Some(FailReason::IoFailure(msg)) => assert_eq!(msg, "permission denied"),
        other => panic!("expected IoFailure, got {:?}", other),
    }
}

#[test]
fn cancellation_before_start_fails_every_text_file() {
    let patterns: Vec<String> = vec!["foo".to_string()];
    let files = vec![
        FileInput {
            path: "a.txt".to_string(),
            content: FileContent::Text(b"foo\n".to_vec()),
        },
        FileInput {
            path: "b.txt".to_string(),
            content: FileContent::Text(b"foo foo\n".to_vec()),
        },
    ];
    let grep = TextGrep::new();
    let cancel = CancellationToken::new();
    cancel.cancel();
    let results = grep
        .count_occurrences(&patterns, &files, 4096, true, &cancel)
        .unwrap();
    assert_eq!(results.len(), 2);
    for result in &results {
        assert!(matches!(result.error, Some(FailReason::Cancelled)));
        assert!(result.pattern_counts.is_empty());
    }
}

#[test]
fn without_cancellation_every_file_succeeds() {
    let patterns: Vec<String> = vec!["foo".to_string()];
    let files = vec![
        FileInput {
            path: "a.txt".to_string(),
            content: FileContent::Text(b"foo\n".to_vec()),
        },
        FileInput {
            path: "b.txt".to_string(),
            content: FileContent::Text(b"foo foo\n".to_vec()),
        },
    ];
    let grep = TextGrep::new();
    let cancel = CancellationToken::new();
    let results = grep
        .count_occurrences(&patterns, &files, 4096, true, &cancel)
        .unwrap();
    assert_eq!(results.len(), 2);
    assert_eq!(results[0].pattern_counts[0].count, 1);
    assert_eq!(results[1].pattern_counts[0].count, 2);
}

#[test]
fn invalid_pattern_fails_the_whole_request() {
    let patterns: Vec<String> = vec!["fine".to_string(), "(".to_string()];
    let files = vec![FileInput {
        path: "a.txt".to_string(),
        content: FileContent::Text(b"fine\n".to_vec()),
    }];
    let grep = TextGrep::new();
    let cancel = CancellationToken::new();
    let outcome = grep.count_occurrences(&patterns, &files, 4096, true, &cancel);
    assert!(outcome.is_err());
}

#[test]
fn matcher_error_on_invalid_utf8_line_reports_match_failure() {
    let mut data: Vec<u8> = b"foo".to_vec();
    data.push(0x80);
    data.extend_from_slice(b"\n");
    let patterns: Vec<String> = vec!["foo".to_string()];
    let files = vec![FileInput {
        path: "bad.txt".to_string(),
        content: FileContent::Text(data),
    }];
    let grep = TextGrep::new();
    let cancel = CancellationToken::new();
    let results = grep
        .count_occurrences(&patterns, &files, 4096, true, &cancel)
        .unwrap();
    assert!(matches!(results[0].error, Some(FailReason::MatchFailure(_))));
    assert!(results[0].pattern_counts.is_empty());
}

#[test]
fn one_failing_file_does_not_disturb_the_others() {
    let patterns: Vec<String> = vec!["x".to_string()];
    let files = vec![
        FileInput {
            path: "bad.bin".to_string(),
            content: FileContent::NotText,
        },
        FileInput {
            path: "good.txt".to_string(),
            content: FileContent::Text(b"x x x\n".to_vec()),
        },
    ];
    let grep = TextGrep::new();
    let cancel = CancellationToken::new();
    let results = grep
        .count_occurrences(&patterns, &files, 4096, true, &cancel)
        .unwrap();
    assert!(matches!(results[0].error, Some(FailReason::NotText)));
    assert!(results[1].error.is_none());
    assert_eq!(results[1].pattern_counts[0].count, 3);
}

#[test]
fn duplicated_patterns_are_independent_equal_counters() {
    let result = run_one(&["ab", "ab"], b"ab ab\n", 4096, true);
    assert_eq!(
        counts_of(&result),
        vec![("ab".to_string(), 2), ("ab".to_string(), 2)]
    );
}

#[test]
fn final_line_without_terminator_still_counts() {
    let result = run_one(&["ab"], b"ab\nab", 3, true);
    assert_eq!(counts_of(&result), vec![("ab".to_string(), 2)]);
}

#[test]
fn fold_order_does_not_change_totals() {
    let first = vec![1usize, 4, 0];
    let second = vec![2usize, 0, 5];
    let mut forward = vec![0usize, 0, 0];
    text_grep::worker::fold_counts(&mut forward, &first);
    text_grep::worker::fold_counts(&mut forward, &second);
    let mut backward = vec![0usize, 0, 0];
    text_grep::worker::fold_counts(&mut backward, &second);
    text_grep::worker::fold_counts(&mut backward, &first);
    assert_eq!(forward, backward);
    assert_eq!(forward, vec![3, 4, 5]);
}

#[test]
fn default_request_api_behaves_like_new() {
    let grep = TextGrep::default();
    let patterns: Vec<String> = vec!["a".to_string()];
    let files = vec![FileInput {
        path: "a.txt".to_string(),
        content: FileContent::Text(b"a\n".to_vec()),
    }];
    let cancel = CancellationToken::new();
    let results = grep
        .count_occurrences(&patterns, &files, 1, true, &cancel)
        .unwrap();
    assert_eq!(results[0].pattern_counts[0].count, 1);
}

#[test]
fn regex_patterns_filter_lines_but_count_literal_text() {
    // The engine decides which lines match; the count is of the pattern's
    // literal text within those lines.
    let result = run_one(&["a.c"], b"abc a.c\nzzz\n", 4096, true);
    assert_eq!(counts_of(&result), vec![("a.c".to_string(), 1)]);
}
