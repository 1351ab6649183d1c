//! Counts total occurrences (not merely matching lines) of a set of
//! patterns across a set of text files, processing each file in bounded,
//! line-aligned chunks: a chunk boundary never splits a line, so per-chunk
//! counts add up to the file's totals whatever the chunk size.
//!
//! The regex engine, the line-oriented searcher and the cancellation token
//! are external collaborators, reached only through the trusted wrappers in
//! `matcher`; the chunking, counting, aggregation and orchestration around
//! them are verified.

pub mod chunks;
pub mod count;
pub mod matcher;
pub mod orchestrator;
pub mod worker;

use vstd::prelude::*;
use vstd::utf8::encode_utf8;
use crate::chunks::buffer_count;
use crate::chunks::buffer_search_ok;
use crate::matcher::compile_patterns;
use crate::matcher::pattern_compiles;
use crate::orchestrator::FailReason;
use crate::orchestrator::process_content;

verus! {

/// What the host hands the library for one requested file: the file's
/// bytes when the text-classification collaborator accepted it and reading
/// succeeded, or the reason there are none. Classification and I/O happen
/// at the edge, once per file; everything after is decided here.
#[derive(Debug)]
pub enum FileContent {
    /// The file's bytes, read in full.
    Text(Vec<u8>),
    /// The text-classification collaborator rejected the file.
    NotText,
    /// Reading failed; the payload is the underlying error's text.
    Unreadable(String),
}

/// One requested file: its path, kept for reporting, and what was read.
#[derive(Debug)]
pub struct FileInput {
    pub path: String,
    pub content: FileContent,
}

/// One pattern's total for one file.
#[derive(Debug)]
pub struct PatternCount {
    /// The pattern's text, as requested.
    pub pattern: String,
    /// Total occurrences over the whole file.
    pub count: usize,
}

/// Terminal per-file outcome: on success one count per requested pattern,
/// in the request's order (a duplicated pattern is an independent entry
/// with an equal count); on failure the reason, and no counts — a
/// cancelled or failed file never reports a partial total.
#[derive(Debug)]
pub struct SearchResult {
    pub file_path: String,
    pub pattern_counts: Vec<PatternCount>,
    pub error: Option<FailReason>,
}

/// The counts a successful outcome owes: one entry per requested pattern,
/// carrying the pattern's text and its total over the file's bytes.
pub open spec fn counts_correct(
    counts: Seq<PatternCount>,
    patterns: Seq<String>,
    case_sensitive: bool,
    data: Seq<u8>,
) -> bool {
    &&& counts.len() == patterns.len()
    &&& forall|k: int|
        0 <= k < patterns.len() ==> counts[k].pattern@ == patterns[k]@ && counts[k].count
            == buffer_count(encode_utf8(patterns[k]@), case_sensitive, data)
}

/// What the result owes for one requested file: the file's own path; on
/// success exact totals, with the search certified to complete on every
/// line — and an empty file always succeeds; `NotText` and `IoFailure`
/// passed through for files the edge could not provide; and otherwise only
/// the observed cancellation, or the matcher's own error where its search
/// really does not complete on some line of the file for some requested
/// pattern.
pub open spec fn outcome_matches(
    res: SearchResult,
    file: FileInput,
    patterns: Seq<String>,
    case_sensitive: bool,
) -> bool {
    &&& res.file_path@ == file.path@
    &&& match file.content {
        FileContent::Text(d) => match res.error {
            Option::None => counts_correct(res.pattern_counts@, patterns, case_sensitive, d@)
                && (forall|k: int|
                0 <= k < patterns.len() ==> buffer_search_ok(
                    encode_utf8(patterns[k]@),
                    case_sensitive,
                    d@,
                )),
            Option::Some(e) => d@.len() > 0 && res.pattern_counts@.len() == 0 && (e is Cancelled
                || (e is MatchFailure && (exists|k: int|
                    0 <= k < patterns.len() && !buffer_search_ok(
                        encode_utf8(patterns[k]@),
                        case_sensitive,
                        d@,
                    )))),
        },
        FileContent::NotText => (res.error matches Option::Some(e) && e is NotText)
            && res.pattern_counts@.len() == 0,
        FileContent::Unreadable(m) => (res.error matches Option::Some(e) && (e matches
        FailReason::IoFailure(t) && t@ == m@)) && res.pattern_counts@.len() == 0,
    }
}

/// The request API.
pub struct TextGrep;

impl Default for TextGrep {
    fn default() -> (r: TextGrep)
        ensures
            r == TextGrep,
    {
        TextGrep::new()
    }
}

impl TextGrep {
    pub fn new() -> (r: TextGrep)
        ensures
            r == TextGrep,
    {
        TextGrep
    }

    /// Run one request: compile every pattern once, then produce exactly
    /// one outcome per requested file, in the request's order. The whole
    /// request fails, with the engine's message, exactly when some pattern
    /// does not compile; every per-file error is isolated to that file's
    /// outcome.
    pub fn count_occurrences(
        &self,
        patterns: &Vec<String>,
        files: &Vec<FileInput>,
        chunk_size: usize,
        case_sensitive: bool,
        cancel: &tokio_util::sync::CancellationToken,
    ) -> (r: Result<Vec<SearchResult>, String>)
        requires
            1 <= chunk_size,
        ensures
            r is Ok <==> (forall|j: int|
                0 <= j < patterns@.len() ==> pattern_compiles(
                    encode_utf8(patterns@[j]@),
                    case_sensitive,
                )),
            r matches Ok(results) ==> results@.len() == files@.len() && (forall|i: int|
                0 <= i < files@.len() ==> outcome_matches(
                    results@[i],
                    files@[i],
                    patterns@,
                    case_sensitive,
                )),
    {
        let compiled = match compile_patterns(patterns, case_sensitive) {
            Err(e) => {
                return Err(e);
            },
            Ok(c) => c,
        };
        let mut results: Vec<SearchResult> = Vec::new();
        let mut i: usize = 0;
        while i < files.len()
            invariant
                i <= files@.len(),
                1 <= chunk_size,
                results@.len() == i,
                compiled@.len() == patterns@.len(),
                forall|j: int|
                    0 <= j < patterns@.len() ==> compiled@[j].text() == encode_utf8(patterns@[j]@)
                        && compiled@[j].cs() == case_sensitive,
                forall|m: int|
                    0 <= m < i ==> outcome_matches(results@[m], files@[m], patterns@, case_sensitive),
            decreases files@.len() - i,
        {
            let f = &files[i];
            let outcome: SearchResult = match &f.content {
                FileContent::NotText => SearchResult {
                    file_path: f.path.clone(),
                    pattern_counts: Vec::new(),
                    error: Some(FailReason::NotText),
                },
                FileContent::Unreadable(m) => SearchResult {
                    file_path: f.path.clone(),
                    pattern_counts: Vec::new(),
                    error: Some(FailReason::IoFailure(m.clone())),
                },
                FileContent::Text(d) => match process_content(&compiled, d, chunk_size, cancel) {
                    Err(reason) => {
                        proof {
                            if reason is MatchFailure {
                                assert(exists|k: int|
                                    0 <= k < compiled@.len() && !buffer_search_ok(
                                        compiled@[k].text(),
                                        compiled@[k].cs(),
                                        d@,
                                    ));
                                let k0 = choose|k: int|
                                    0 <= k < compiled@.len() && !buffer_search_ok(
                                        compiled@[k].text(),
                                        compiled@[k].cs(),
                                        d@,
                                    );
                                assert(0 <= k0 < patterns@.len() && !buffer_search_ok(
                                    encode_utf8(patterns@[k0]@),
                                    case_sensitive,
                                    d@,
                                ));
                            }
                        }
                        SearchResult {
                            file_path: f.path.clone(),
                            pattern_counts: Vec::new(),
                            error: Some(reason),
                        }
                    },
                    Ok(v) => {
                        proof {
                            assert forall|k: int| 0 <= k < patterns@.len() implies
                                buffer_search_ok(
                                encode_utf8(patterns@[k]@),
                                case_sensitive,
                                d@,
                            ) by {
                                assert(compiled@[k].text() == encode_utf8(patterns@[k]@));
                            }
                        }
                        let mut pattern_counts: Vec<PatternCount> = Vec::new();
                        let mut k: usize = 0;
                        while k < patterns.len()
                            invariant
                                k <= patterns@.len(),
                                compiled@.len() == patterns@.len(),
                                v@.len() == patterns@.len(),
                                pattern_counts@.len() == k,
                                forall|j: int|
                                    0 <= j < patterns@.len() ==> compiled@[j].text()
                                        == encode_utf8(patterns@[j]@) && compiled@[j].cs()
                                        == case_sensitive,
                                forall|j: int|
                                    0 <= j < patterns@.len() ==> v@[j] == buffer_count(
                                        compiled@[j].text(),
                                        compiled@[j].cs(),
                                        d@,
                                    ),
                                forall|m: int|
                                    0 <= m < k ==> pattern_counts@[m].pattern@ == patterns@[m]@
                                        && pattern_counts@[m].count == buffer_count(
                                        encode_utf8(patterns@[m]@),
                                        case_sensitive,
                                        d@,
                                    ),
                            decreases patterns@.len() - k,
                        {
                            pattern_counts.push(
                                PatternCount { pattern: patterns[k].clone(), count: v[k] },
                            );
                            k = k + 1;
                        }
                        SearchResult { file_path: f.path.clone(), pattern_counts, error: None }
                    },
                },
            };
            results.push(outcome);
            i = i + 1;
        }
        Ok(results)
    }
}

} // verus!
