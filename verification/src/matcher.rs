//! The pattern-matching collaborator and the cancellation signal.
//!
//! The regex engine (`grep_regex`) and the line-oriented searcher
//! (`grep_searcher`) are external collaborators: the library reaches them
//! only through the trusted wrappers below. What the engine decides for a
//! line is named by `regex_line_match`; everything built on top of it is
//! verified.

use vstd::prelude::*;

verus! {

#[verifier::external_type_specification]
#[verifier::external_body]
pub struct ExRegexMatcher(grep_regex::RegexMatcher);

#[verifier::external_type_specification]
#[verifier::external_body]
pub struct ExCancellationToken(tokio_util::sync::CancellationToken);

/// Whether `grep_regex::RegexMatcherBuilder::build` accepts this pattern
/// text under this case sensitivity; compilation is deterministic in both.
pub uninterp spec fn pattern_compiles(pattern: Seq<u8>, case_sensitive: bool) -> bool;

/// Whether the regex built from this pattern text matches somewhere in the
/// given line; the matcher's answer depends on the arguments alone.
pub uninterp spec fn regex_line_match(pattern: Seq<u8>, case_sensitive: bool, line: Seq<u8>) -> bool;

/// Whether the line-oriented search of this line completes normally (it
/// fails when a matching line is not valid UTF-8); a fresh default searcher
/// is deterministic, so the outcome depends on the arguments alone.
pub uninterp spec fn line_search_ok(pattern: Seq<u8>, case_sensitive: bool, line: Seq<u8>) -> bool;

/// A pattern's text together with the matcher handle built from it and the
/// case-sensitivity flag; never mutated after construction, so it may be
/// shared read-only across all files and chunks of one request.
pub struct CompiledPattern {
    pattern: Vec<u8>,
    case_sensitive: bool,
    handle: grep_regex::RegexMatcher,
}

/// Record that the searcher reported a matching line.
fn note_match(found: &mut bool)
    ensures
        *final(found) == true,
{
    *found = true;
}

impl CompiledPattern {
    /// The pattern's text, as bytes.
    pub closed spec fn text(self) -> Seq<u8> {
        self.pattern@
    }

    /// The case sensitivity the handle was built with.
    pub closed spec fn cs(self) -> bool {
        self.case_sensitive
    }

    /// The case-sensitivity flag, for executable callers.
    pub(crate) fn flag(&self) -> (r: bool)
        ensures
            r == self.cs(),
    {
        self.case_sensitive
    }

    /// The pattern's bytes, for executable callers.
    pub(crate) fn text_bytes(&self) -> (r: &Vec<u8>)
        ensures
            r@ == self.text(),
    {
        &self.pattern
    }

    /// Relies on `grep_regex::RegexMatcherBuilder`: `build` compiles the
    /// pattern text into a matcher, honouring `case_insensitive`, and fails
    /// exactly on text that is not a well-formed expression; and on
    /// `str::as_bytes` for the pattern's bytes.
    #[verifier::external_body]
    pub(crate) fn compile(pattern: &String, case_sensitive: bool) -> (r: Result<CompiledPattern, String>)
        ensures
            r is Ok <==> pattern_compiles(vstd::utf8::encode_utf8(pattern@), case_sensitive),
            r matches Ok(p) ==> p.text() == vstd::utf8::encode_utf8(pattern@)
                && p.cs() == case_sensitive,
    {
        let built = grep_regex::RegexMatcherBuilder::new()
            .case_insensitive(!case_sensitive)
            .build(pattern.as_str());
        match built {
            Ok(handle) => Ok(CompiledPattern {
                pattern: pattern.as_bytes().to_vec(),
                case_sensitive,
                handle,
            }),
            Err(e) => Err(e.to_string()),
        }
    }

    /// Relies on `grep_searcher::Searcher::search_slice`: runs the
    /// line-oriented search over the given bytes and hands every matching
    /// line to the `UTF8` sink, which fails exactly when a matching line is
    /// not valid UTF-8; a fresh default searcher decides both the matches
    /// and that failure from the pattern, the flag and the bytes alone.
    #[verifier::external_body]
    pub(crate) fn search_line(&self, line: &Vec<u8>) -> (r: Result<bool, String>)
        ensures
            r is Ok <==> line_search_ok(self.text(), self.cs(), line@),
            r matches Ok(b) ==> b == regex_line_match(self.text(), self.cs(), line@),
    {
        let mut found = false;
        let mut searcher = grep_searcher::Searcher::new();
        let outcome = searcher.search_slice(
            &self.handle,
            line.as_slice(),
            grep_searcher::sinks::UTF8(|_, _| {
                note_match(&mut found);
                Ok(true)
            }),
        );
        match outcome {
            Ok(()) => Ok(found),
            Err(e) => Err(e.to_string()),
        }
    }
}

pub assume_specification[ tokio_util::sync::CancellationToken::is_cancelled ](
    t: &tokio_util::sync::CancellationToken,
) -> bool;

/// Compile every pattern of a request once, to be shared read-only across
/// all files and chunks. Fails, with the engine's message, exactly when
/// some pattern is not a well-formed expression; no file is processed then.
pub fn compile_patterns(patterns: &Vec<String>, case_sensitive: bool) -> (r: Result<
    Vec<CompiledPattern>,
    String,
>)
    ensures
        r is Ok <==> (forall|j: int|
            0 <= j < patterns@.len() ==> pattern_compiles(
                vstd::utf8::encode_utf8(patterns@[j]@),
                case_sensitive,
            )),
        r matches Ok(v) ==> v@.len() == patterns@.len() && (forall|j: int|
            0 <= j < patterns@.len() ==> v@[j].text() == vstd::utf8::encode_utf8(patterns@[j]@)
                && v@[j].cs() == case_sensitive),
{
    let mut compiled: Vec<CompiledPattern> = Vec::new();
    let mut j: usize = 0;
    while j < patterns.len()
        invariant
            j <= patterns@.len(),
            compiled@.len() == j,
            forall|m: int|
                0 <= m < j ==> compiled@[m].text() == vstd::utf8::encode_utf8(patterns@[m]@)
                    && compiled@[m].cs() == case_sensitive,
            forall|m: int|
                0 <= m < j ==> pattern_compiles(
                    vstd::utf8::encode_utf8(patterns@[m]@),
                    case_sensitive,
                ),
        decreases patterns@.len() - j,
    {
        match CompiledPattern::compile(&patterns[j], case_sensitive) {
            Err(e) => {
                return Err(e);
            },
            Ok(p) => {
                compiled.push(p);
            },
        }
        j = j + 1;
    }
    Ok(compiled)
}

} // verus!
