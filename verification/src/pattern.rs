//! Include/exclude path patterns: literal path prefixes and ripgrep-style globs.
use vstd::prelude::*;

use crate::errors::{EngineError, EngineErrorModel};
use crate::glob::{glob_build_error, glob_matches, CompiledGlob, MAX_GLOB_CHARS};
use crate::text::{append_chars, append_str, chars_of, debug_quoted, debug_str, is_prefix, string_of, trim, trim_chars, trim_end, trim_start};

verus! {

/// `s` with every `\` turned into `/`.
pub open spec fn forward_slashes(s: Seq<char>) -> Seq<char> {
    Seq::new(s.len(), |i: int| if s[i] == '\\' { '/' } else { s[i] })
}

/// `s` with every run of `/` collapsed to a single `/`.
pub open spec fn collapsed(s: Seq<char>) -> Seq<char>
    decreases s.len(),
{
    if s.len() == 0 {
        s
    } else {
        let rest = collapsed(s.drop_last());
        if s.last() == '/' && s.len() >= 2 && s[s.len() - 2] == '/' {
            rest
        } else {
            rest.push(s.last())
        }
    }
}

/// `s` with leading `./` segments removed, one after the other.
pub open spec fn strip_dot_slashes(s: Seq<char>) -> Seq<char>
    decreases s.len(),
{
    if s.len() >= 2 && s[0] == '.' && s[1] == '/' {
        strip_dot_slashes(s.subrange(2, s.len() as int))
    } else {
        s
    }
}

/// Whether a character is an ASCII letter.
pub open spec fn is_ascii_letter(c: char) -> bool {
    ('a' <= c && c <= 'z') || ('A' <= c && c <= 'Z')
}

/// Whether a normalized pattern is absolute: `/...` or a drive such as `C:/...`.
pub open spec fn is_absolute_spec(s: Seq<char>) -> bool {
    (s.len() > 0 && s[0] == '/') || (s.len() >= 3 && is_ascii_letter(s[0]) && s[1] == ':' && s[2] == '/')
}

/// The normal form of a pattern: trimmed, forward slashes, no repeated
/// slashes, and (when relative) no leading `./`.
pub open spec fn normalize_pattern_spec(pattern: Seq<char>) -> Seq<char> {
    let c = collapsed(forward_slashes(trim(pattern)));
    if is_absolute_spec(c) {
        c
    } else {
        strip_dot_slashes(c)
    }
}

/// The normal form of a path that a pattern is matched against.
pub open spec fn for_match(path: Seq<char>) -> Seq<char> {
    collapsed(forward_slashes(path))
}

/// Whether a pattern holds glob syntax (`*`, `?` or `[`).
pub open spec fn has_glob_spec(s: Seq<char>) -> bool {
    s.contains('*') || s.contains('?') || s.contains('[')
}

/// The index of the first `*` or `?` in `s`, or its length.
pub open spec fn first_wildcard(s: Seq<char>) -> int
    decreases s.len(),
{
    if s.len() == 0 {
        0
    } else {
        let before = first_wildcard(s.drop_last());
        if before < s.len() - 1 {
            before
        } else if s.last() == '*' || s.last() == '?' {
            s.len() - 1
        } else {
            s.len() as int
        }
    }
}

/// The literal text of a glob before its first `*` or `?`.
pub open spec fn literal_prefix_spec(s: Seq<char>) -> Seq<char> {
    s.subrange(0, first_wildcard(s))
}

/// The glob handed to `globset`: a pattern without `/` (other than `**`)
/// matches at any depth.
pub open spec fn compiled_glob_spec(pattern: Seq<char>) -> Seq<char> {
    if !pattern.contains('/') && pattern != "**"@ {
        "**/"@ + pattern
    } else {
        pattern
    }
}

/// Whether a literal (non-glob) pattern names `candidate` or one of its ancestors.
pub open spec fn literal_matches(expected: Seq<char>, candidate: Seq<char>) -> bool {
    let prefix = if expected.len() > 0 && expected.last() == '/' { expected } else { expected.push('/') };
    candidate == expected || is_prefix(prefix, candidate)
}

/// Whether a pattern ending in `/**` also matches the directory itself.
pub open spec fn matches_directory_itself_spec(normalized: Seq<char>, case_insensitive: bool, path: Seq<char>) -> bool {
    let n = normalized.len();
    if n >= 3 && normalized.subrange(n - 3, n as int) == "/**"@ {
        let glob = compiled_glob_spec(normalized.subrange(0, n - 3));
        glob_build_error(glob, case_insensitive) is None && glob_matches(glob, case_insensitive, path)
    } else {
        false
    }
}

/// The mathematical form of a [`PathPattern`].
pub struct PathPatternModel {
    pub normalized: Seq<char>,
    pub glob: Option<Seq<char>>,
    pub case_insensitive: bool,
}

/// Whether the pattern `p` matches `path`.
pub open spec fn pattern_matches(p: PathPatternModel, path: Seq<char>) -> bool {
    let candidate = for_match(path);
    match p.glob {
        Some(glob) => glob_matches(glob, p.case_insensitive, candidate)
            || matches_directory_itself_spec(p.normalized, p.case_insensitive, candidate),
        None => if p.case_insensitive {
            literal_matches(lowercase(p.normalized), lowercase(candidate))
        } else {
            literal_matches(p.normalized, candidate)
        },
    }
}

/// Whether one variant of a pattern could still match below `directory_prefix`.
pub open spec fn variant_might_match(variant: Seq<char>, directory_prefix: Seq<char>) -> bool {
    if !has_glob_spec(variant) {
        is_prefix(directory_prefix, variant)
    } else {
        let literal = literal_prefix_spec(variant);
        literal.len() > 0 && (is_prefix(directory_prefix, literal) || is_prefix(literal, directory_prefix))
    }
}

/// Whether the literal part of `pattern` (or of it without a leading `**/`)
/// could lead below `directory`.
pub open spec fn prefix_might_match_spec(pattern: Seq<char>, directory: Seq<char>) -> bool {
    let directory_prefix = directory.push('/');
    variant_might_match(pattern, directory_prefix)
        || (is_prefix("**/"@, pattern) && variant_might_match(pattern.subrange(3, pattern.len() as int), directory_prefix))
}

/// `s` without its trailing `/` characters.
pub open spec fn trim_end_slashes(s: Seq<char>) -> Seq<char>
    decreases s.len(),
{
    if s.len() > 0 && s.last() == '/' {
        trim_end_slashes(s.drop_last())
    } else {
        s
    }
}

/// The probe path that stands for "something inside `directory`".
pub open spec fn descendant_probe(directory: Seq<char>) -> Seq<char> {
    directory + "/__zvec_grep_descendant__"@
}

/// Whether `p` could match `directory_path` or anything below it.
pub open spec fn might_match_descendant_spec(p: PathPatternModel, directory_path: Seq<char>) -> bool {
    let directory = trim_end_slashes(for_match(directory_path));
    directory.len() == 0 || pattern_matches(p, directory) || pattern_matches(p, descendant_probe(directory))
        || prefix_might_match_spec(p.normalized, directory)
}

/// Whether a file name is hidden: it starts with `.` and is neither `.` nor `..`.
pub open spec fn is_hidden_spec(name: Seq<char>) -> bool {
    name.len() > 0 && name[0] == '.' && name != "."@ && name != ".."@
}

/// Pruning never hides a path that the literal part of a glob leads to: when a path lies
/// below a directory (it starts with the directory and `/`) and starts with the text of the
/// pattern before its first wildcard, discovery may descend into that directory. Every path
/// a glob matches starts with that literal text, so a directory holding a match is never
/// pruned.
pub proof fn lemma_pruning_keeps_directories_of_matches(p: PathPatternModel, directory_path: Seq<char>, path: Seq<char>)
    requires
        has_glob_spec(p.normalized),
        literal_prefix_spec(p.normalized).len() > 0,
        is_prefix(trim_end_slashes(for_match(directory_path)).push('/'), path),
        is_prefix(literal_prefix_spec(p.normalized), path),
    ensures
        might_match_descendant_spec(p, directory_path),
{
    let directory = trim_end_slashes(for_match(directory_path));
    let dp = directory.push('/');
    let literal = literal_prefix_spec(p.normalized);
    if directory.len() > 0 {
        if literal.len() <= dp.len() {
            assert(dp.subrange(0, literal.len() as int) =~= path.subrange(0, literal.len() as int));
            assert(is_prefix(literal, dp));
        } else {
            assert(literal.subrange(0, dp.len() as int) =~= path.subrange(0, dp.len() as int));
            assert(is_prefix(dp, literal));
        }
        assert(variant_might_match(p.normalized, dp));
    }
}

/// The same for a pattern that starts with `**/`: a path below the directory that starts
/// with the text of the rest of the pattern before its first wildcard keeps the directory.
pub proof fn lemma_pruning_keeps_directories_of_deep_matches(p: PathPatternModel, directory_path: Seq<char>, path: Seq<char>)
    requires
        is_prefix("**/"@, p.normalized),
        has_glob_spec(p.normalized.subrange(3, p.normalized.len() as int)),
        literal_prefix_spec(p.normalized.subrange(3, p.normalized.len() as int)).len() > 0,
        is_prefix(trim_end_slashes(for_match(directory_path)).push('/'), path),
        is_prefix(literal_prefix_spec(p.normalized.subrange(3, p.normalized.len() as int)), path),
    ensures
        might_match_descendant_spec(p, directory_path),
{
    let directory = trim_end_slashes(for_match(directory_path));
    let dp = directory.push('/');
    let rest = p.normalized.subrange(3, p.normalized.len() as int);
    let literal = literal_prefix_spec(rest);
    if directory.len() > 0 {
        if literal.len() <= dp.len() {
            assert(dp.subrange(0, literal.len() as int) =~= path.subrange(0, literal.len() as int));
            assert(is_prefix(literal, dp));
        } else {
            assert(literal.subrange(0, dp.len() as int) =~= path.subrange(0, dp.len() as int));
            assert(is_prefix(dp, literal));
        }
        assert(variant_might_match(rest, dp));
    }
}

/// Unicode lowercase of a string (std `str::to_lowercase`).
pub uninterp spec fn lowercase(s: Seq<char>) -> Seq<char>;

/// `str::to_lowercase`. Claimed: the result is `lowercase` of the argument.
#[verifier::external_body]
fn to_lowercase(s: &str) -> (r: String)
    ensures
        r@ == lowercase(s@),
{
    s.to_lowercase()
}

/// A copy of a character sequence.
fn copy_chars(s: &[char]) -> (out: Vec<char>)
    ensures
        out@ == s@,
{
    let out = crate::text::slice_chars(s, 0, s.len());
    assert(s@.subrange(0, s@.len() as int) =~= s@);
    out
}

/// Whether two character sequences are equal.
fn same_chars(a: &[char], b: &[char]) -> (r: bool)
    ensures
        r == (a@ == b@),
{
    if a.len() != b.len() {
        return false;
    }
    let mut i: usize = 0;
    while i < a.len()
        invariant
            a@.len() == b@.len(),
            0 <= i <= a@.len(),
            forall|j: int| 0 <= j < i ==> a@[j] == b@[j],
        decreases a@.len() - i,
    {
        if a[i] != b[i] {
            return false;
        }
        i += 1;
    }
    assert(a@ =~= b@);
    true
}

/// Whether `s` starts with `prefix`.
fn starts_with_chars(s: &[char], prefix: &[char]) -> (r: bool)
    ensures
        r == is_prefix(prefix@, s@),
{
    if prefix.len() > s.len() {
        return false;
    }
    let mut i: usize = 0;
    while i < prefix.len()
        invariant
            prefix@.len() <= s@.len(),
            0 <= i <= prefix@.len(),
            forall|j: int| 0 <= j < i ==> s@[j] == prefix@[j],
        decreases prefix@.len() - i,
    {
        if s[i] != prefix[i] {
            assert(s@.subrange(0, prefix@.len() as int)[i as int] != prefix@[i as int]);
            return false;
        }
        i += 1;
    }
    assert(s@.subrange(0, prefix@.len() as int) =~= prefix@);
    true
}

/// Whether `s` contains `c`.
fn contains_char(s: &[char], c: char) -> (r: bool)
    ensures
        r == s@.contains(c),
{
    let mut i: usize = 0;
    while i < s.len()
        invariant
            0 <= i <= s@.len(),
            forall|j: int| 0 <= j < i ==> s@[j] != c,
        decreases s@.len() - i,
    {
        if s[i] == c {
            assert(s@[i as int] == c);
            return true;
        }
        i += 1;
    }
    false
}

/// Every `\` turned into `/`.
fn replace_backslashes(s: &[char]) -> (out: Vec<char>)
    ensures
        out@ == forward_slashes(s@),
{
    let mut out: Vec<char> = Vec::new();
    let mut i: usize = 0;
    while i < s.len()
        invariant
            0 <= i <= s@.len(),
            out@ =~= forward_slashes(s@.subrange(0, i as int)),
        decreases s@.len() - i,
    {
        let c = s[i];
        out.push(if c == '\\' { '/' } else { c });
        i += 1;
    }
    assert(s@.subrange(0, s@.len() as int) =~= s@);
    out
}

/// Collapses runs of `/` into a single `/`.
pub fn collapse_slashes(s: &[char]) -> (out: Vec<char>)
    ensures
        out@ == collapsed(s@),
{
    let mut out: Vec<char> = Vec::new();
    let mut previous_slash = false;
    let mut i: usize = 0;
    while i < s.len()
        invariant
            0 <= i <= s@.len(),
            out@ == collapsed(s@.subrange(0, i as int)),
            previous_slash == (i > 0 && s@[i - 1] == '/'),
        decreases s@.len() - i,
    {
        let c = s[i];
        proof {
            let t = s@.subrange(0, i + 1);
            assert(t.drop_last() =~= s@.subrange(0, i as int));
            assert(t.last() == c);
            if i >= 1 {
                assert(t[t.len() - 2] == s@[i - 1]);
            }
        }
        if c == '/' {
            if !previous_slash {
                out.push(c);
            }
            previous_slash = true;
        } else {
            out.push(c);
            previous_slash = false;
        }
        i += 1;
    }
    assert(s@.subrange(0, s@.len() as int) =~= s@);
    out
}

/// Whether a normalized pattern is absolute (`/...` or `C:/...`).
pub fn is_absolute_path_pattern(s: &[char]) -> (r: bool)
    ensures
        r == is_absolute_spec(s@),
{
    if s.len() > 0 && s[0] == '/' {
        return true;
    }
    s.len() >= 3 && (('a' <= s[0] && s[0] <= 'z') || ('A' <= s[0] && s[0] <= 'Z')) && s[1] == ':' && s[2] == '/'
}

/// Removes leading `./` segments.
fn strip_leading_dot_slashes(s: &[char]) -> (out: Vec<char>)
    ensures
        out@ == strip_dot_slashes(s@),
{
    let mut k: usize = 0;
    assert(s@.subrange(0, s@.len() as int) =~= s@);
    while s.len() - k >= 2 && s[k] == '.' && s[k + 1] == '/'
        invariant
            k <= s@.len(),
            strip_dot_slashes(s@.subrange(k as int, s@.len() as int)) == strip_dot_slashes(s@),
        decreases s@.len() - k,
    {
        let ghost t = s@.subrange(k as int, s@.len() as int);
        assert(t.subrange(2, t.len() as int) =~= s@.subrange(k + 2, s@.len() as int));
        k += 2;
    }
    let out = crate::text::slice_chars(s, k, s.len());
    proof {
        let t = s@.subrange(k as int, s@.len() as int);
        if t.len() >= 2 {
            assert(t[0] == s@[k as int] && t[1] == s@[k + 1]);
        }
    }
    out
}

/// The normal form of a path pattern.
pub fn normalize_path_pattern(pattern: &str) -> (out: Vec<char>)
    ensures
        out@ == normalize_pattern_spec(pattern@),
{
    let chars = chars_of(pattern);
    let trimmed = trim_chars(chars.as_slice());
    let forward = replace_backslashes(trimmed.as_slice());
    let normalized = collapse_slashes(forward.as_slice());
    if is_absolute_path_pattern(normalized.as_slice()) {
        normalized
    } else {
        strip_leading_dot_slashes(normalized.as_slice())
    }
}

/// The normal form of a path matched against a pattern.
fn normalize_path_for_match(path: &[char]) -> (out: Vec<char>)
    ensures
        out@ == for_match(path@),
{
    let forward = replace_backslashes(path);
    collapse_slashes(forward.as_slice())
}

/// Whether a pattern holds glob syntax (`*`, `?` or `[`).
pub fn has_path_glob(s: &[char]) -> (r: bool)
    ensures
        r == has_glob_spec(s@),
{
    contains_char(s, '*') || contains_char(s, '?') || contains_char(s, '[')
}

/// The literal text of a glob before its first `*` or `?`.
pub fn literal_prefix_before_first_glob(s: &[char]) -> (out: Vec<char>)
    ensures
        out@ == literal_prefix_spec(s@),
{
    let mut i: usize = 0;
    while i < s.len() && s[i] != '*' && s[i] != '?'
        invariant
            0 <= i <= s@.len(),
            forall|j: int| 0 <= j < i ==> s@[j] != '*' && s@[j] != '?',
        decreases s@.len() - i,
    {
        i += 1;
    }
    proof {
        lemma_first_wildcard(s@, i as int);
    }
    crate::text::slice_chars(s, 0, i)
}

/// `first_wildcard` is the first index holding `*` or `?`.
proof fn lemma_first_wildcard(s: Seq<char>, i: int)
    requires
        0 <= i <= s.len(),
        forall|j: int| 0 <= j < i ==> s[j] != '*' && s[j] != '?',
        i == s.len() || s[i] == '*' || s[i] == '?',
    ensures
        first_wildcard(s) == i,
    decreases s.len(),
{
    if s.len() > 0 {
        let t = s.drop_last();
        let k = if i < s.len() - 1 { i } else { s.len() - 1 };
        assert forall|j: int| 0 <= j < k implies t[j] != '*' && t[j] != '?' by {
            assert(t[j] == s[j]);
        }
        if k < t.len() {
            assert(t[k] == s[k]);
        }
        lemma_first_wildcard(t, k);
    }
}

/// The glob text handed to `globset` for a normalized pattern.
fn compiled_glob_text(pattern: &[char]) -> (out: Vec<char>)
    ensures
        out@ == compiled_glob_spec(pattern@),
{
    let is_double_star = pattern.len() == 2 && pattern[0] == '*' && pattern[1] == '*';
    proof {
        reveal_strlit("**");
        if pattern@ == "**"@ {
            assert(pattern@[0] == '*' && pattern@[1] == '*');
        }
        if is_double_star {
            assert(pattern@ =~= "**"@);
        }
    }
    if !contains_char(pattern, '/') && !is_double_star {
        let mut out: Vec<char> = Vec::new();
        append_str(&mut out, "**/");
        append_chars(&mut out, pattern);
        out
    } else {
        copy_chars(pattern)
    }
}

/// Builds the `globset` matcher for a normalized pattern, or the
/// invalid-input error naming the pattern.
fn compile_matcher(pattern: &[char], case_insensitive: bool) -> (r: Result<CompiledGlob, EngineError>)
    requires
        pattern@.len() <= MAX_PATTERN_CHARS,
    ensures
        match r {
            Ok(c) => glob_build_error(compiled_glob_spec(pattern@), case_insensitive) is None
                && c.glob_text() == compiled_glob_spec(pattern@) && c.ignores_case() == case_insensitive,
            Err(e) => glob_build_error(compiled_glob_spec(pattern@), case_insensitive) is Some
                && e@ == (EngineErrorModel::InvalidInput {
                    message: "invalid glob "@ + debug_quoted(pattern@) + ": "@
                        + glob_build_error(compiled_glob_spec(pattern@), case_insensitive)->0,
                }),
        },
{
    let compiled = compiled_glob_text(pattern);
    let text = string_of(&compiled);
    proof {
        reveal_strlit("**/");
        assert(compiled_glob_spec(pattern@).len() <= pattern@.len() + 3);
    }
    match CompiledGlob::compile(text.as_str(), case_insensitive) {
        Ok(c) => Ok(c),
        Err(reason) => {
            let shown = debug_str(string_of(&copy_chars(pattern)).as_str());
            let mut message: Vec<char> = Vec::new();
            append_str(&mut message, "invalid glob ");
            append_str(&mut message, shown.as_str());
            append_str(&mut message, ": ");
            append_str(&mut message, reason.as_str());
            let m = string_of(&message);
            Err(EngineError::invalid_input(m.as_str()))
        },
    }
}

/// The longest pattern, in characters, that can be built: the glob handed to
/// `globset` adds at most three characters and must stay within [`MAX_GLOB_CHARS`].
pub const MAX_PATTERN_CHARS: usize = 0x0FFF_FFF0;

/// `s` without the whitespace `str::trim_start` removes is no longer than `s`.
proof fn lemma_trim_start_len(s: Seq<char>)
    ensures
        trim_start(s).len() <= s.len(),
    decreases s.len(),
{
    if s.len() > 0 && crate::text::is_whitespace(s[0]) {
        lemma_trim_start_len(s.drop_first());
    }
}

proof fn lemma_trim_end_len(s: Seq<char>)
    ensures
        trim_end(s).len() <= s.len(),
    decreases s.len(),
{
    if s.len() > 0 && crate::text::is_whitespace(s.last()) {
        lemma_trim_end_len(s.drop_last());
    }
}

proof fn lemma_collapsed_len(s: Seq<char>)
    ensures
        collapsed(s).len() <= s.len(),
    decreases s.len(),
{
    if s.len() > 0 {
        lemma_collapsed_len(s.drop_last());
    }
}

proof fn lemma_strip_len(s: Seq<char>)
    ensures
        strip_dot_slashes(s).len() <= s.len(),
    decreases s.len(),
{
    if s.len() >= 2 && s[0] == '.' && s[1] == '/' {
        lemma_strip_len(s.subrange(2, s.len() as int));
    }
}

/// Normalizing a pattern never makes it longer.
proof fn lemma_normalized_len(pattern: Seq<char>)
    ensures
        normalize_pattern_spec(pattern).len() <= pattern.len(),
{
    lemma_trim_start_len(pattern);
    lemma_trim_end_len(trim_start(pattern));
    let c = collapsed(forward_slashes(trim(pattern)));
    lemma_collapsed_len(forward_slashes(trim(pattern)));
    lemma_strip_len(c);
}

/// A path pattern: a literal path prefix or a compiled glob.
#[derive(Debug)]
pub struct PathPattern {
    normalized: String,
    matcher: Option<CompiledGlob>,
    case_insensitive: bool,
}

impl View for PathPattern {
    type V = PathPatternModel;

    closed spec fn view(&self) -> PathPatternModel {
        PathPatternModel {
            normalized: self.normalized@,
            glob: match self.matcher {
                Some(m) => Some(m.glob_text()),
                None => None,
            },
            case_insensitive: self.case_insensitive,
        }
    }
}

/// The error for a pattern that normalizes to nothing.
pub open spec fn empty_pattern_error() -> EngineErrorModel {
    EngineErrorModel::InvalidInput { message: "glob pattern must not be empty"@ }
}

/// The glob a pattern is compiled to, if it is compiled at all.
pub open spec fn pattern_glob(normalized: Seq<char>, rg_semantics: bool) -> Option<Seq<char>> {
    if rg_semantics || has_glob_spec(normalized) {
        Some(compiled_glob_spec(normalized))
    } else {
        None
    }
}

/// What building a pattern gives: the pattern, or the error and when it comes.
pub open spec fn build_outcome(
    pattern: Seq<char>,
    case_insensitive: bool,
    rg_semantics: bool,
    r: Result<PathPatternModel, EngineErrorModel>,
) -> bool {
    let normalized = normalize_pattern_spec(pattern);
    let glob = pattern_glob(normalized, rg_semantics);
    if normalized.len() == 0 {
        r == Err::<PathPatternModel, EngineErrorModel>(empty_pattern_error())
    } else if glob is Some && glob_build_error(glob->0, case_insensitive) is Some {
        r == Err::<PathPatternModel, EngineErrorModel>(EngineErrorModel::InvalidInput {
            message: "invalid glob "@ + debug_quoted(normalized) + ": "@ + glob_build_error(glob->0, case_insensitive)->0,
        })
    } else {
        r == Ok::<PathPatternModel, EngineErrorModel>(PathPatternModel { normalized, glob, case_insensitive })
    }
}

/// The model of a build result.
pub open spec fn built_view(r: Result<PathPattern, EngineError>) -> Result<PathPatternModel, EngineErrorModel> {
    match r {
        Ok(p) => Ok(p@),
        Err(e) => Err(e@),
    }
}

impl PathPattern {
    /// Whether the stored matcher was built with this pattern's case flag.
    pub closed spec fn well_formed(&self) -> bool {
        &&& match self.matcher {
            Some(m) => m.ignores_case() == self.case_insensitive,
            None => true,
        }
        &&& self.normalized@.len() <= MAX_PATTERN_CHARS
    }

    /// A path pattern: literal unless it holds glob syntax.
    pub fn path(pattern: &str) -> (r: Result<PathPattern, EngineError>)
        requires
            pattern@.len() <= MAX_PATTERN_CHARS,
        ensures
            build_outcome(pattern@, false, false, built_view(r)),
            r matches Ok(p) ==> p.well_formed(),
    {
        Self::build(pattern, false, false)
    }

    /// A ripgrep glob: always compiled, optionally case-insensitive.
    pub fn rg(pattern: &str, case_insensitive: bool) -> (r: Result<PathPattern, EngineError>)
        requires
            pattern@.len() <= MAX_PATTERN_CHARS,
        ensures
            build_outcome(pattern@, case_insensitive, true, built_view(r)),
            r matches Ok(p) ==> p.well_formed(),
    {
        Self::build(pattern, case_insensitive, true)
    }

    fn build(pattern: &str, case_insensitive: bool, rg_semantics: bool) -> (r: Result<PathPattern, EngineError>)
        requires
            pattern@.len() <= MAX_PATTERN_CHARS,
        ensures
            build_outcome(pattern@, case_insensitive, rg_semantics, built_view(r)),
            r matches Ok(p) ==> p.well_formed(),
    {
        let normalized = normalize_path_pattern(pattern);
        proof {
            lemma_normalized_len(pattern@);
        }
        if normalized.len() == 0 {
            return Err(EngineError::invalid_input("glob pattern must not be empty"));
        }
        let matcher = if rg_semantics || has_path_glob(normalized.as_slice()) {
            match compile_matcher(normalized.as_slice(), case_insensitive) {
                Ok(c) => Some(c),
                Err(e) => return Err(e),
            }
        } else {
            None
        };
        Ok(PathPattern { normalized: string_of(&normalized), matcher, case_insensitive })
    }

    /// Whether this pattern matches `path`.
    pub fn is_match(&self, path: &str) -> (r: bool)
        requires
            self.well_formed(),
        ensures
            r == pattern_matches(self@, path@),
    {
        let path_chars = chars_of(path);
        let candidate = normalize_path_for_match(path_chars.as_slice());
        match &self.matcher {
            Some(m) => {
                let text = string_of(&candidate);
                m.is_match(text.as_str()) || self.matches_directory_itself(candidate.as_slice())
            },
            None => {
                let (cand, expected) = if self.case_insensitive {
                    let text = string_of(&candidate);
                    (chars_of(to_lowercase(text.as_str()).as_str()), chars_of(to_lowercase(self.normalized.as_str()).as_str()))
                } else {
                    (candidate, chars_of(self.normalized.as_str()))
                };
                let mut prefix = copy_chars(expected.as_slice());
                if !(expected.len() > 0 && expected[expected.len() - 1] == '/') {
                    prefix.push('/');
                }
                same_chars(cand.as_slice(), expected.as_slice()) || starts_with_chars(cand.as_slice(), prefix.as_slice())
            },
        }
    }

    /// Whether this pattern could match `directory_path` or anything below it.
    pub fn might_match_descendant(&self, directory_path: &str) -> (r: bool)
        requires
            self.well_formed(),
        ensures
            r == might_match_descendant_spec(self@, directory_path@),
    {
        let chars = chars_of(directory_path);
        let normalized = normalize_path_for_match(chars.as_slice());
        let mut n = normalized.len();
        assert(normalized@.subrange(0, n as int) =~= normalized@);
        while n > 0 && normalized[n - 1] == '/'
            invariant
                n <= normalized@.len(),
                trim_end_slashes(normalized@.subrange(0, n as int)) == trim_end_slashes(normalized@),
            decreases n,
        {
            assert(normalized@.subrange(0, n as int).drop_last() =~= normalized@.subrange(0, n - 1));
            n -= 1;
        }
        let directory = crate::text::slice_chars(normalized.as_slice(), 0, n);
        proof {
            let t = normalized@.subrange(0, n as int);
            if t.len() > 0 {
                assert(t.last() == normalized@[n - 1]);
            }
            assert(directory@ == trim_end_slashes(normalized@));
        }
        if directory.len() == 0 {
            return true;
        }
        let text = string_of(&directory);
        if self.is_match(text.as_str()) {
            return true;
        }
        let mut probe = copy_chars(directory.as_slice());
        append_str(&mut probe, "/__zvec_grep_descendant__");
        let probe_text = string_of(&probe);
        if self.is_match(probe_text.as_str()) {
            return true;
        }
        let pattern = chars_of(self.normalized.as_str());
        pattern_prefix_might_match_descendant(pattern.as_slice(), directory.as_slice())
    }

    /// The normalized pattern text.
    pub fn normalized(&self) -> (s: &str)
        ensures
            s@ == self@.normalized,
    {
        self.normalized.as_str()
    }

    fn matches_directory_itself(&self, path: &[char]) -> (r: bool)
        requires
            self.well_formed(),
        ensures
            r == matches_directory_itself_spec(self@.normalized, self.case_insensitive, path@),
    {
        let pattern = chars_of(self.normalized.as_str());
        let n = pattern.len();
        if n < 3 || pattern[n - 3] != '/' || pattern[n - 2] != '*' || pattern[n - 1] != '*' {
            proof {
                reveal_strlit("/**");
                if n >= 3 && pattern@.subrange(n - 3, n as int) == "/**"@ {
                    assert(pattern@.subrange(n - 3, n as int)[0] == pattern@[n - 3]);
                    assert(pattern@.subrange(n - 3, n as int)[1] == pattern@[n - 2]);
                    assert(pattern@.subrange(n - 3, n as int)[2] == pattern@[n - 1]);
                }
            }
            return false;
        }
        proof {
            reveal_strlit("/**");
            assert(pattern@.subrange(n - 3, n as int) =~= "/**"@);
        }
        let directory_pattern = crate::text::slice_chars(pattern.as_slice(), 0, n - 3);
        match compile_matcher(directory_pattern.as_slice(), self.case_insensitive) {
            Ok(m) => {
                let text = string_of(&copy_chars(path));
                m.is_match(text.as_str())
            },
            Err(_) => false,
        }
    }
}

/// Whether one variant of a pattern could still match below `directory_prefix`.
fn variant_might_match_exec(variant: &[char], directory_prefix: &[char]) -> (r: bool)
    ensures
        r == variant_might_match(variant@, directory_prefix@),
{
    if !has_path_glob(variant) {
        return starts_with_chars(variant, directory_prefix);
    }
    let literal = literal_prefix_before_first_glob(variant);
    literal.len() > 0 && (starts_with_chars(literal.as_slice(), directory_prefix) || starts_with_chars(directory_prefix, literal.as_slice()))
}

/// Whether the literal part of `pattern` (or of it without a leading `**/`)
/// could lead below `directory`.
pub fn pattern_prefix_might_match_descendant(pattern: &[char], directory: &[char]) -> (r: bool)
    ensures
        r == prefix_might_match_spec(pattern@, directory@),
{
    let mut directory_prefix = copy_chars(directory);
    directory_prefix.push('/');
    if variant_might_match_exec(pattern, directory_prefix.as_slice()) {
        return true;
    }
    let double_star: Vec<char> = vec!['*', '*', '/'];
    proof {
        reveal_strlit("**/");
        assert(double_star@ =~= "**/"@);
    }
    if starts_with_chars(pattern, double_star.as_slice()) {
        let stripped = crate::text::slice_chars(pattern, 3, pattern.len());
        variant_might_match_exec(stripped.as_slice(), directory_prefix.as_slice())
    } else {
        false
    }
}

/// Whether a file name is hidden: it starts with `.` and is neither `.` nor `..`.
pub fn is_hidden_name(name: &str) -> (r: bool)
    ensures
        r == is_hidden_spec(name@),
{
    let chars = chars_of(name);
    proof {
        reveal_strlit(".");
        reveal_strlit("..");
    }
    if chars.len() == 0 || chars[0] != '.' {
        return false;
    }
    if chars.len() == 1 {
        assert(chars@ =~= "."@);
        return false;
    }
    if chars.len() == 2 && chars[1] == '.' {
        assert(chars@ =~= ".."@);
        return false;
    }
    assert(chars@ != "."@ && chars@ != ".."@) by {
        if chars@.len() == 2 {
            assert(chars@[1] != ".."@[1]);
        }
    }
    true
}

} // verus!
