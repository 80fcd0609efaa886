//! The ripgrep-backed lexical search: the command line it runs, how its JSON events
//! become matches, and how matches are expanded, filtered, ordered and ranked.
use vstd::prelude::*;

use crate::common::TextRange;
use crate::context::opt_usize;
use crate::errors::{EngineError, EngineErrorModel};
use crate::lexical::{
    LexicalCoverage, LexicalDiagnostics, LexicalMatch, LexicalSearchReply, LexicalSearchRequest,
    LexicalSearchRequestModel,
};
use crate::text::{decimal, push_string, u64_to_string};

verus! {

/// One `flag` switch, present when `on`.
pub open spec fn switch_arg(on: bool, flag: Seq<char>) -> Seq<Seq<char>> {
    if on { seq![flag] } else { seq![] }
}

/// A `flag value` pair when the value is present.
pub open spec fn value_arg(flag: Seq<char>, value: Option<nat>) -> Seq<Seq<char>> {
    match value {
        Some(n) => seq![flag, decimal(n)],
        None => seq![],
    }
}

/// `flag v` for every value, in order.
pub open spec fn flag_pairs(flag: Seq<char>, values: Seq<Seq<char>>) -> Seq<Seq<char>>
    decreases values.len(),
{
    if values.len() == 0 {
        seq![]
    } else {
        flag_pairs(flag, values.drop_last()) + seq![flag, values.last()]
    }
}

/// Directories that ripgrep never searches.
pub open spec fn hard_ignored_directories() -> Seq<Seq<char>> {
    seq![".git"@, ".zvec-grep"@]
}

/// The exclusion globs of the hard-ignored directories.
pub open spec fn hard_ignored_globs() -> Seq<Seq<char>> {
    seq!["!**/.git/**"@, "!**/.zvec-grep/**"@]
}

/// The fixed head of every ripgrep command line: JSON output with line numbers and columns.
pub open spec fn fixed_args() -> Seq<Seq<char>> {
    seq!["--json"@, "--line-number"@, "--column"@, "--with-filename"@, "--color"@, "never"@]
}

/// The ripgrep arguments for a request searching `paths` (all of `.` when empty).
pub open spec fn build_args_spec(req: LexicalSearchRequestModel, paths: Seq<Seq<char>>) -> Seq<Seq<char>> {
    let o = req.options;
    fixed_args()
        + switch_arg(o.fixed_strings, "--fixed-strings"@)
        + switch_arg(o.ignore_case, "--ignore-case"@)
        + switch_arg(o.word_regexp, "--word-regexp"@)
        + switch_arg(o.hidden, "--hidden"@)
        + switch_arg(o.no_ignore, "--no-ignore"@)
        + switch_arg(o.follow, "--follow"@)
        + value_arg("--max-depth"@, o.max_depth)
        + value_arg("--max-filesize"@, o.max_file_size_bytes)
        + flag_pairs("--ignore-file"@, o.ignore_files)
        + flag_pairs("--glob"@, o.globs)
        + flag_pairs("--type"@, o.file_types)
        + flag_pairs("--type-not"@, o.excluded_file_types)
        + flag_pairs("--glob"@, hard_ignored_globs())
        + flag_pairs("--regexp"@, req.patterns)
        + flag_pairs("--file"@, req.pattern_files)
        + seq!["--"@]
        + (if paths.len() == 0 { seq!["."@] } else { paths })
}

/// Appends `flag` when `enabled`.
pub fn push_switch(args: &mut Vec<String>, enabled: bool, flag: &str)
    ensures
        final(args).deep_view() == old(args).deep_view() + switch_arg(enabled, flag@),
{
    if enabled {
        push_string(args, flag.to_owned());
    }
    assert(final(args).deep_view() =~= old(args).deep_view() + switch_arg(enabled, flag@));
}

/// Appends `flag value` when a value is present.
pub fn push_value(args: &mut Vec<String>, flag: &str, value: Option<u64>)
    ensures
        final(args).deep_view() == old(args).deep_view() + value_arg(flag@, match value { Some(v) => Some(v as nat), None => None }),
{
    if let Some(v) = value {
        push_string(args, flag.to_owned());
        push_string(args, u64_to_string(v));
    }
    assert(final(args).deep_view() =~= old(args).deep_view() + value_arg(flag@, match value { Some(v) => Some(v as nat), None => None }));
}

/// Appends `flag v` for each value.
pub fn push_pairs(args: &mut Vec<String>, flag: &str, values: &Vec<String>)
    ensures
        final(args).deep_view() == old(args).deep_view() + flag_pairs(flag@, values.deep_view()),
{
    let ghost start = args.deep_view();
    let mut i: usize = 0;
    while i < values.len()
        invariant
            0 <= i <= values@.len(),
            args.deep_view() == start + flag_pairs(flag@, values.deep_view().subrange(0, i as int)),
        decreases values@.len() - i,
    {
        push_string(args, flag.to_owned());
        push_string(args, values[i].clone());
        proof {
            let pre = values.deep_view().subrange(0, i as int);
            let next = values.deep_view().subrange(0, i + 1);
            assert(next.drop_last() =~= pre);
            assert(args.deep_view() =~= start + flag_pairs(flag@, next));
        }
        i += 1;
    }
    assert(values.deep_view().subrange(0, values@.len() as int) =~= values.deep_view());
}

fn hard_ignored_globs_vec() -> (v: Vec<String>)
    ensures
        v.deep_view() == hard_ignored_globs(),
{
    let mut v: Vec<String> = Vec::new();
    push_string(&mut v, "!**/.git/**".to_owned());
    push_string(&mut v, "!**/.zvec-grep/**".to_owned());
    assert(v.deep_view() =~= hard_ignored_globs());
    v
}

fn usize_opt(o: Option<usize>) -> (r: Option<u64>)
    ensures
        match r { Some(v) => Some(v as nat), None => None::<nat> } == opt_usize(o),
{
    match o {
        Some(v) => Some(v as u64),
        None => None,
    }
}

/// The ripgrep command line for a request searching `paths` (all of `.` when empty).
pub fn build_args(request: &LexicalSearchRequest, paths: &Vec<String>) -> (args: Vec<String>)
    ensures
        args.deep_view() == build_args_spec(request@, paths.deep_view()),
{
    let mut args: Vec<String> = Vec::new();
    push_string(&mut args, "--json".to_owned());
    push_string(&mut args, "--line-number".to_owned());
    push_string(&mut args, "--column".to_owned());
    push_string(&mut args, "--with-filename".to_owned());
    push_string(&mut args, "--color".to_owned());
    push_string(&mut args, "never".to_owned());
    assert(args.deep_view() =~= fixed_args());
    let o = &request.options;
    push_switch(&mut args, o.fixed_strings, "--fixed-strings");
    push_switch(&mut args, o.ignore_case, "--ignore-case");
    push_switch(&mut args, o.word_regexp, "--word-regexp");
    push_switch(&mut args, o.hidden, "--hidden");
    push_switch(&mut args, o.no_ignore, "--no-ignore");
    push_switch(&mut args, o.follow, "--follow");
    push_value(&mut args, "--max-depth", usize_opt(o.max_depth));
    push_value(&mut args, "--max-filesize", o.max_file_size_bytes);
    push_pairs(&mut args, "--ignore-file", &o.ignore_files);
    push_pairs(&mut args, "--glob", &o.globs);
    push_pairs(&mut args, "--type", &o.file_types);
    push_pairs(&mut args, "--type-not", &o.excluded_file_types);
    let ignored = hard_ignored_globs_vec();
    push_pairs(&mut args, "--glob", &ignored);
    push_pairs(&mut args, "--regexp", &request.patterns);
    push_pairs(&mut args, "--file", &request.pattern_files);
    push_string(&mut args, "--".to_owned());
    let ghost before = args.deep_view();
    if paths.len() == 0 {
        push_string(&mut args, ".".to_owned());
        assert(args.deep_view() =~= before + seq!["."@]);
    } else {
        let mut i: usize = 0;
        while i < paths.len()
            invariant
                0 <= i <= paths@.len(),
                args.deep_view() == before + paths.deep_view().subrange(0, i as int),
            decreases paths@.len() - i,
        {
            push_string(&mut args, paths[i].clone());
            assert(args.deep_view() =~= before + paths.deep_view().subrange(0, i + 1));
            i += 1;
        }
        assert(paths.deep_view().subrange(0, paths@.len() as int) =~= paths.deep_view());
    }
    proof {
        let o = request@.options;
        assert(args.deep_view() =~= build_args_spec(request@, paths.deep_view()));
    }
    args
}

} // verus!

verus! {

/// The text of a ripgrep JSON `{"text": ...}` value (absent for non-UTF-8 data).
#[derive(Debug, PartialEq, Eq)]
pub struct TextValue {
    pub text: Option<String>,
}

/// The byte range of one submatch within a match's line text.
#[derive(Clone, Copy, Debug, PartialEq, Eq)]
pub struct RipgrepSubmatch {
    pub start: usize,
    pub end: usize,
}

/// The data of a ripgrep `match` event.
#[derive(Debug, PartialEq, Eq)]
pub struct RipgrepMatchData {
    pub path: TextValue,
    pub lines: TextValue,
    pub line_number: usize,
    pub submatches: Vec<RipgrepSubmatch>,
}

/// One line of ripgrep's `--json` output.
#[derive(Debug, PartialEq, Eq)]
pub struct RipgrepEvent {
    pub kind: String,
    pub data: Option<RipgrepMatchData>,
}

/// The mathematical form of a match's data.
pub struct MatchDataModel {
    pub path: Option<Seq<char>>,
    pub lines: Option<Seq<char>>,
    pub line_number: usize,
    pub submatches: Seq<RipgrepSubmatch>,
}

/// The mathematical form of a ripgrep event.
pub struct RipgrepEventModel {
    pub kind: Seq<char>,
    pub data: Option<MatchDataModel>,
}

impl View for RipgrepEvent {
    type V = RipgrepEventModel;

    open spec fn view(&self) -> RipgrepEventModel {
        RipgrepEventModel {
            kind: self.kind@,
            data: match &self.data {
                Some(d) => Some(MatchDataModel {
                    path: d.path.text.deep_view(),
                    lines: d.lines.text.deep_view(),
                    line_number: d.line_number,
                    submatches: d.submatches@,
                }),
                None => None,
            },
        }
    }
}

/// The mathematical form of a lexical match.
pub struct MatchModel {
    pub rank: usize,
    pub absolute_path: Seq<char>,
    pub relative_path: Seq<char>,
    pub range: TextRange,
    pub excerpt_range: Option<TextRange>,
    pub content: Seq<char>,
}

/// The mathematical form of a lexical match.
pub open spec fn match_view(m: LexicalMatch) -> MatchModel {
    MatchModel {
        rank: m.rank,
        absolute_path: m.absolute_path@,
        relative_path: m.relative_path@,
        range: m.range,
        excerpt_range: m.excerpt_range,
        content: m.content@,
    }
}

/// The views of a list of matches.
pub open spec fn matches_view(v: Seq<LexicalMatch>) -> Seq<MatchModel> {
    v.map_values(|m: LexicalMatch| match_view(m))
}

/// `s` without trailing `\r` and `\n` characters.
pub open spec fn trim_end_newlines(s: Seq<char>) -> Seq<char>
    decreases s.len(),
{
    if s.len() > 0 && (s.last() == '\r' || s.last() == '\n') {
        trim_end_newlines(s.drop_last())
    } else {
        s
    }
}

/// `s` without trailing `\r` characters.
pub open spec fn trim_end_cr(s: Seq<char>) -> Seq<char>
    decreases s.len(),
{
    if s.len() > 0 && s.last() == '\r' {
        trim_end_cr(s.drop_last())
    } else {
        s
    }
}

/// The number of `\n` characters.
pub open spec fn count_newlines(s: Seq<char>) -> nat
    decreases s.len(),
{
    if s.len() == 0 {
        0
    } else {
        count_newlines(s.drop_last()) + (if s.last() == '\n' { 1nat } else { 0nat })
    }
}

/// The characters after the last `\n` (all of `s` when it has none).
pub open spec fn after_last_newline(s: Seq<char>) -> Seq<char>
    decreases s.len(),
{
    if s.len() == 0 {
        seq![]
    } else if s.last() == '\n' {
        seq![]
    } else {
        after_last_newline(s.drop_last()).push(s.last())
    }
}

/// The UTF-16 length of a character.
pub open spec fn char_utf16_len(c: char) -> nat {
    if (c as u32) < 0x10000 { 1 } else { 2 }
}

/// The UTF-16 length of a character sequence (`str::encode_utf16().count()`).
pub open spec fn utf16_len(s: Seq<char>) -> nat
    decreases s.len(),
{
    if s.len() == 0 {
        0
    } else {
        utf16_len(s.drop_last()) + char_utf16_len(s.last())
    }
}

/// `k` is the number of leading characters of `s` whose UTF-8 encoding fits in `n` bytes.
pub open spec fn fits(s: Seq<char>, n: nat, k: int) -> bool {
    &&& 0 <= k <= s.len()
    &&& crate::text::utf8_len(s.take(k)) <= n
    &&& (k == s.len() || crate::text::utf8_len(s.take(k + 1)) > n)
}

/// The number of leading characters whose encoding fits in `n` bytes.
pub open spec fn fitting_chars(s: Seq<char>, n: nat) -> int {
    choose|k: int| fits(s, n, k)
}

/// The first `n` bytes of `s` decoded lossily: the characters that fit whole, then one
/// replacement character when the cut falls inside a character.
pub open spec fn lossy_prefix(s: Seq<char>, n: nat) -> Seq<char> {
    let k = fitting_chars(s, n);
    if k < s.len() && crate::text::utf8_len(s.take(k)) < n {
        s.take(k).push('\u{FFFD}')
    } else {
        s.take(k)
    }
}

/// The line (counted from zero) and UTF-16 column of byte offset `n` in `s`.
pub open spec fn text_position_spec(s: Seq<char>, n: nat) -> (nat, nat) {
    let p = lossy_prefix(s, n);
    (count_newlines(p), utf16_len(trim_end_cr(after_last_newline(p))))
}

proof fn lemma_utf8_take_step(s: Seq<char>, k: int)
    requires
        0 <= k < s.len(),
    ensures
        crate::text::utf8_len(s.take(k + 1)) == crate::text::utf8_len(s.take(k)) + crate::text::char_utf8_len(s[k]),
{
    assert(s.take(k + 1).drop_last() =~= s.take(k));
}

proof fn lemma_utf8_take_mono(s: Seq<char>, a: int, b: int)
    requires
        0 <= a <= b <= s.len(),
    ensures
        crate::text::utf8_len(s.take(a)) <= crate::text::utf8_len(s.take(b)),
        a < b ==> crate::text::utf8_len(s.take(a + 1)) <= crate::text::utf8_len(s.take(b)),
    decreases b - a,
{
    if a < b {
        lemma_utf8_take_step(s, b - 1);
        lemma_utf8_take_mono(s, a, b - 1);
    }
}

proof fn lemma_fits_unique(s: Seq<char>, n: nat, k: int)
    requires
        fits(s, n, k),
    ensures
        fitting_chars(s, n) == k,
{
    let j = fitting_chars(s, n);
    assert(fits(s, n, j));
    if j < k {
        lemma_utf8_take_mono(s, j, k);
    } else if k < j {
        lemma_utf8_take_mono(s, k, j);
    }
}

proof fn lemma_whole_fits(s: Seq<char>, n: nat)
    requires
        crate::text::utf8_len(s) <= n,
    ensures
        lossy_prefix(s, n) == s,
{
    assert(s.take(s.len() as int) =~= s);
    lemma_fits_unique(s, n, s.len() as int);
}

proof fn lemma_utf16_take_mono(s: Seq<char>, a: int, b: int)
    requires
        0 <= a <= b <= s.len(),
    ensures
        utf16_len(s.take(a)) <= utf16_len(s.take(b)),
        a < b ==> utf16_len(s.take(a)) + 1 <= utf16_len(s.take(b)),
    decreases b - a,
{
    if a < b {
        assert(s.take(b).drop_last() =~= s.take(b - 1));
        lemma_utf16_take_mono(s, a, b - 1);
    }
}

proof fn lemma_utf16_after_newline(p: Seq<char>)
    ensures
        utf16_len(after_last_newline(p)) <= utf16_len(p),
    decreases p.len(),
{
    if p.len() > 0 {
        lemma_utf16_after_newline(p.drop_last());
        if p.last() != '\n' {
            let a = after_last_newline(p.drop_last()).push(p.last());
            assert(a.drop_last() =~= after_last_newline(p.drop_last()));
        }
    }
}

proof fn lemma_utf16_trim_cr(x: Seq<char>)
    ensures
        utf16_len(trim_end_cr(x)) <= utf16_len(x),
    decreases x.len(),
{
    if x.len() > 0 && x.last() == '\r' {
        lemma_utf16_trim_cr(x.drop_last());
    }
}

/// The UTF-16 length of a character sequence.
pub fn utf16_count_chars(s: &[char]) -> (n: usize)
    requires
        utf16_len(s@) <= usize::MAX,
    ensures
        n == utf16_len(s@),
{
    utf16_count(s)
}

fn utf16_count(s: &[char]) -> (n: usize)
    requires
        utf16_len(s@) <= usize::MAX,
    ensures
        n == utf16_len(s@),
{
    let mut n: usize = 0;
    let mut i: usize = 0;
    assert(s@.take(s@.len() as int) =~= s@);
    while i < s.len()
        invariant
            0 <= i <= s@.len(),
            utf16_len(s@) <= usize::MAX,
            s@.take(s@.len() as int) == s@,
            n == utf16_len(s@.take(i as int)),
        decreases s@.len() - i,
    {
        assert(s@.take(i + 1).drop_last() =~= s@.take(i as int));
        proof { lemma_utf16_take_mono(s@, i + 1, s@.len() as int); }
        if (s[i] as u32) < 0x10000 {
            n += 1;
        } else {
            n += 2;
        }
        i += 1;
    }
    n
}

/// The line offset (from zero) and the UTF-16 column of byte offset `byte_offset` in
/// `value`; an offset past the end counts as the end, and one inside a character as a
/// replacement character.
pub fn text_position_at_byte_offset(value: &str, byte_offset: usize) -> (r: (usize, usize))
    requires
        utf16_len(value@) <= usize::MAX,
    ensures
        r.0 == text_position_spec(value@, byte_offset as nat).0,
        r.1 == text_position_spec(value@, byte_offset as nat).1,
{
    let s = crate::text::chars_of(value);
    let ghost sv = s@;
    let mut k: usize = 0;
    let mut bytes: usize = 0;
    let mut lines: usize = 0;
    let mut seg: Vec<char> = Vec::new();
    while k < s.len()
        invariant
            sv == s@,
            sv == value@,
            0 <= k <= sv.len(),
            bytes == crate::text::utf8_len(sv.take(k as int)),
            bytes <= byte_offset,
            lines == count_newlines(sv.take(k as int)),
            lines <= k,
            seg@ == after_last_newline(sv.take(k as int)),
            seg@.len() <= k,
        ensures
            0 <= k <= sv.len(),
            k == sv.len() || bytes + crate::text::char_utf8_len(sv[k as int]) > byte_offset,
        decreases sv.len() - k,
    {
        let c = s[k];
        let clen = crate::text::char_len_utf8(c);
        proof { lemma_utf8_take_step(sv, k as int); }
        if byte_offset - bytes < clen {
            break;
        }
        assert(sv.take(k + 1).drop_last() =~= sv.take(k as int));
        assert(sv.take(k + 1).last() == c);
        bytes += clen;
        if c == '\n' {
            lines += 1;
            seg = Vec::new();
        } else {
            seg.push(c);
        }
        k += 1;
    }
    proof {
        if k < sv.len() {
            lemma_utf8_take_step(sv, k as int);
        }
        assert(fits(sv, byte_offset as nat, k as int));
        lemma_fits_unique(sv, byte_offset as nat, k as int);
    }
    proof {
        lemma_utf16_take_mono(sv, k as int, sv.len() as int);
        assert(sv.take(sv.len() as int) =~= sv);
        lemma_utf16_after_newline(sv.take(k as int));
        lemma_utf16_trim_cr(seg@);
    }
    let partial = k < s.len() && bytes < byte_offset;
    if partial {
        let ghost p = sv.take(k as int).push('\u{FFFD}');
        assert(p.drop_last() =~= sv.take(k as int));
        seg.push('\u{FFFD}');
        assert(seg@ == after_last_newline(p));
        assert(trim_end_cr(seg@) == seg@);
        assert(seg@.drop_last() =~= after_last_newline(sv.take(k as int)));
        let n = utf16_count(seg.as_slice());
        (lines, n)
    } else {
        let mut m = seg.len();
        assert(seg@.subrange(0, m as int) =~= seg@);
        while m > 0 && seg[m - 1] == '\r'
            invariant
                m <= seg@.len(),
                trim_end_cr(seg@.subrange(0, m as int)) == trim_end_cr(seg@),
            decreases m,
        {
            assert(seg@.subrange(0, m as int).drop_last() =~= seg@.subrange(0, m - 1));
            m -= 1;
        }
        let trimmed = crate::text::slice_chars(seg.as_slice(), 0, m);
        proof {
            let t = seg@.subrange(0, m as int);
            if t.len() > 0 {
                assert(t.last() == seg@[m - 1]);
            }
            assert(trimmed@ == trim_end_cr(seg@));
        }
        let n = utf16_count(trimmed.as_slice());
        (lines, n)
    }
}

/// A decoded match event whose line numbers and columns fit in `usize`.
pub open spec fn event_in_range(e: RipgrepEventModel) -> bool {
    match e.data {
        Some(d) => match d.lines {
            Some(l) => {
                let c = trim_end_newlines(l);
                &&& d.line_number + count_newlines(c) <= usize::MAX
                &&& utf16_len(c) <= usize::MAX
                &&& crate::text::utf8_len(c) <= usize::MAX
            },
            None => true,
        },
        None => true,
    }
}

fn sizes_in_range(c: &[char], line_number: usize) -> (r: bool)
    ensures
        r == (line_number + count_newlines(c@) <= usize::MAX && utf16_len(c@) <= usize::MAX
            && crate::text::utf8_len(c@) <= usize::MAX),
{
    let mut lines: usize = line_number;
    let mut units: usize = 0;
    let mut bytes: usize = 0;
    let mut i: usize = 0;
    while i < c.len()
        invariant
            0 <= i <= c@.len(),
            lines == line_number + count_newlines(c@.take(i as int)),
            units == utf16_len(c@.take(i as int)),
            bytes == crate::text::utf8_len(c@.take(i as int)),
        decreases c@.len() - i,
    {
        assert(c@.take(i + 1).drop_last() =~= c@.take(i as int));
        let ghost tail = c@.take(i + 1);
        if c[i] == '\n' {
            if lines == usize::MAX {
                proof { lemma_counts_grow(c@, i + 1); }
                return false;
            }
            lines += 1;
        }
        let u: usize = if (c[i] as u32) < 0x10000 { 1 } else { 2 };
        if usize::MAX - units < u {
            proof { lemma_counts_grow(c@, i + 1); }
            return false;
        }
        units += u;
        let b = crate::text::char_len_utf8(c[i]);
        if usize::MAX - bytes < b {
            proof { lemma_counts_grow(c@, i + 1); }
            return false;
        }
        bytes += b;
        i += 1;
    }
    assert(c@.take(c@.len() as int) =~= c@);
    true
}

proof fn lemma_counts_grow(s: Seq<char>, k: int)
    requires
        0 <= k <= s.len(),
    ensures
        count_newlines(s.take(k)) <= count_newlines(s),
        utf16_len(s.take(k)) <= utf16_len(s),
        crate::text::utf8_len(s.take(k)) <= crate::text::utf8_len(s),
{
    lemma_count_take(s, k);
    lemma_utf16_take_mono(s, k, s.len() as int);
    lemma_utf8_take_mono(s, k, s.len() as int);
    assert(s.take(s.len() as int) =~= s);
}

/// Whether an event's line numbers and columns fit in `usize`.
pub fn event_in_range_check(e: &RipgrepEvent) -> (r: bool)
    ensures
        r == event_in_range(e@),
{
    match &e.data {
        Some(d) => match &d.lines.text {
            Some(l) => {
                let c = trim_newlines(l.as_str());
                let chars = crate::text::chars_of(c.as_str());
                sizes_in_range(chars.as_slice(), d.line_number)
            },
            None => true,
        },
        None => true,
    }
}

/// The relative form of `path` below `base` (`Path::strip_prefix`), if `base` is a
/// whole-component prefix of it.
pub uninterp spec fn path_strip_prefix(path: Seq<char>, base: Seq<char>) -> Option<Seq<char>>;

/// `Path::strip_prefix`, with the remainder read back as a string.
#[verifier::external_body]
pub(crate) fn strip_path_prefix(path: &str, base: &str) -> (r: Option<String>)
    ensures
        match r {
            Some(s) => path_strip_prefix(path@, base@) == Some(s@),
            None => path_strip_prefix(path@, base@) is None,
        },
{
    std::path::Path::new(path).strip_prefix(base).ok().map(|p| p.to_string_lossy().into_owned())
}

/// The match a ripgrep event describes: only `match` events with a path and UTF-8 line
/// text produce one. The range starts and ends at the first submatch (the whole line
/// when there is none); columns count UTF-16 units.
pub open spec fn parse_event_spec(root: Seq<char>, e: RipgrepEventModel) -> Option<MatchModel> {
    if e.kind != "match"@ {
        None
    } else {
        match e.data {
            None => None,
            Some(d) => match (d.path, d.lines) {
                (Some(p), Some(l)) => {
                    let absolute = crate::path::join_spec(root, p);
                    let relative = match path_strip_prefix(absolute, root) {
                        Some(r) => r,
                        None => absolute,
                    };
                    let content = trim_end_newlines(l);
                    let start_byte: nat = if d.submatches.len() > 0 { d.submatches[0].start as nat } else { 0 };
                    let end_byte: nat = if d.submatches.len() > 0 { d.submatches[0].end as nat } else { crate::text::utf8_len(content) };
                    let start = text_position_spec(content, start_byte);
                    let end = text_position_spec(content, end_byte);
                    Some(MatchModel {
                        rank: 0,
                        absolute_path: absolute,
                        relative_path: relative,
                        range: TextRange {
                            start_line: (d.line_number + start.0) as usize,
                            end_line: (d.line_number + end.0) as usize,
                            start_offset: start.1 as usize,
                            end_offset: end.1 as usize,
                        },
                        excerpt_range: None,
                        content: content,
                    })
                },
                _ => None,
            },
        }
    }
}

fn trim_newlines(s: &str) -> (out: String)
    ensures
        out@ == trim_end_newlines(s@),
{
    let c = crate::text::chars_of(s);
    let mut m = c.len();
    assert(c@.subrange(0, m as int) =~= c@);
    while m > 0 && (c[m - 1] == '\r' || c[m - 1] == '\n')
        invariant
            m <= c@.len(),
            trim_end_newlines(c@.subrange(0, m as int)) == trim_end_newlines(s@),
            c@ == s@,
        decreases m,
    {
        assert(c@.subrange(0, m as int).drop_last() =~= c@.subrange(0, m - 1));
        m -= 1;
    }
    proof {
        let t = c@.subrange(0, m as int);
        if t.len() > 0 {
            assert(t.last() == c@[m - 1]);
        }
    }
    let t = crate::text::slice_chars(c.as_slice(), 0, m);
    crate::text::string_of(&t)
}

proof fn lemma_fits_exists_from(s: Seq<char>, n: nat, k: int)
    requires
        0 <= k <= s.len(),
        crate::text::utf8_len(s.take(k)) <= n,
    ensures
        fits(s, n, fitting_chars(s, n)),
    decreases s.len() - k,
{
    if k == s.len() || crate::text::utf8_len(s.take(k + 1)) > n {
        assert(fits(s, n, k));
    } else {
        lemma_fits_exists_from(s, n, k + 1);
    }
}

/// The cut of a lossy prefix never holds more line breaks than the whole text.
proof fn lemma_count_newlines_bound(s: Seq<char>, n: nat)
    ensures
        count_newlines(lossy_prefix(s, n)) <= count_newlines(s),
{
    assert(s.take(0) =~= Seq::<char>::empty());
    lemma_fits_exists_from(s, n, 0);
    let k = fitting_chars(s, n);
    let p = lossy_prefix(s, n);
    lemma_count_take(s, k);
    if k < s.len() && crate::text::utf8_len(s.take(k)) < n {
        assert(p.drop_last() =~= s.take(k));
    }
}

proof fn lemma_count_take(s: Seq<char>, k: int)
    requires
        0 <= k <= s.len(),
    ensures
        count_newlines(s.take(k)) <= count_newlines(s),
    decreases s.len() - k,
{
    if k < s.len() {
        lemma_count_take(s, k + 1);
        assert(s.take(k + 1).drop_last() =~= s.take(k));
    } else {
        assert(s.take(k) =~= s);
    }
}


/// Decodes one ripgrep event into a match (see [`parse_event_spec`]).
pub fn parse_event(root: &str, event: RipgrepEvent) -> (r: Option<LexicalMatch>)
    requires
        event_in_range(event@),
    ensures
        match r {
            Some(m) => parse_event_spec(root@, event@) == Some(match_view(m)),
            None => parse_event_spec(root@, event@) is None,
        },
{
    let ghost ev = event@;
    if !crate::text::str_eq(event.kind.as_str(), "match") {
        return None;
    }
    let data = match event.data {
        Some(d) => d,
        None => { return None; },
    };
    let p = match data.path.text {
        Some(p) => p,
        None => { return None; },
    };
    let l = match data.lines.text {
        Some(l) => l,
        None => { return None; },
    };
    let absolute = crate::path::resolve_path(root, p.as_str());
    let relative = match strip_path_prefix(absolute.as_str(), root) {
        Some(r) => r,
        None => absolute.clone(),
    };
    let content = trim_newlines(l.as_str());
    let ghost cv = content@;
    proof {
        lemma_count_newlines_bound(cv, 0);
        if data.submatches@.len() > 0 {
            lemma_count_newlines_bound(cv, data.submatches@[0].start as nat);
            lemma_count_newlines_bound(cv, data.submatches@[0].end as nat);
        } else {
            lemma_count_newlines_bound(cv, crate::text::utf8_len(cv));
            lemma_whole_fits(cv, crate::text::utf8_len(cv));
            lemma_whole_fits(cv, usize::MAX as nat);
        }
    }
    let (start_byte, end_byte) = if data.submatches.len() > 0 {
        (data.submatches[0].start, data.submatches[0].end)
    } else {
        (0usize, usize::MAX)
    };
    let start = text_position_at_byte_offset(content.as_str(), start_byte);
    let end = text_position_at_byte_offset(content.as_str(), end_byte);
    let range = TextRange {
        start_line: data.line_number + start.0,
        end_line: data.line_number + end.0,
        start_offset: start.1,
        end_offset: end.1,
    };
    Some(LexicalMatch {
        rank: 0,
        absolute_path: absolute,
        relative_path: relative,
        range,
        excerpt_range: None,
        content,
    })
}

} // verus!

verus! {

/// The order in which matches are reported: by relative path (component by component),
/// then start line, then start column.
pub open spec fn match_key(m: MatchModel) -> Seq<u64> {
    crate::path::path_key(m.relative_path) + seq![0u64, m.range.start_line as u64, m.range.start_offset as u64]
}

fn match_sort_key(m: &LexicalMatch) -> (key: Vec<u64>)
    ensures
        key@ == match_key(match_view(*m)),
{
    let mut key = crate::path::path_sort_key(m.relative_path.as_str());
    let ghost before = key@;
    key.push(0);
    key.push(m.range.start_line as u64);
    key.push(m.range.start_offset as u64);
    assert(key@ =~= before + seq![0u64, m.range.start_line as u64, m.range.start_offset as u64]);
    key
}

impl crate::sort::SortKey for LexicalMatch {
    open spec fn sort_key(&self) -> Seq<u64> {
        match_key(match_view(*self))
    }

    fn sort_key_exec(&self) -> (key: Vec<u64>) {
        match_sort_key(self)
    }
}

/// Sorts matches into report order, keeping matches with equal keys in input order.
pub fn sort_matches(matches: Vec<LexicalMatch>) -> (out: Vec<LexicalMatch>)
    ensures
        crate::sort::is_stable_sort_of(matches@, out@),
{
    crate::sort::stable_sort(matches)
}

} // verus!

verus! {

/// The pieces of `b` between `\n` bytes (`slice::split`), reading from `start`, where the
/// current piece began at `start` and `b[start..i]` holds no `\n`.
pub open spec fn split_from(b: Seq<u8>, start: int, i: int) -> Seq<Seq<u8>>
    decreases b.len() - i,
{
    if i < start || i >= b.len() {
        seq![b.subrange(start, b.len() as int)]
    } else if b[i] == 10u8 {
        seq![b.subrange(start, i)] + split_from(b, i + 1, i + 1)
    } else {
        split_from(b, start, i + 1)
    }
}

/// The lines of ripgrep's standard output: every piece between `\n` bytes, the last
/// (possibly empty) piece included.
pub open spec fn output_lines_spec(b: Seq<u8>) -> Seq<Seq<u8>> {
    split_from(b, 0, 0)
}

fn copy_bytes(b: &[u8], from: usize, to: usize) -> (out: Vec<u8>)
    requires
        from <= to <= b@.len(),
    ensures
        out@ == b@.subrange(from as int, to as int),
{
    let mut out: Vec<u8> = Vec::new();
    let mut i = from;
    while i < to
        invariant
            from <= i <= to <= b@.len(),
            out@ == b@.subrange(from as int, i as int),
        decreases to - i,
    {
        out.push(b[i]);
        i += 1;
        assert(out@ =~= b@.subrange(from as int, i as int));
    }
    out
}

/// Splits ripgrep's standard output into lines at `\n` bytes.
pub fn split_output_lines(stdout: &[u8]) -> (lines: Vec<Vec<u8>>)
    ensures
        lines@.map_values(|l: Vec<u8>| l@) == output_lines_spec(stdout@),
{
    let ghost b = stdout@;
    let mut lines: Vec<Vec<u8>> = Vec::new();
    let mut start: usize = 0;
    let mut i: usize = 0;
    while i < stdout.len()
        invariant
            b == stdout@,
            start <= i <= b.len(),
            lines@.map_values(|l: Vec<u8>| l@) + split_from(b, start as int, i as int) == output_lines_spec(b),
        decreases b.len() - i,
    {
        if stdout[i] == 10u8 {
            let piece = copy_bytes(stdout, start, i);
            let ghost before = lines@.map_values(|l: Vec<u8>| l@);
            let ghost (s0, i0) = (start as int, i as int);
            lines.push(piece);
            assert(lines@.map_values(|l: Vec<u8>| l@) =~= before.push(b.subrange(s0, i0)));
            i += 1;
            start = i;
            assert(split_from(b, s0, i0) == seq![b.subrange(s0, i0)] + split_from(b, i0 + 1, i0 + 1));
            assert(lines@.map_values(|l: Vec<u8>| l@) + split_from(b, start as int, i as int)
                =~= before + split_from(b, s0, i0));
        } else {
            i += 1;
        }
    }
    let piece = copy_bytes(stdout, start, i);
    let ghost before = lines@.map_values(|l: Vec<u8>| l@);
    lines.push(piece);
    assert(lines@.map_values(|l: Vec<u8>| l@) =~= before.push(b.subrange(start as int, b.len() as int)));
    lines
}

} // verus!

verus! {

/// The matches of a list of decoded events, in event order.
pub open spec fn parsed_events(root: Seq<char>, evs: Seq<RipgrepEventModel>) -> Seq<MatchModel>
    decreases evs.len(),
{
    if evs.len() == 0 {
        seq![]
    } else {
        parsed_events(root, evs.drop_last()) + match parse_event_spec(root, evs.last()) {
            Some(m) => seq![m],
            None => seq![],
        }
    }
}

/// The views of a list of events.
pub open spec fn events_view(evs: Seq<RipgrepEvent>) -> Seq<RipgrepEventModel> {
    evs.map_values(|e: RipgrepEvent| e@)
}

/// Decodes every event, keeping the matches in order.
pub fn parse_events(root: &str, events: Vec<RipgrepEvent>) -> (out: Vec<LexicalMatch>)
    requires
        forall|i: int| 0 <= i < events@.len() ==> event_in_range(#[trigger] events@[i]@),
    ensures
        matches_view(out@) == parsed_events(root@, events_view(events@)),
{
    let ghost evs = events_view(events@);
    let total = events.len();
    let ghost n = events@.len();
    let mut pending = crate::sort::reversed(events);
    let mut out: Vec<LexicalMatch> = Vec::new();
    let mut j: usize = 0;
    while pending.len() > 0
        invariant
            n == evs.len(),
            n == total,
            pending@.len() == n - j,
            forall|i: int| 0 <= i < pending@.len() ==> #[trigger] pending@[i]@ == evs[n - 1 - i],
            forall|i: int| 0 <= i < n ==> event_in_range(#[trigger] evs[i]),
            matches_view(out@) == parsed_events(root@, evs.take(j as int)),
        decreases pending@.len(),
    {
        let e = pending.pop().unwrap();
        assert(e@ == evs[j as int]);
        assert(evs.take(j + 1).drop_last() =~= evs.take(j as int));
        let ghost before = matches_view(out@);
        match parse_event(root, e) {
            Some(m) => {
                out.push(m);
                assert(matches_view(out@) =~= before.push(match_view(m)));
            },
            None => {},
        }
        proof {
            assert(evs.take(j + 1).last() == evs[j as int]);
        }
        j += 1;
    }
    assert(evs.take(n as int) =~= evs);
    out
}

/// Requested search paths split by whether they exist.
#[derive(Debug, PartialEq, Eq)]
pub struct CheckedPaths {
    pub existing: Vec<String>,
    pub missing: Vec<String>,
}

/// The paths whose existence flag equals `want`, in order.
pub open spec fn select_paths(paths: Seq<Seq<char>>, exists: Seq<bool>, want: bool) -> Seq<Seq<char>>
    decreases paths.len(),
{
    if paths.len() == 0 {
        seq![]
    } else {
        select_paths(paths.drop_last(), exists.take(paths.len() - 1), want)
            + (if exists[paths.len() - 1] == want { seq![paths.last()] } else { seq![] })
    }
}

/// Splits the requested paths by their existence flags (`exists[i]` tells whether
/// `paths[i]`, resolved against the root, exists).
pub fn check_paths(paths: &Vec<String>, exists: &Vec<bool>) -> (c: CheckedPaths)
    requires
        exists@.len() == paths@.len(),
    ensures
        c.existing.deep_view() == select_paths(paths.deep_view(), exists@, true),
        c.missing.deep_view() == select_paths(paths.deep_view(), exists@, false),
{
    let mut existing: Vec<String> = Vec::new();
    let mut missing: Vec<String> = Vec::new();
    let mut i: usize = 0;
    while i < paths.len()
        invariant
            0 <= i <= paths@.len(),
            exists@.len() == paths@.len(),
            existing.deep_view() == select_paths(paths.deep_view().take(i as int), exists@.take(i as int), true),
            missing.deep_view() == select_paths(paths.deep_view().take(i as int), exists@.take(i as int), false),
        decreases paths@.len() - i,
    {
        let ghost pv = paths.deep_view().take(i + 1);
        assert(pv.drop_last() =~= paths.deep_view().take(i as int));
        assert(exists@.take(i + 1).take(i as int) =~= exists@.take(i as int));
        assert(pv.last() == paths.deep_view()[i as int]);
        if exists[i] {
            push_string(&mut existing, paths[i].clone());
        } else {
            push_string(&mut missing, paths[i].clone());
        }
        i += 1;
    }
    assert(paths.deep_view().take(paths@.len() as int) =~= paths.deep_view());
    assert(exists@.take(paths@.len() as int) =~= exists@);
    CheckedPaths { existing, missing }
}

fn clone_strings(v: &Vec<String>) -> (out: Vec<String>)
    ensures
        out.deep_view() == v.deep_view(),
{
    let mut out: Vec<String> = Vec::new();
    let mut i: usize = 0;
    while i < v.len()
        invariant
            0 <= i <= v@.len(),
            out.deep_view() == v.deep_view().take(i as int),
        decreases v@.len() - i,
    {
        push_string(&mut out, v[i].clone());
        assert(v.deep_view().take(i + 1) =~= v.deep_view().take(i as int).push(v.deep_view()[i as int]));
        i += 1;
    }
    assert(v.deep_view().take(v@.len() as int) =~= v.deep_view());
    out
}

/// How a search ran: the backend, the executable and its arguments, the hard-ignored
/// directories, the missing and searched paths, the limit and whether it cut the reply.
pub open spec fn diagnostics_hold(
    d: LexicalDiagnostics,
    executable: Seq<char>,
    args: Seq<Seq<char>>,
    request: LexicalSearchRequestModel,
    checked: CheckedPaths,
    truncated: bool,
) -> bool {
    &&& d.backend@ == "rg"@
    &&& d.command@ == executable
    &&& d.args.deep_view() == args
    &&& d.ignored_directories.deep_view() == hard_ignored_directories()
    &&& d.missing_paths.deep_view() == checked.missing.deep_view()
    &&& d.searched_paths.deep_view() == checked.existing.deep_view()
    &&& opt_usize(d.limit) == request.limit
    &&& d.truncated == truncated
}

/// The diagnostics of a search.
pub fn diagnostics(
    executable: &str,
    args: &Vec<String>,
    request: &LexicalSearchRequest,
    checked: &CheckedPaths,
    truncated: bool,
) -> (d: LexicalDiagnostics)
    ensures
        diagnostics_hold(d, executable@, args.deep_view(), request@, *checked, truncated),
{
    let mut ignored: Vec<String> = Vec::new();
    push_string(&mut ignored, ".git".to_owned());
    push_string(&mut ignored, ".zvec-grep".to_owned());
    assert(ignored.deep_view() =~= hard_ignored_directories());
    LexicalDiagnostics {
        backend: "rg".to_owned(),
        command: executable.to_owned(),
        args: clone_strings(args),
        ignored_directories: ignored,
        missing_paths: clone_strings(&checked.missing),
        searched_paths: clone_strings(&checked.existing),
        limit: request.limit,
        truncated,
    }
}

/// The reply of a search with nothing to search: no matches, exhaustive.
pub fn empty_reply(
    root: &str,
    executable: &str,
    args: &Vec<String>,
    request: &LexicalSearchRequest,
    checked: &CheckedPaths,
) -> (r: LexicalSearchReply)
    ensures
        r.root@ == root@,
        r.coverage == LexicalCoverage::Exhaustive,
        r.matches@.len() == 0,
        diagnostics_hold(r.diagnostics, executable@, args.deep_view(), request@, *checked, false),
{
    LexicalSearchReply {
        root: root.to_owned(),
        coverage: LexicalCoverage::Exhaustive,
        matches: Vec::new(),
        diagnostics: diagnostics(executable, args, request, checked, false),
    }
}

/// What a search does next: run ripgrep with these arguments over the existing paths,
/// or reply at once.
#[derive(Debug, PartialEq, Eq)]
pub enum SearchPlan {
    Run { args: Vec<String>, checked: CheckedPaths },
    Finished(LexicalSearchReply),
}

/// The message of a search with neither a pattern nor a pattern file.
pub open spec fn missing_pattern_message() -> Seq<char> {
    "lexical search requires a pattern or pattern file"@
}

/// Plans a search: a request needs a pattern or a pattern file; requested paths are split
/// by `exists`, and when paths were requested but none exists the reply is empty.
pub fn plan_search(root: &str, executable: &str, request: &LexicalSearchRequest, exists: &Vec<bool>) -> (r: Result<SearchPlan, EngineError>)
    requires
        exists@.len() == request.paths@.len(),
    ensures
        (request@.patterns.len() == 0 && request@.pattern_files.len() == 0) <==> r is Err,
        r matches Err(e) ==> e@ == (EngineErrorModel::InvalidInput { message: missing_pattern_message() }),
        r matches Ok(p) ==> {
            let existing = select_paths(request@.paths, exists@, true);
            let missing = select_paths(request@.paths, exists@, false);
            let args = build_args_spec(request@, existing);
            match p {
                SearchPlan::Run { args: a, checked } => {
                    &&& !(request@.paths.len() > 0 && existing.len() == 0)
                    &&& a.deep_view() == args
                    &&& checked.existing.deep_view() == existing
                    &&& checked.missing.deep_view() == missing
                },
                SearchPlan::Finished(reply) => {
                    &&& request@.paths.len() > 0 && existing.len() == 0
                    &&& reply.root@ == root@
                    &&& reply.coverage == LexicalCoverage::Exhaustive
                    &&& reply.matches@.len() == 0
                    &&& reply.diagnostics.args.deep_view() == args
                    &&& reply.diagnostics.missing_paths.deep_view() == missing
                    &&& reply.diagnostics.searched_paths.deep_view() == existing
                    &&& reply.diagnostics.command@ == executable@
                    &&& !reply.diagnostics.truncated
                },
            }
        },
{
    if request.patterns.len() == 0 && request.pattern_files.len() == 0 {
        return Err(EngineError::invalid_input("lexical search requires a pattern or pattern file"));
    }
    let checked = check_paths(&request.paths, exists);
    let args = build_args(request, &checked.existing);
    if request.paths.len() > 0 && checked.existing.len() == 0 {
        let reply = empty_reply(root, executable, &args, request, &checked);
        return Ok(SearchPlan::Finished(reply));
    }
    Ok(SearchPlan::Run { args, checked })
}

/// The error of a ripgrep process that exited other than with 0 (matches) or 1 (none):
/// `status` is the exit status as displayed, `stderr` its standard error.
pub open spec fn exit_error_message(status: Seq<char>, stderr: Seq<char>) -> Seq<char> {
    "exit status "@ + status + ": "@ + crate::text::trim(stderr)
}

/// Accepts exit codes 0 and 1; any other exit is a ripgrep backend failure.
pub fn check_exit_status(code: Option<i32>, status: &str, stderr: &str) -> (r: Result<(), EngineError>)
    ensures
        r is Ok <==> (code == Some(0i32) || code == Some(1i32)),
        r matches Err(e) ==> e@ == (EngineErrorModel::BackendFailure { backend: "ripgrep"@, message: exit_error_message(status@, stderr@) }),
{
    match code {
        Some(0) | Some(1) => Ok(()),
        _ => {
            let mut msg: Vec<char> = Vec::new();
            crate::text::append_str(&mut msg, "exit status ");
            crate::text::append_str(&mut msg, status);
            crate::text::append_str(&mut msg, ": ");
            let err = crate::text::chars_of(stderr);
            let t = crate::text::trim_chars(err.as_slice());
            crate::text::append_chars(&mut msg, t.as_slice());
            assert(msg@ =~= exit_error_message(status@, stderr@));
            let m = crate::text::string_of(&msg);
            Err(EngineError::BackendFailure { backend: "ripgrep".to_owned(), message: m })
        },
    }
}

/// The error of a ripgrep process that could not start: a missing executable makes the
/// capability unavailable; any other failure is a backend failure with its message.
pub fn spawn_error(not_found: bool, executable: &str, error: &str) -> (e: EngineError)
    ensures
        not_found ==> e@ == (EngineErrorModel::CapabilityUnavailable { capability: "ripgrep executable "@ + executable@ }),
        !not_found ==> e@ == (EngineErrorModel::BackendFailure { backend: "ripgrep"@, message: error@ }),
{
    if not_found {
        let mut msg: Vec<char> = Vec::new();
        crate::text::append_str(&mut msg, "ripgrep executable ");
        crate::text::append_str(&mut msg, executable);
        let m = crate::text::string_of(&msg);
        EngineError::CapabilityUnavailable { capability: m }
    } else {
        EngineError::backend("ripgrep", error)
    }
}

} // verus!

verus! {

/// Whether a file modified at `modified` (epoch milliseconds, if known) lies within the
/// requested window; an unknown time passes only when no bound is set.
pub open spec fn modified_in_window(modified: Option<u64>, after: Option<u64>, before: Option<u64>) -> bool {
    match after {
        None => match before {
            None => true,
            Some(b) => modified matches Some(v) && v <= b,
        },
        Some(a) => match modified {
            None => false,
            Some(v) => v >= a && match before {
                None => true,
                Some(b) => v <= b,
            },
        },
    }
}

/// Whether a match's file time lies within the requested window.
pub fn matches_modified_time(modified: Option<u64>, after: Option<u64>, before: Option<u64>) -> (r: bool)
    ensures
        r == modified_in_window(modified, after, before),
{
    match after {
        None => match before {
            None => true,
            Some(b) => match modified {
                Some(v) => v <= b,
                None => false,
            },
        },
        Some(a) => match modified {
            None => false,
            Some(v) => v >= a && match before {
                None => true,
                Some(b) => v <= b,
            },
        },
    }
}

/// The matches whose file time lies in the window, in order.
pub open spec fn kept_by_time(ms: Seq<MatchModel>, times: Seq<Option<u64>>, after: Option<u64>, before: Option<u64>) -> Seq<MatchModel>
    decreases ms.len(),
{
    if ms.len() == 0 {
        seq![]
    } else {
        kept_by_time(ms.drop_last(), times.take(ms.len() - 1), after, before)
            + (if modified_in_window(times[ms.len() - 1], after, before) { seq![ms.last()] } else { seq![] })
    }
}

/// Keeps the matches whose file time (`times[i]` for `matches[i]`) lies in the window.
pub fn retain_by_modified_time(matches: Vec<LexicalMatch>, times: &Vec<Option<u64>>, after: Option<u64>, before: Option<u64>) -> (out: Vec<LexicalMatch>)
    requires
        times@.len() == matches@.len(),
    ensures
        matches_view(out@) == kept_by_time(matches_view(matches@), times@, after, before),
{
    let ghost ms = matches_view(matches@);
    let total = matches.len();
    let ghost n = matches@.len();
    let mut pending = crate::sort::reversed(matches);
    let mut out: Vec<LexicalMatch> = Vec::new();
    let mut j: usize = 0;
    while pending.len() > 0
        invariant
            n == ms.len(),
            n == total,
            times@.len() == n,
            pending@.len() == n - j,
            forall|i: int| 0 <= i < pending@.len() ==> #[trigger] match_view(pending@[i]) == ms[n - 1 - i],
            matches_view(out@) == kept_by_time(ms.take(j as int), times@.take(j as int), after, before),
        decreases pending@.len(),
    {
        let m = pending.pop().unwrap();
        assert(match_view(m) == ms[j as int]);
        assert(ms.take(j + 1).drop_last() =~= ms.take(j as int));
        assert(times@.take(j + 1).take(j as int) =~= times@.take(j as int));
        let ghost before_out = matches_view(out@);
        if matches_modified_time(times[j], after, before) {
            out.push(m);
            assert(matches_view(out@) =~= before_out.push(match_view(m)));
        }
        assert(ms.take(j + 1).last() == ms[j as int]);
        j += 1;
    }
    assert(ms.take(n as int) =~= ms);
    assert(times@.take(n as int) =~= times@);
    out
}

/// The modified-time window: with no bound every file is kept; with a bound, only a file
/// whose time is known and lies at or after the lower bound and at or before the upper
/// bound. A window with both bounds keeps exactly the files that each one-sided window keeps.
pub proof fn lemma_modified_window(modified: Option<u64>, after: Option<u64>, before: Option<u64>)
    ensures
        modified_in_window(modified, after, before) <==> (after is None && before is None) || (modified matches Some(v)
            && (after matches Some(a) ==> v >= a) && (before matches Some(b) ==> v <= b)),
        after is Some && before is Some ==> (modified_in_window(modified, after, before) <==> modified_in_window(modified, after, None)
            && modified_in_window(modified, None, before)),
        (modified matches Some(v) && before matches Some(b) && v > b) ==> !modified_in_window(modified, after, before),
        (modified matches Some(v) && after matches Some(a) && v < a) ==> !modified_in_window(modified, after, before),
{
}

/// The lines of a text as `str::lines` yields them, reading from `start`: pieces end at
/// `\n`, a `\r` right before the `\n` is dropped, and no empty piece follows a final `\n`.
pub open spec fn lines_from(s: Seq<char>, start: int, i: int) -> Seq<Seq<char>>
    decreases s.len() - i,
{
    if i < start || i >= s.len() {
        if start < s.len() { seq![s.subrange(start, s.len() as int)] } else { seq![] }
    } else if s[i] == '\n' {
        let line = s.subrange(start, i);
        seq![if line.len() > 0 && line.last() == '\r' { line.drop_last() } else { line }]
            + lines_from(s, i + 1, i + 1)
    } else {
        lines_from(s, start, i + 1)
    }
}

/// The lines of a text (`str::lines`).
pub open spec fn text_lines(s: Seq<char>) -> Seq<Seq<char>> {
    lines_from(s, 0, 0)
}

/// Splits a file's text into lines (`str::lines`).
pub fn split_text_lines(text: &str) -> (lines: Vec<String>)
    ensures
        lines.deep_view() == text_lines(text@),
{
    let s = crate::text::chars_of(text);
    let ghost sv = s@;
    let mut lines: Vec<String> = Vec::new();
    let mut start: usize = 0;
    let mut i: usize = 0;
    while i < s.len()
        invariant
            sv == s@,
            sv == text@,
            start <= i <= sv.len(),
            lines.deep_view() + lines_from(sv, start as int, i as int) == text_lines(sv),
        decreases sv.len() - i,
    {
        if s[i] == '\n' {
            let mut end = i;
            if end > start && s[end - 1] == '\r' {
                end -= 1;
            }
            let piece = crate::text::slice_chars(s.as_slice(), start, end);
            let ghost line = sv.subrange(start as int, i as int);
            proof {
                if line.len() > 0 && line.last() == '\r' {
                    assert(piece@ =~= line.drop_last());
                } else {
                    assert(piece@ =~= line);
                }
            }
            let ghost before = lines.deep_view();
            let ghost (s0, i0) = (start as int, i as int);
            push_string(&mut lines, crate::text::string_of(&piece));
            i += 1;
            start = i;
            assert(lines.deep_view() + lines_from(sv, start as int, i as int) =~= before + lines_from(sv, s0, i0));
        } else {
            i += 1;
        }
    }
    if start < s.len() {
        let piece = crate::text::slice_chars(s.as_slice(), start, s.len());
        let ghost before = lines.deep_view();
        push_string(&mut lines, crate::text::string_of(&piece));
        assert(lines.deep_view() =~= before + lines_from(sv, start as int, i as int));
    } else {
        assert(lines.deep_view() =~= lines.deep_view() + lines_from(sv, start as int, i as int));
    }
    lines
}

/// Lines joined with `\n`.
pub open spec fn join_lines(ls: Seq<Seq<char>>) -> Seq<char>
    decreases ls.len(),
{
    if ls.len() == 0 {
        seq![]
    } else if ls.len() == 1 {
        ls[0]
    } else {
        join_lines(ls.drop_last()) + seq!['\n'] + ls.last()
    }
}

/// The first line of a match's context window (at least 1).
pub open spec fn window_start(start_line: usize, before: usize) -> int {
    let s = if start_line >= before { start_line - before } else { 0 };
    if s < 1 { 1 } else { s }
}

/// The last line of a match's context window (at most the file's line count).
pub open spec fn window_end(end_line: usize, after: usize, count: nat) -> int {
    let e: int = if end_line + after > usize::MAX { usize::MAX as int } else { end_line + after };
    if e > count { count as int } else { e }
}

/// A match's context window can be cut from a file of `lines`: the file has lines, the
/// window does not start past its end, and the last line's UTF-16 length fits.
pub open spec fn window_in_range(m: MatchModel, before: usize, after: usize, lines: Seq<Seq<char>>) -> bool {
    lines.len() > 0 ==> {
        let s = window_start(m.range.start_line, before);
        let e = window_end(m.range.end_line, after, lines.len());
        &&& s - 1 <= e
        &&& e >= 1
        &&& utf16_len(lines[e - 1]) <= usize::MAX
    }
}

/// A match widened to its context window in a file of `lines` (unchanged when the file has
/// no lines): the old range becomes the excerpt, the range covers the whole window from
/// column 0 to the end of its last line, and the content is the window's lines.
pub open spec fn expand_match_spec(m: MatchModel, before: usize, after: usize, lines: Seq<Seq<char>>) -> MatchModel {
    if lines.len() == 0 {
        m
    } else {
        let s = window_start(m.range.start_line, before);
        let e = window_end(m.range.end_line, after, lines.len());
        MatchModel {
            range: TextRange {
                start_line: s as usize,
                end_line: e as usize,
                start_offset: 0,
                end_offset: utf16_len(lines[e - 1]) as usize,
            },
            excerpt_range: Some(m.range),
            content: join_lines(lines.subrange(s - 1, e)),
            ..m
        }
    }
}

/// Widens one match to its context window in its file's lines.
pub fn expand_match(m: LexicalMatch, before: usize, after: usize, lines: &Vec<String>) -> (out: LexicalMatch)
    requires
        window_in_range(match_view(m), before, after, lines.deep_view()),
    ensures
        match_view(out) == expand_match_spec(match_view(m), before, after, lines.deep_view()),
{
    if lines.len() == 0 {
        return m;
    }
    let excerpt = m.range;
    let s0 = excerpt.start_line.saturating_sub(before);
    let start_line = if s0 < 1 { 1 } else { s0 };
    let e0 = excerpt.end_line.saturating_add(after);
    let end_line = if e0 > lines.len() { lines.len() } else { e0 };
    let ghost lv = lines.deep_view();
    let mut content: Vec<char> = Vec::new();
    let mut k: usize = start_line - 1;
    while k < end_line
        invariant
            start_line - 1 <= k <= end_line <= lines@.len(),
            lv == lines.deep_view(),
            start_line >= 1,
            content@ == join_lines(lv.subrange(start_line - 1, k as int)),
        decreases end_line - k,
    {
        let ghost before_c = content@;
        if k > start_line - 1 {
            content.push('\n');
        }
        crate::text::append_str(&mut content, lines[k].as_str());
        proof {
            let next = lv.subrange(start_line - 1, k + 1);
            assert(next.drop_last() =~= lv.subrange(start_line - 1, k as int));
            assert(next.last() == lv[k as int]);
            if k == start_line - 1 {
                assert(content@ =~= next[0]);
            } else {
                assert(content@ =~= before_c + seq!['\n'] + next.last());
            }
        }
        k += 1;
    }
    let last = crate::text::chars_of(lines[end_line - 1].as_str());
    let end_offset = utf16_count(last.as_slice());
    let range = TextRange { start_line, end_line, start_offset: 0, end_offset };
    LexicalMatch {
        rank: m.rank,
        absolute_path: m.absolute_path,
        relative_path: m.relative_path,
        range,
        excerpt_range: Some(excerpt),
        content: crate::text::string_of(&content),
    }
}

/// Whether a match's context window can be cut from a file of `lines`.
pub fn window_in_range_check(m: &LexicalMatch, before: usize, after: usize, lines: &Vec<String>) -> (r: bool)
    ensures
        r == window_in_range(match_view(*m), before, after, lines.deep_view()),
{
    if lines.len() == 0 {
        return true;
    }
    let s0 = m.range.start_line.saturating_sub(before);
    let start_line = if s0 < 1 { 1 } else { s0 };
    let e0 = m.range.end_line.saturating_add(after);
    let end_line = if e0 > lines.len() { lines.len() } else { e0 };
    if start_line - 1 > end_line || end_line == 0 {
        return false;
    }
    let last = crate::text::chars_of(lines[end_line - 1].as_str());
    utf16_fits(last.as_slice())
}

fn utf16_fits(c: &[char]) -> (r: bool)
    ensures
        r == (utf16_len(c@) <= usize::MAX),
{
    let mut units: usize = 0;
    let mut i: usize = 0;
    while i < c.len()
        invariant
            0 <= i <= c@.len(),
            units == utf16_len(c@.take(i as int)),
        decreases c@.len() - i,
    {
        assert(c@.take(i + 1).drop_last() =~= c@.take(i as int));
        let u: usize = if (c[i] as u32) < 0x10000 { 1 } else { 2 };
        if usize::MAX - units < u {
            proof { lemma_counts_grow(c@, i + 1); }
            return false;
        }
        units += u;
        i += 1;
    }
    assert(c@.take(c@.len() as int) =~= c@);
    true
}

/// The matches widened to their context windows: nothing changes when both window sizes
/// are 0, and a match whose file could not be read (`None`) or is empty stays as it is.
pub open spec fn expanded_spec(ms: Seq<MatchModel>, before: usize, after: usize, files: Seq<Option<Seq<Seq<char>>>>) -> Seq<MatchModel> {
    if before == 0 && after == 0 {
        ms
    } else {
        Seq::new(ms.len(), |i: int| match files[i] {
            Some(lines) => expand_match_spec(ms[i], before, after, lines),
            None => ms[i],
        })
    }
}

/// The lines of each match's file, as views.
pub open spec fn files_view(files: Seq<Option<Vec<String>>>) -> Seq<Option<Seq<Seq<char>>>> {
    files.map_values(|f: Option<Vec<String>>| match f {
        Some(v) => Some(v.deep_view()),
        None => None,
    })
}

/// Widens every match to `before` lines above and `after` lines below it, given the lines
/// of each match's file (`files[i]` for `matches[i]`; `None` when it could not be read).
pub fn expand_context(matches: Vec<LexicalMatch>, before: usize, after: usize, files: &Vec<Option<Vec<String>>>) -> (out: Vec<LexicalMatch>)
    requires
        files@.len() == matches@.len(),
        !(before == 0 && after == 0) ==> forall|i: int| 0 <= i < matches@.len() ==> (#[trigger] files@[i] matches Some(v)
            ==> window_in_range(match_view(matches@[i]), before, after, v.deep_view())),
    ensures
        matches_view(out@) == expanded_spec(matches_view(matches@), before, after, files_view(files@)),
{
    if before == 0 && after == 0 {
        return matches;
    }
    let ghost ms = matches_view(matches@);
    let ghost fv = files_view(files@);
    let ghost orig = matches@;
    let total = matches.len();
    let ghost n = matches@.len();
    let mut pending = crate::sort::reversed(matches);
    let mut out: Vec<LexicalMatch> = Vec::new();
    let mut j: usize = 0;
    while pending.len() > 0
        invariant
            n == ms.len(),
            n == total,
            n == orig.len(),
            ms == matches_view(orig),
            fv == files_view(files@),
            files@.len() == n,
            !(before == 0 && after == 0),
            forall|i: int| 0 <= i < n ==> (#[trigger] files@[i] matches Some(v)
                ==> window_in_range(match_view(orig[i]), before, after, v.deep_view())),
            pending@.len() == n - j,
            forall|i: int| 0 <= i < pending@.len() ==> #[trigger] pending@[i] == orig[n - 1 - i],
            out@.len() == j,
            forall|i: int| 0 <= i < j ==> #[trigger] match_view(out@[i]) == expanded_spec(ms, before, after, fv)[i],
        decreases pending@.len(),
    {
        let m = pending.pop().unwrap();
        assert(m == orig[j as int]);
        let e = match &files[j] {
            Some(lines) => expand_match(m, before, after, lines),
            None => m,
        };
        let ghost old_out = out@;
        out.push(e);
        proof {
            assert(fv[j as int] == match files@[j as int] { Some(v) => Some(v.deep_view()), None => None::<Seq<Seq<char>>> });
            assert forall|i: int| 0 <= i < j + 1 implies #[trigger] match_view(out@[i]) == expanded_spec(ms, before, after, fv)[i] by {
                if i < j {
                    assert(out@[i] == old_out[i]);
                }
            }
        }
        j += 1;
    }
    proof {
        assert(matches_view(out@) =~= expanded_spec(ms, before, after, fv));
    }
    out
}

} // verus!

verus! {

/// The first `limit` (all, without a limit) sorted matches, ranked from 1.
pub open spec fn ranked(sorted: Seq<MatchModel>, limit: Option<nat>) -> Seq<MatchModel> {
    let n: int = match limit {
        Some(l) => if l < sorted.len() { l as int } else { sorted.len() as int },
        None => sorted.len() as int,
    };
    Seq::new(n as nat, |k: int| MatchModel { rank: (k + 1) as usize, ..sorted[k] })
}

/// `output` is the reported form of `input`: sorted stably into report order, cut to the
/// limit and ranked from 1.
pub open spec fn is_report_of(input: Seq<LexicalMatch>, limit: Option<nat>, output: Seq<MatchModel>) -> bool {
    exists|sorted: Seq<LexicalMatch>| crate::sort::is_stable_sort_of(input, sorted) && output == ranked(matches_view(sorted), limit)
}

/// Whether a limit cut matches off.
pub open spec fn is_truncated(count: nat, limit: Option<nat>) -> bool {
    limit matches Some(l) && count > l
}

/// Ranks matches from 1 in their current order.
fn rank_in_order(matches: Vec<LexicalMatch>) -> (out: Vec<LexicalMatch>)
    ensures
        matches_view(out@) == Seq::new(matches@.len(), |k: int| (MatchModel { rank: (k + 1) as usize, ..matches_view(matches@)[k] })),
{
    let ghost ms = matches_view(matches@);
    let total = matches.len();
    let ghost n = matches@.len();
    let mut pending = crate::sort::reversed(matches);
    let mut out: Vec<LexicalMatch> = Vec::new();
    let mut j: usize = 0;
    while pending.len() > 0
        invariant
            n == ms.len(),
            n == total,
            pending@.len() == n - j,
            forall|i: int| 0 <= i < pending@.len() ==> #[trigger] match_view(pending@[i]) == ms[n - 1 - i],
            out@.len() == j,
            forall|i: int| 0 <= i < j ==> #[trigger] match_view(out@[i]) == (MatchModel { rank: (i + 1) as usize, ..ms[i] }),
        decreases pending@.len(),
    {
        let m = pending.pop().unwrap();
        assert(match_view(m) == ms[j as int]);
        let ghost old_out = out@;
        out.push(LexicalMatch { rank: j + 1, ..m });
        proof {
            assert forall|i: int| 0 <= i < j + 1 implies #[trigger] match_view(out@[i]) == (MatchModel { rank: (i + 1) as usize, ..ms[i] }) by {
                if i < j {
                    assert(out@[i] == old_out[i]);
                }
            }
        }
        j += 1;
    }
    assert(matches_view(out@) =~= Seq::new(n, |k: int| MatchModel { rank: (k + 1) as usize, ..ms[k] }));
    out
}

/// Completes a search from the matches ripgrep produced (already expanded and filtered):
/// sorts them, cuts them to the limit, ranks them and reports how the search ran.
pub fn finish_search(
    root: &str,
    executable: &str,
    args: &Vec<String>,
    request: &LexicalSearchRequest,
    checked: &CheckedPaths,
    matches: Vec<LexicalMatch>,
) -> (reply: LexicalSearchReply)
    ensures
        reply.root@ == root@,
        is_report_of(matches@, request@.limit, matches_view(reply.matches@)),
        reply.coverage == (if is_truncated(matches@.len(), request@.limit) { LexicalCoverage::Truncated } else { LexicalCoverage::Exhaustive }),
        diagnostics_hold(reply.diagnostics, executable@, args.deep_view(), request@, *checked, is_truncated(matches@.len(), request@.limit)),
{
    let ghost input = matches@;
    let count = matches.len();
    let mut sorted = sort_matches(matches);
    let ghost sorted_all = sorted@;
    let ghost sv = matches_view(sorted@);
    let truncated = match request.limit {
        Some(limit) => count > limit,
        None => false,
    };
    if let Some(limit) = request.limit {
        if sorted.len() > limit {
            sorted.truncate(limit);
        }
    }
    let ghost cut = matches_view(sorted@);
    proof {
        assert(cut =~= sv.take(cut.len() as int));
    }
    let ranked_matches = rank_in_order(sorted);
    proof {
        let out = matches_view(ranked_matches@);
        assert(out =~= ranked(sv, request@.limit));
        assert(sv == matches_view(sorted_all));
        assert(is_report_of(input, request@.limit, out));
    }
    LexicalSearchReply {
        root: root.to_owned(),
        coverage: if truncated { LexicalCoverage::Truncated } else { LexicalCoverage::Exhaustive },
        matches: ranked_matches,
        diagnostics: diagnostics(executable, args, request, checked, truncated),
    }
}

} // verus!

verus! {

/// The ripgrep adapter's configuration: which executable to run, and how many
/// ripgrep processes may run at once (never fewer than one).
#[derive(Debug, PartialEq, Eq)]
pub struct RipgrepAdapter {
    executable: String,
    max_processes: usize,
}

impl RipgrepAdapter {
    /// An adapter running `executable`, one process at a time.
    pub fn new(executable: &str) -> (a: RipgrepAdapter)
        ensures
            a.executable_spec() == executable@,
            a.max_processes_spec() == 1,
    {
        RipgrepAdapter { executable: executable.to_owned(), max_processes: 1 }
    }

    /// The same adapter allowing `max_processes` concurrent processes (at least one).
    pub fn with_max_processes(self, max_processes: usize) -> (a: RipgrepAdapter)
        ensures
            a.executable_spec() == self.executable_spec(),
            a.max_processes_spec() == (if max_processes > 1 { max_processes } else { 1 }),
    {
        let limit = if max_processes > 1 { max_processes } else { 1 };
        RipgrepAdapter { executable: self.executable, max_processes: limit }
    }

    /// The executable path.
    pub closed spec fn executable_spec(&self) -> Seq<char> {
        self.executable@
    }

    /// The process limit.
    pub closed spec fn max_processes_spec(&self) -> usize {
        self.max_processes
    }

    /// The executable this adapter runs.
    pub fn executable(&self) -> (s: &str)
        ensures
            s@ == self.executable_spec(),
    {
        self.executable.as_str()
    }

    /// How many ripgrep processes may run at once.
    pub fn max_processes(&self) -> (n: usize)
        ensures
            n == self.max_processes_spec(),
            n >= 1,
    {
        proof {
            use_type_invariant(self);
        }
        self.max_processes
    }

    #[verifier::type_invariant]
    spec fn at_least_one_process(&self) -> bool {
        self.max_processes >= 1
    }
}

impl Default for RipgrepAdapter {
    /// The adapter for `rg` on the `PATH`.
    fn default() -> (a: RipgrepAdapter)
        ensures
            a.executable_spec() == "rg"@,
            a.max_processes_spec() == 1,
    {
        RipgrepAdapter::new("rg")
    }
}

} // verus!
