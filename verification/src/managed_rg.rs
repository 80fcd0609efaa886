//! The safe managed-ripgrep argument dialect of the CLI: long `--name=value` forms,
//! bundled short options, pass-through switches, and a refusal of every option that
//! would replace the managed output format.
use vstd::prelude::*;

use crate::cli::context_for_rg_args;
use crate::context::{ContextOptions, ContextOptionsModel, RgOptionsModel, context_options_default};
use crate::text::{
    append_str, debug_quoted, debug_str, all_digits, arg_chars, arg_clone, chars_eq, chars_start_with, digits_value, find_char,
    first_index_of, is_prefix, parse_unsigned, parse_unsigned_chars, push_string, slice_chars,
    string_of, utf8_len, utf8_len_exceeds,
};

verus! {

/// Failure while parsing the managed-ripgrep dialect.
#[derive(Debug, PartialEq, Eq)]
pub enum ManagedRgArgumentError {
    MissingPattern,
    UnsupportedOption(String),
    OutputOption(String),
    MissingOptionValue { option: String },
    InvalidOptionValue { option: String, value: String },
}

/// The mathematical form of a [`ManagedRgArgumentError`].
pub enum ManagedRgErrorModel {
    MissingPattern,
    UnsupportedOption(Seq<char>),
    OutputOption(Seq<char>),
    MissingOptionValue(Seq<char>),
    InvalidOptionValue(Seq<char>, Seq<char>),
}

impl View for ManagedRgArgumentError {
    type V = ManagedRgErrorModel;

    open spec fn view(&self) -> ManagedRgErrorModel {
        match self {
            ManagedRgArgumentError::MissingPattern => ManagedRgErrorModel::MissingPattern,
            ManagedRgArgumentError::UnsupportedOption(o) => ManagedRgErrorModel::UnsupportedOption(o@),
            ManagedRgArgumentError::OutputOption(o) => ManagedRgErrorModel::OutputOption(o@),
            ManagedRgArgumentError::MissingOptionValue { option } => ManagedRgErrorModel::MissingOptionValue(option@),
            ManagedRgArgumentError::InvalidOptionValue { option, value } => ManagedRgErrorModel::InvalidOptionValue(option@, value@),
        }
    }
}

/// The human-readable message of a managed-ripgrep argument error.
pub open spec fn managed_rg_error_message(e: ManagedRgErrorModel) -> Seq<char> {
    match e {
        ManagedRgErrorModel::MissingPattern => "zg query --rg requires a pattern"@,
        ManagedRgErrorModel::UnsupportedOption(o) => "unsupported --rg option: "@ + o,
        ManagedRgErrorModel::OutputOption(o) => o + " changes rg output and cannot be used with managed --rg"@,
        ManagedRgErrorModel::MissingOptionValue(o) => o + " requires a value"@,
        ManagedRgErrorModel::InvalidOptionValue(o, v) => "invalid value "@ + debug_quoted(v) + " for "@ + o,
    }
}

impl ManagedRgArgumentError {
    /// The human-readable message of this error.
    pub fn message(&self) -> (s: String)
        ensures
            s@ == managed_rg_error_message(self@),
    {
        let mut out: Vec<char> = Vec::new();
        match self {
            ManagedRgArgumentError::MissingPattern => append_str(&mut out, "zg query --rg requires a pattern"),
            ManagedRgArgumentError::UnsupportedOption(o) => {
                append_str(&mut out, "unsupported --rg option: ");
                append_str(&mut out, o.as_str());
            },
            ManagedRgArgumentError::OutputOption(o) => {
                append_str(&mut out, o.as_str());
                append_str(&mut out, " changes rg output and cannot be used with managed --rg");
            },
            ManagedRgArgumentError::MissingOptionValue { option } => {
                append_str(&mut out, option.as_str());
                append_str(&mut out, " requires a value");
            },
            ManagedRgArgumentError::InvalidOptionValue { option, value } => {
                append_str(&mut out, "invalid value ");
                append_str(&mut out, debug_str(value.as_str()).as_str());
                append_str(&mut out, " for ");
                append_str(&mut out, option.as_str());
            },
        }
        crate::text::string_of(&out)
    }
}

type St = ContextOptionsModel;

type ErrM = ManagedRgErrorModel;

/// Long switches that ripgrep takes without a value and that managed search passes through.
pub open spec fn flag_without_value_spec(v: Seq<char>) -> bool {
    v == "--auto-hybrid-regex"@ || v == "--case-sensitive"@ || v == "--binary"@ || v == "--crlf"@
        || v == "--invert-match"@ || v == "--line-regexp"@ || v == "--mmap"@ || v == "--multiline"@
        || v == "--multiline-dotall"@ || v == "--no-crlf"@ || v == "--no-fixed-strings"@
        || v == "--no-ignore-dot"@ || v == "--no-ignore-files"@ || v == "--no-ignore-global"@
        || v == "--no-ignore-parent"@ || v == "--no-ignore-vcs"@ || v == "--no-config"@
        || v == "--no-mmap"@ || v == "--no-multiline"@ || v == "--no-search-zip"@ || v == "--pcre2"@
        || v == "--one-file-system"@ || v == "--search-zip"@ || v == "--smart-case"@
        || v == "--stop-on-nonmatch"@ || v == "--text"@ || v == "--unicode"@ || v == "--no-unicode"@
        || v == "--glob-case-insensitive"@
}

/// Long options that ripgrep takes with a value and that managed search passes through.
pub open spec fn flag_with_value_spec(v: Seq<char>) -> bool {
    v == "--dfa-size-limit"@ || v == "--encoding"@ || v == "--engine"@ || v == "--max-columns"@
        || v == "--max-count"@ || v == "--regex-size-limit"@ || v == "--threads"@
}

/// Option names that change ripgrep's output and cannot be combined with managed output.
pub open spec fn output_name_spec(v: Seq<char>) -> bool {
    v == "--count"@ || v == "--count-matches"@ || v == "--files"@ || v == "--files-with-matches"@
        || v == "--files-without-match"@ || v == "--column"@ || v == "--byte-offset"@
        || v == "--no-column"@ || v == "--colors"@ || v == "--context-separator"@
        || v == "--field-context-separator"@ || v == "--field-match-separator"@ || v == "--json"@
        || v == "--heading"@ || v == "--no-heading"@ || v == "--no-filename"@
        || v == "--no-line-number"@ || v == "--only-matching"@ || v == "--passthru"@
        || v == "--path-separator"@ || v == "--quiet"@ || v == "--pretty"@ || v == "--replace"@
        || v == "--stats"@ || v == "--trim"@ || v == "--vimgrep"@ || v == "-c"@ || v == "-b"@
        || v == "-I"@ || v == "-l"@ || v == "-N"@ || v == "-o"@ || v == "-p"@ || v == "-q"@
        || v == "-r"@
}

/// The name part of `name=value`, or the whole argument when it holds no `=`.
pub open spec fn option_name(v: Seq<char>) -> Seq<char> {
    match first_index_of(v, '=') {
        Some(k) => v.take(k),
        None => v,
    }
}

/// Whether an argument names an output-changing option (its `=value` part ignored).
pub open spec fn is_output_option_spec(v: Seq<char>) -> bool {
    output_name_spec(option_name(v))
}

fn flag_without_value(v: &Vec<char>) -> (r: bool)
    ensures
        r == flag_without_value_spec(v@),
{
    let s = v.as_slice();
    chars_eq(s, "--auto-hybrid-regex") || chars_eq(s, "--case-sensitive") || chars_eq(s, "--binary")
        || chars_eq(s, "--crlf") || chars_eq(s, "--invert-match") || chars_eq(s, "--line-regexp")
        || chars_eq(s, "--mmap") || chars_eq(s, "--multiline") || chars_eq(s, "--multiline-dotall")
        || chars_eq(s, "--no-crlf") || chars_eq(s, "--no-fixed-strings") || chars_eq(s, "--no-ignore-dot")
        || chars_eq(s, "--no-ignore-files") || chars_eq(s, "--no-ignore-global")
        || chars_eq(s, "--no-ignore-parent") || chars_eq(s, "--no-ignore-vcs") || chars_eq(s, "--no-config")
        || chars_eq(s, "--no-mmap") || chars_eq(s, "--no-multiline") || chars_eq(s, "--no-search-zip")
        || chars_eq(s, "--pcre2") || chars_eq(s, "--one-file-system") || chars_eq(s, "--search-zip")
        || chars_eq(s, "--smart-case") || chars_eq(s, "--stop-on-nonmatch") || chars_eq(s, "--text")
        || chars_eq(s, "--unicode") || chars_eq(s, "--no-unicode") || chars_eq(s, "--glob-case-insensitive")
}

fn flag_with_value(v: &Vec<char>) -> (r: bool)
    ensures
        r == flag_with_value_spec(v@),
{
    let s = v.as_slice();
    chars_eq(s, "--dfa-size-limit") || chars_eq(s, "--encoding") || chars_eq(s, "--engine")
        || chars_eq(s, "--max-columns") || chars_eq(s, "--max-count") || chars_eq(s, "--regex-size-limit")
        || chars_eq(s, "--threads")
}

fn output_name(s: &[char]) -> (r: bool)
    ensures
        r == output_name_spec(s@),
{
    chars_eq(s, "--count") || chars_eq(s, "--count-matches") || chars_eq(s, "--files")
        || chars_eq(s, "--files-with-matches") || chars_eq(s, "--files-without-match")
        || chars_eq(s, "--column") || chars_eq(s, "--byte-offset") || chars_eq(s, "--no-column")
        || chars_eq(s, "--colors") || chars_eq(s, "--context-separator")
        || chars_eq(s, "--field-context-separator") || chars_eq(s, "--field-match-separator")
        || chars_eq(s, "--json") || chars_eq(s, "--heading") || chars_eq(s, "--no-heading")
        || chars_eq(s, "--no-filename") || chars_eq(s, "--no-line-number") || chars_eq(s, "--only-matching")
        || chars_eq(s, "--passthru") || chars_eq(s, "--path-separator") || chars_eq(s, "--quiet")
        || chars_eq(s, "--pretty") || chars_eq(s, "--replace") || chars_eq(s, "--stats")
        || chars_eq(s, "--trim") || chars_eq(s, "--vimgrep") || chars_eq(s, "-c") || chars_eq(s, "-b")
        || chars_eq(s, "-I") || chars_eq(s, "-l") || chars_eq(s, "-N") || chars_eq(s, "-o")
        || chars_eq(s, "-p") || chars_eq(s, "-q") || chars_eq(s, "-r")
}

fn is_output_option(v: &Vec<char>) -> (r: bool)
    ensures
        r == is_output_option_spec(v@),
{
    match find_char(v.as_slice(), '=') {
        Some(k) => {
            let name = slice_chars(v.as_slice(), 0, k);
            assert(name@ =~= v@.take(k as int));
            output_name(name.as_slice())
        },
        None => output_name(v.as_slice()),
    }
}

/// ripgrep's human-readable size: one or more ASCII digits and an optional
/// `K`, `M` or `G` suffix (binary multiples), fitting in a `u64`.
pub open spec fn byte_size_spec(s: Seq<char>) -> Option<nat> {
    let (digits, multiplier) = if s.len() > 0 && s.last() == 'K' {
        (s.drop_last(), 1024nat)
    } else if s.len() > 0 && s.last() == 'M' {
        (s.drop_last(), 1024nat * 1024)
    } else if s.len() > 0 && s.last() == 'G' {
        (s.drop_last(), 1024nat * 1024 * 1024)
    } else {
        (s, 1nat)
    };
    if digits.len() > 0 && all_digits(digits) && digits_value(digits) <= u64::MAX
        && digits_value(digits) * multiplier <= u64::MAX {
        Some(digits_value(digits) * multiplier)
    } else {
        None
    }
}

/// Parses a size such as `512`, `10K` or `2G` into bytes.
pub fn parse_byte_size(s: &[char]) -> (r: Option<u64>)
    ensures
        match r {
            Some(v) => byte_size_spec(s@) == Some(v as nat),
            None => byte_size_spec(s@) is None,
        },
{
    let n = s.len();
    let (end, multiplier): (usize, u64) = if n > 0 && s[n - 1] == 'K' {
        (n - 1, 1024)
    } else if n > 0 && s[n - 1] == 'M' {
        (n - 1, 1024 * 1024)
    } else if n > 0 && s[n - 1] == 'G' {
        (n - 1, 1024 * 1024 * 1024)
    } else {
        (n, 1)
    };
    let digits = slice_chars(s, 0, end);
    assert(end < n ==> digits@ =~= s@.drop_last());
    assert(end == n ==> digits@ =~= s@);
    if digits.len() == 0 || digits[0] == '+' {
        proof {
            if digits@.len() > 0 {
                assert(!crate::text::is_digit(digits@[0]));
            }
        }
        return None;
    }
    let parsed = parse_unsigned_chars(digits.as_slice(), u64::MAX);
    assert(crate::text::unsigned_body(digits@) == digits@);
    match parsed {
        None => None,
        Some(v) => {
            if v > u64::MAX / multiplier {
                assert(v * multiplier > u64::MAX) by (nonlinear_arith)
                    requires v > u64::MAX / multiplier, multiplier > 0;
                None
            } else {
                assert(v * multiplier <= u64::MAX) by (nonlinear_arith)
                    requires v <= u64::MAX / multiplier, multiplier > 0;
                Some(v * multiplier)
            }
        },
    }
}

/// `name=value` forms of the long options. `Ok(None)` when the name is not one of them.
pub open spec fn long_with_value_spec(name: Seq<char>, value: Seq<char>, st: St) -> Result<Option<St>, ErrM> {
    let missing = Err(ManagedRgErrorModel::MissingOptionValue(name));
    let invalid = Err(ManagedRgErrorModel::InvalidOptionValue(name, value));
    if name == "--glob"@ {
        if value.len() == 0 { missing } else { Ok(Some(St { globs: st.globs.push(value), ..st })) }
    } else if name == "--iglob"@ {
        if value.len() == 0 { missing } else { Ok(Some(St { insensitive_globs: st.insensitive_globs.push(value), ..st })) }
    } else if name == "--type"@ {
        if value.len() == 0 { missing } else { Ok(Some(St { file_types: st.file_types.push(value), ..st })) }
    } else if name == "--type-not"@ {
        if value.len() == 0 { missing } else { Ok(Some(St { excluded_file_types: st.excluded_file_types.push(value), ..st })) }
    } else if name == "--ignore-file"@ {
        if value.len() == 0 { missing } else { Ok(Some(St { ignore_files: st.ignore_files.push(value), ..st })) }
    } else if name == "--max-depth"@ {
        match parse_unsigned(value, usize::MAX as nat) {
            Some(n) => Ok(Some(St { max_depth: Some(n), ..st })),
            None => invalid,
        }
    } else if name == "--max-filesize"@ {
        match byte_size_spec(value) {
            Some(n) => Ok(Some(St { max_file_size_bytes: Some(n), ..st })),
            None => invalid,
        }
    } else if name == "--context"@ {
        match parse_unsigned(value, usize::MAX as nat) {
            Some(n) => Ok(Some(St { rg_options: RgOptionsModel { before_context: n, after_context: n, ..st.rg_options }, ..st })),
            None => invalid,
        }
    } else if name == "--before-context"@ {
        match parse_unsigned(value, usize::MAX as nat) {
            Some(n) => Ok(Some(St { rg_options: RgOptionsModel { before_context: n, ..st.rg_options }, ..st })),
            None => invalid,
        }
    } else if name == "--after-context"@ {
        match parse_unsigned(value, usize::MAX as nat) {
            Some(n) => Ok(Some(St { rg_options: RgOptionsModel { after_context: n, ..st.rg_options }, ..st })),
            None => invalid,
        }
    } else if name == "--regexp"@ {
        if value.len() == 0 { missing } else { Ok(Some(St { queries: st.queries.push(value), ..st })) }
    } else if name == "--file"@ {
        if value.len() == 0 { missing } else {
            Ok(Some(St { rg_options: RgOptionsModel { pattern_files: st.rg_options.pattern_files.push(value), ..st.rg_options }, ..st }))
        }
    } else if is_output_option_spec(name) {
        Err(ManagedRgErrorModel::OutputOption(name))
    } else if flag_with_value_spec(name) {
        Ok(Some(St { rg_options: RgOptionsModel { extra_args: st.rg_options.extra_args.push(name).push(value), ..st.rg_options }, ..st }))
    } else {
        Ok(None)
    }
}

/// The value of option `option` found at `args[i + 1]`: it must exist and be non-empty.
pub open spec fn take_value_spec(args: Seq<Seq<char>>, i: int, option: Seq<char>) -> Result<Seq<char>, ErrM> {
    if 0 <= i + 1 < args.len() && args[i + 1].len() > 0 {
        Ok(args[i + 1])
    } else {
        Err(ManagedRgErrorModel::MissingOptionValue(option))
    }
}

/// A decimal `usize` value for option `option`.
pub open spec fn usize_value_spec(option: Seq<char>, value: Seq<char>) -> Result<nat, ErrM> {
    match parse_unsigned(value, usize::MAX as nat) {
        Some(n) => Ok(n),
        None => Err(ManagedRgErrorModel::InvalidOptionValue(option, value)),
    }
}

/// Switches of a bundled short group (`-Fiw`).
pub open spec fn short_switch(st: St, c: char, flag: Seq<char>) -> Option<St> {
    if c == 'n' || c == 'H' {
        Some(st)
    } else if c == 'F' {
        Some(St { rg_options: RgOptionsModel { fixed_strings: true, ..st.rg_options }, ..st })
    } else if c == 'i' {
        Some(St { rg_options: RgOptionsModel { ignore_case: true, ..st.rg_options }, ..st })
    } else if c == 'w' {
        Some(St { rg_options: RgOptionsModel { word_regexp: true, ..st.rg_options }, ..st })
    } else if c == 'P' || c == 'S' || c == 's' || c == 'a' || c == 'u' || c == 'U' || c == 'v' || c == 'x' || c == 'z' {
        Some(St { rg_options: RgOptionsModel { extra_args: st.rg_options.extra_args.push(flag), ..st.rg_options }, ..st })
    } else if c == 'L' {
        Some(St { follow: true, ..st })
    } else {
        None
    }
}

/// Short options of a group that take a value.
pub open spec fn short_takes_value(c: char) -> bool {
    c == 'e' || c == 'g' || c == 'E' || c == 't' || c == 'T' || c == 'f' || c == 'm' || c == 'j'
        || c == 'A' || c == 'B' || c == 'C'
}

/// Applies a valued short option.
pub open spec fn short_value_spec(st: St, c: char, flag: Seq<char>, value: Seq<char>) -> Result<St, ErrM> {
    if c == 'e' {
        Ok(St { queries: st.queries.push(value), ..st })
    } else if c == 'g' {
        Ok(St { globs: st.globs.push(value), ..st })
    } else if c == 'E' || c == 'm' || c == 'j' {
        Ok(St { rg_options: RgOptionsModel { extra_args: st.rg_options.extra_args.push(flag).push(value), ..st.rg_options }, ..st })
    } else if c == 't' {
        Ok(St { file_types: st.file_types.push(value), ..st })
    } else if c == 'T' {
        Ok(St { excluded_file_types: st.excluded_file_types.push(value), ..st })
    } else if c == 'f' {
        Ok(St { rg_options: RgOptionsModel { pattern_files: st.rg_options.pattern_files.push(value), ..st.rg_options }, ..st })
    } else if c == 'A' {
        match usize_value_spec(flag, value) {
            Ok(n) => Ok(St { rg_options: RgOptionsModel { after_context: n, ..st.rg_options }, ..st }),
            Err(e) => Err(e),
        }
    } else if c == 'B' {
        match usize_value_spec(flag, value) {
            Ok(n) => Ok(St { rg_options: RgOptionsModel { before_context: n, ..st.rg_options }, ..st }),
            Err(e) => Err(e),
        }
    } else {
        match usize_value_spec(flag, value) {
            Ok(n) => Ok(St { rg_options: RgOptionsModel { before_context: n, after_context: n, ..st.rg_options }, ..st }),
            Err(e) => Err(e),
        }
    }
}

/// A bundled short group `g` (`g[0] == '-'`) read from character `p` on. The result's
/// `bool` says whether the value of the last option was the next argument.
pub open spec fn short_group_spec(g: Seq<char>, p: int, args: Seq<Seq<char>>, i: int, st: St) -> Result<(St, bool), ErrM>
    decreases g.len() - p,
{
    if p < 1 || p >= g.len() {
        Ok((st, false))
    } else {
        let c = g[p];
        let flag = seq!['-', c];
        if short_switch(st, c, flag) is Some {
            short_group_spec(g, p + 1, args, i, short_switch(st, c, flag)->0)
        } else if short_takes_value(c) {
            if p + 1 < g.len() {
                match short_value_spec(st, c, flag, g.subrange(p + 1, g.len() as int)) {
                    Ok(s2) => Ok((s2, false)),
                    Err(e) => Err(e),
                }
            } else {
                match take_value_spec(args, i, flag) {
                    Err(e) => Err(e),
                    Ok(v) => match short_value_spec(st, c, flag, v) {
                        Ok(s2) => Ok((s2, true)),
                        Err(e) => Err(e),
                    },
                }
            }
        } else if is_output_option_spec(flag) {
            Err(ManagedRgErrorModel::OutputOption(flag))
        } else {
            Err(ManagedRgErrorModel::UnsupportedOption(flag))
        }
    }
}

/// Switches written as a whole argument.
pub open spec fn whole_switch(st: St, a: Seq<char>) -> Option<St> {
    if a == "-n"@ || a == "-H"@ || a == "--line-number"@ || a == "--with-filename"@ || a == "--recursive"@ {
        Some(st)
    } else if a == "-F"@ || a == "--fixed-strings"@ {
        Some(St { rg_options: RgOptionsModel { fixed_strings: true, ..st.rg_options }, ..st })
    } else if a == "-i"@ || a == "--ignore-case"@ {
        Some(St { rg_options: RgOptionsModel { ignore_case: true, ..st.rg_options }, ..st })
    } else if a == "-w"@ || a == "--word-regexp"@ {
        Some(St { rg_options: RgOptionsModel { word_regexp: true, ..st.rg_options }, ..st })
    } else if a == "--hidden"@ {
        Some(St { hidden: true, ..st })
    } else if a == "--no-ignore"@ {
        Some(St { no_ignore: true, ..st })
    } else if a == "-L"@ || a == "--follow"@ {
        Some(St { follow: true, ..st })
    } else {
        None
    }
}

/// Whole-argument options that take the next argument as a string value.
pub open spec fn whole_value_option(a: Seq<char>) -> bool {
    a == "-g"@ || a == "--glob"@ || a == "--iglob"@ || a == "-t"@ || a == "--type"@ || a == "-T"@
        || a == "--type-not"@ || a == "--ignore-file"@ || a == "-e"@ || a == "--regexp"@ || a == "-f"@
        || a == "--file"@
}

/// Applies a whole-argument string option.
pub open spec fn whole_value_spec(st: St, a: Seq<char>, v: Seq<char>) -> St {
    if a == "-g"@ || a == "--glob"@ {
        St { globs: st.globs.push(v), ..st }
    } else if a == "--iglob"@ {
        St { insensitive_globs: st.insensitive_globs.push(v), ..st }
    } else if a == "-t"@ || a == "--type"@ {
        St { file_types: st.file_types.push(v), ..st }
    } else if a == "-T"@ || a == "--type-not"@ {
        St { excluded_file_types: st.excluded_file_types.push(v), ..st }
    } else if a == "--ignore-file"@ {
        St { ignore_files: st.ignore_files.push(v), ..st }
    } else if a == "-e"@ || a == "--regexp"@ {
        St { queries: st.queries.push(v), ..st }
    } else {
        St { rg_options: RgOptionsModel { pattern_files: st.rg_options.pattern_files.push(v), ..st.rg_options }, ..st }
    }
}

/// Whole-argument options that take a number.
pub open spec fn whole_number_option(a: Seq<char>) -> bool {
    a == "--max-depth"@ || a == "--max-filesize"@ || a == "-A"@ || a == "--after-context"@ || a == "-B"@
        || a == "--before-context"@ || a == "-C"@ || a == "--context"@
}

/// Applies a whole-argument numeric option to its value.
pub open spec fn whole_number_spec(st: St, a: Seq<char>, v: Seq<char>) -> Result<St, ErrM> {
    if a == "--max-depth"@ {
        match usize_value_spec(a, v) {
            Ok(n) => Ok(St { max_depth: Some(n), ..st }),
            Err(e) => Err(e),
        }
    } else if a == "--max-filesize"@ {
        match byte_size_spec(v) {
            Some(n) => Ok(St { max_file_size_bytes: Some(n), ..st }),
            None => Err(ManagedRgErrorModel::InvalidOptionValue(a, v)),
        }
    } else if a == "-A"@ || a == "--after-context"@ {
        match usize_value_spec(a, v) {
            Ok(n) => Ok(St { rg_options: RgOptionsModel { after_context: n, ..st.rg_options }, ..st }),
            Err(e) => Err(e),
        }
    } else if a == "-B"@ || a == "--before-context"@ {
        match usize_value_spec(a, v) {
            Ok(n) => Ok(St { rg_options: RgOptionsModel { before_context: n, ..st.rg_options }, ..st }),
            Err(e) => Err(e),
        }
    } else {
        match usize_value_spec(a, v) {
            Ok(n) => Ok(St { rg_options: RgOptionsModel { before_context: n, after_context: n, ..st.rg_options }, ..st }),
            Err(e) => Err(e),
        }
    }
}

/// One whole argument `args[i]` that is neither `--` nor a handled `name=value`.
/// The result holds the new state, the new positionals, and whether the next argument was consumed.
pub open spec fn token_spec(args: Seq<Seq<char>>, i: int, st: St, pos: Seq<Seq<char>>) -> Result<(St, Seq<Seq<char>>, bool), ErrM> {
    let a = args[i];
    if whole_switch(st, a) is Some {
        Ok((whole_switch(st, a)->0, pos, false))
    } else if whole_value_option(a) {
        match take_value_spec(args, i, a) {
            Ok(v) => Ok((whole_value_spec(st, a, v), pos, true)),
            Err(e) => Err(e),
        }
    } else if whole_number_option(a) {
        match take_value_spec(args, i, a) {
            Ok(v) => match whole_number_spec(st, a, v) {
                Ok(s2) => Ok((s2, pos, true)),
                Err(e) => Err(e),
            },
            Err(e) => Err(e),
        }
    } else if is_output_option_spec(a) {
        Err(ManagedRgErrorModel::OutputOption(a))
    } else if is_prefix("--"@, a) && flag_without_value_spec(a) {
        Ok((St { rg_options: RgOptionsModel { extra_args: st.rg_options.extra_args.push(a), ..st.rg_options }, ..st }, pos, false))
    } else if a.len() > 0 && a[0] == '-' && utf8_len(a) > 2 {
        match short_group_spec(a, 1, args, i, st) {
            Ok((s2, took)) => Ok((s2, pos, took)),
            Err(e) => Err(e),
        }
    } else if a.len() > 0 && a[0] == '-' {
        Err(ManagedRgErrorModel::UnsupportedOption(a))
    } else {
        Ok((st, pos.push(a), false))
    }
}

/// Reads `args[i..]`: the state and the positionals collected so far.
pub open spec fn managed_from(args: Seq<Seq<char>>, i: int, finished: bool, st: St, pos: Seq<Seq<char>>) -> Result<(St, Seq<Seq<char>>), ErrM>
    decreases args.len() + 1 - i,
{
    if i < 0 || i >= args.len() {
        Ok((st, pos))
    } else {
        let a = args[i];
        if finished {
            managed_from(args, i + 1, true, st, pos.push(a))
        } else if a == "--"@ {
            managed_from(args, i + 1, true, st, pos)
        } else if first_index_of(a, '=') is Some && long_with_value_spec(
            a.take(first_index_of(a, '=')->0),
            a.skip(first_index_of(a, '=')->0 + 1),
            st,
        ) != Ok::<Option<St>, ErrM>(None) {
            match long_with_value_spec(a.take(first_index_of(a, '=')->0), a.skip(first_index_of(a, '=')->0 + 1), st) {
                Ok(Some(s2)) => managed_from(args, i + 1, false, s2, pos),
                Ok(None) => Ok((st, pos)),
                Err(e) => Err(e),
            }
        } else {
            match token_spec(args, i, st, pos) {
                Err(e) => Err(e),
                Ok((s2, p2, took)) => managed_from(args, if took { i + 2 } else { i + 1 }, false, s2, p2),
            }
        }
    }
}

/// The request before any argument is read: managed ripgrep on.
pub open spec fn managed_initial() -> St {
    St { rg: true, ..context_options_default() }
}

/// The dialect applied to a whole argument list: with no `-e`/`-f` pattern the first
/// positional is the query, and the remaining positionals are the paths to search.
pub open spec fn managed_rg_spec(args: Seq<Seq<char>>) -> Result<St, ErrM> {
    match managed_from(args, 0, false, managed_initial(), seq![]) {
        Err(e) => Err(e),
        Ok((st, pos)) => if st.queries.len() == 0 && st.rg_options.pattern_files.len() == 0 {
            if pos.len() == 0 {
                Err(ManagedRgErrorModel::MissingPattern)
            } else {
                Ok(St { query: Some(pos[0]), rg_paths: pos.drop_first(), ..st })
            }
        } else {
            Ok(St { rg_paths: pos, ..st })
        },
    }
}

fn missing(option: &Vec<char>) -> (e: ManagedRgArgumentError)
    ensures
        e@ == ManagedRgErrorModel::MissingOptionValue(option@),
{
    ManagedRgArgumentError::MissingOptionValue { option: string_of(option) }
}

fn invalid(option: &Vec<char>, value: &Vec<char>) -> (e: ManagedRgArgumentError)
    ensures
        e@ == ManagedRgErrorModel::InvalidOptionValue(option@, value@),
{
    ManagedRgArgumentError::InvalidOptionValue { option: string_of(option), value: string_of(value) }
}

fn parse_usize(option: &Vec<char>, value: &Vec<char>) -> (r: Result<usize, ManagedRgArgumentError>)
    ensures
        match r {
            Ok(n) => usize_value_spec(option@, value@) == Ok::<nat, ErrM>(n as nat),
            Err(e) => usize_value_spec(option@, value@) == Err::<nat, ErrM>(e@),
        },
{
    match parse_unsigned_chars(value.as_slice(), usize::MAX as u64) {
        Some(n) => Ok(n as usize),
        None => Err(invalid(option, value)),
    }
}

fn non_empty(option: &Vec<char>, value: &Vec<char>) -> (r: Result<String, ManagedRgArgumentError>)
    ensures
        match r {
            Ok(s) => value@.len() > 0 && s@ == value@,
            Err(e) => value@.len() == 0 && e@ == ManagedRgErrorModel::MissingOptionValue(option@),
        },
{
    if value.len() == 0 {
        return Err(missing(option));
    }
    Ok(string_of(value))
}

fn take_value(args: &[String], index: &mut usize, option: &Vec<char>) -> (r: Result<String, ManagedRgArgumentError>)
    requires
        *old(index) < args@.len(),
    ensures
        *final(index) == *old(index) + 1,
        r is Ok ==> *final(index) < args@.len(),
        match r {
            Ok(s) => take_value_spec(args.deep_view(), *old(index) as int, option@) == Ok::<Seq<char>, ErrM>(s@),
            Err(e) => take_value_spec(args.deep_view(), *old(index) as int, option@) == Err::<Seq<char>, ErrM>(e@),
        },
{
    let n = args.len();
    *index = *index + 1;
    if *index < n {
        let v = arg_clone(args, *index);
        if !v.as_str().is_empty() {
            return Ok(v);
        }
    }
    Err(missing(option))
}

fn set_fixed(req: &mut ContextOptions)
    ensures
        final(req)@ == (St { rg_options: RgOptionsModel { fixed_strings: true, ..old(req)@.rg_options }, ..old(req)@ }),
{
    req.rg_options.fixed_strings = true;
}

fn set_ignore_case(req: &mut ContextOptions)
    ensures
        final(req)@ == (St { rg_options: RgOptionsModel { ignore_case: true, ..old(req)@.rg_options }, ..old(req)@ }),
{
    req.rg_options.ignore_case = true;
}

fn set_word(req: &mut ContextOptions)
    ensures
        final(req)@ == (St { rg_options: RgOptionsModel { word_regexp: true, ..old(req)@.rg_options }, ..old(req)@ }),
{
    req.rg_options.word_regexp = true;
}

fn push_extra(req: &mut ContextOptions, a: String)
    ensures
        final(req)@ == (St { rg_options: RgOptionsModel { extra_args: old(req)@.rg_options.extra_args.push(a@), ..old(req)@.rg_options }, ..old(req)@ }),
{
    push_string(&mut req.rg_options.extra_args, a);
}

fn push_pattern_file(req: &mut ContextOptions, a: String)
    ensures
        final(req)@ == (St { rg_options: RgOptionsModel { pattern_files: old(req)@.rg_options.pattern_files.push(a@), ..old(req)@.rg_options }, ..old(req)@ }),
{
    push_string(&mut req.rg_options.pattern_files, a);
}

fn set_before(req: &mut ContextOptions, n: usize)
    ensures
        final(req)@ == (St { rg_options: RgOptionsModel { before_context: n as nat, ..old(req)@.rg_options }, ..old(req)@ }),
{
    req.rg_options.before_context = n;
}

fn set_after(req: &mut ContextOptions, n: usize)
    ensures
        final(req)@ == (St { rg_options: RgOptionsModel { after_context: n as nat, ..old(req)@.rg_options }, ..old(req)@ }),
{
    req.rg_options.after_context = n;
}

fn set_both(req: &mut ContextOptions, n: usize)
    ensures
        final(req)@ == (St { rg_options: RgOptionsModel { before_context: n as nat, after_context: n as nat, ..old(req)@.rg_options }, ..old(req)@ }),
{
    req.rg_options.before_context = n;
    req.rg_options.after_context = n;
}

fn lit2(a: &Vec<char>, x: &str, y: &str) -> (r: bool)
    ensures
        r == (a@ == x@ || a@ == y@),
{
    chars_eq(a.as_slice(), x) || chars_eq(a.as_slice(), y)
}

fn lit(a: &Vec<char>, x: &str) -> (r: bool)
    ensures
        r == (a@ == x@),
{
    chars_eq(a.as_slice(), x)
}

fn parse_long_with_value(name: &Vec<char>, value: &Vec<char>, req: &mut ContextOptions) -> (r: Result<bool, ManagedRgArgumentError>)
    ensures
        match r {
            Ok(true) => long_with_value_spec(name@, value@, old(req)@) == Ok::<Option<St>, ErrM>(Some(final(req)@)),
            Ok(false) => long_with_value_spec(name@, value@, old(req)@) == Ok::<Option<St>, ErrM>(None) && final(req)@ == old(req)@,
            Err(e) => long_with_value_spec(name@, value@, old(req)@) == Err::<Option<St>, ErrM>(e@),
        },
{
    if lit(name, "--glob") {
        let v = non_empty(name, value)?;
        push_string(&mut req.globs, v);
    } else if lit(name, "--iglob") {
        let v = non_empty(name, value)?;
        push_string(&mut req.insensitive_globs, v);
    } else if lit(name, "--type") {
        let v = non_empty(name, value)?;
        push_string(&mut req.file_types, v);
    } else if lit(name, "--type-not") {
        let v = non_empty(name, value)?;
        push_string(&mut req.excluded_file_types, v);
    } else if lit(name, "--ignore-file") {
        let v = non_empty(name, value)?;
        push_string(&mut req.ignore_files, v);
    } else if lit(name, "--max-depth") {
        let n = parse_usize(name, value)?;
        req.max_depth = Some(n);
    } else if lit(name, "--max-filesize") {
        match parse_byte_size(value.as_slice()) {
            Some(n) => req.max_file_size_bytes = Some(n),
            None => return Err(invalid(name, value)),
        }
    } else if lit(name, "--context") {
        let n = parse_usize(name, value)?;
        set_both(req, n);
    } else if lit(name, "--before-context") {
        let n = parse_usize(name, value)?;
        set_before(req, n);
    } else if lit(name, "--after-context") {
        let n = parse_usize(name, value)?;
        set_after(req, n);
    } else if lit(name, "--regexp") {
        let v = non_empty(name, value)?;
        push_string(&mut req.queries, v);
    } else if lit(name, "--file") {
        let v = non_empty(name, value)?;
        push_pattern_file(req, v);
    } else if is_output_option(name) {
        return Err(ManagedRgArgumentError::OutputOption(string_of(name)));
    } else if flag_with_value(name) {
        push_extra(req, string_of(name));
        push_extra(req, string_of(value));
    } else {
        return Ok(false);
    }
    Ok(true)
}

fn short_flag(c: char) -> (f: Vec<char>)
    ensures
        f@ == seq!['-', c],
{
    let mut f: Vec<char> = Vec::new();
    f.push('-');
    f.push(c);
    assert(f@ =~= seq!['-', c]);
    f
}

fn apply_short_switch(req: &mut ContextOptions, c: char, flag: &Vec<char>) -> (applied: bool)
    ensures
        applied == (short_switch(old(req)@, c, flag@) is Some),
        applied ==> final(req)@ == short_switch(old(req)@, c, flag@)->0,
        !applied ==> final(req)@ == old(req)@,
{
    if c == 'n' || c == 'H' {
    } else if c == 'F' {
        set_fixed(req);
    } else if c == 'i' {
        set_ignore_case(req);
    } else if c == 'w' {
        set_word(req);
    } else if c == 'P' || c == 'S' || c == 's' || c == 'a' || c == 'u' || c == 'U' || c == 'v' || c == 'x' || c == 'z' {
        push_extra(req, string_of(flag));
    } else if c == 'L' {
        req.follow = true;
    } else {
        return false;
    }
    true
}

fn apply_short_value(req: &mut ContextOptions, c: char, flag: &Vec<char>, value: Vec<char>) -> (r: Result<(), ManagedRgArgumentError>)
    requires
        short_takes_value(c),
    ensures
        match r {
            Ok(()) => short_value_spec(old(req)@, c, flag@, value@) == Ok::<St, ErrM>(final(req)@),
            Err(e) => short_value_spec(old(req)@, c, flag@, value@) == Err::<St, ErrM>(e@),
        },
{
    if c == 'e' {
        push_string(&mut req.queries, string_of(&value));
    } else if c == 'g' {
        push_string(&mut req.globs, string_of(&value));
    } else if c == 'E' || c == 'm' || c == 'j' {
        push_extra(req, string_of(flag));
        push_extra(req, string_of(&value));
    } else if c == 't' {
        push_string(&mut req.file_types, string_of(&value));
    } else if c == 'T' {
        push_string(&mut req.excluded_file_types, string_of(&value));
    } else if c == 'f' {
        push_pattern_file(req, string_of(&value));
    } else if c == 'A' {
        let n = parse_usize(flag, &value)?;
        set_after(req, n);
    } else if c == 'B' {
        let n = parse_usize(flag, &value)?;
        set_before(req, n);
    } else {
        let n = parse_usize(flag, &value)?;
        set_both(req, n);
    }
    Ok(())
}

fn parse_short_group(arg: &Vec<char>, args: &[String], index: &mut usize, req: &mut ContextOptions) -> (r: Result<(), ManagedRgArgumentError>)
    requires
        *old(index) < args@.len(),
        arg@ == args.deep_view()[*old(index) as int],
    ensures
        match r {
            Ok(()) => short_group_spec(arg@, 1, args.deep_view(), *old(index) as int, old(req)@)
                == Ok::<(St, bool), ErrM>((final(req)@, *final(index) == *old(index) + 1)),
            Err(e) => short_group_spec(arg@, 1, args.deep_view(), *old(index) as int, old(req)@) == Err::<(St, bool), ErrM>(e@),
        },
        *final(index) == *old(index) || *final(index) == *old(index) + 1,
        r is Ok ==> *final(index) < args@.len(),
{
    let ghost i0 = *index;
    let ghost req0 = req@;
    let mut position: usize = 1;
    while position < arg.len()
        invariant
            1 <= position,
            *index == i0,
            i0 == *old(index),
            req0 == old(req)@,
            i0 < args@.len(),
            arg@ == args.deep_view()[i0 as int],
            short_group_spec(arg@, position as int, args.deep_view(), i0 as int, req@)
                == short_group_spec(arg@, 1, args.deep_view(), i0 as int, req0),
        decreases arg@.len() - position,
    {
        let c = arg[position];
        let flag = short_flag(c);
        if apply_short_switch(req, c, &flag) {
            position += 1;
            continue;
        }
        if c == 'e' || c == 'g' || c == 'E' || c == 't' || c == 'T' || c == 'f' || c == 'm' || c == 'j'
            || c == 'A' || c == 'B' || c == 'C' {
            let value = if position + 1 < arg.len() {
                slice_chars(arg.as_slice(), position + 1, arg.len())
            } else {
                let v = take_value(args, index, &flag)?;
                crate::text::chars_of(v.as_str())
            };
            apply_short_value(req, c, &flag, value)?;
            return Ok(());
        }
        if is_output_option(&flag) {
            return Err(ManagedRgArgumentError::OutputOption(string_of(&flag)));
        }
        return Err(ManagedRgArgumentError::UnsupportedOption(string_of(&flag)));
    }
    Ok(())
}

fn whole_value_kind(a: &Vec<char>) -> (k: u8)
    ensures
        k == 1 <==> whole_value_option(a@),
        k == 2 <==> !whole_value_option(a@) && whole_number_option(a@),
        k <= 2,
{
    if lit2(a, "-g", "--glob") || lit(a, "--iglob") || lit2(a, "-t", "--type") || lit2(a, "-T", "--type-not")
        || lit(a, "--ignore-file") || lit2(a, "-e", "--regexp") || lit2(a, "-f", "--file") {
        1
    } else if lit2(a, "--max-depth", "--max-filesize") || lit2(a, "-A", "--after-context")
        || lit2(a, "-B", "--before-context") || lit2(a, "-C", "--context") {
        2
    } else {
        0
    }
}

fn apply_whole_switch(req: &mut ContextOptions, a: &Vec<char>) -> (applied: bool)
    ensures
        applied == (whole_switch(old(req)@, a@) is Some),
        applied ==> final(req)@ == whole_switch(old(req)@, a@)->0,
        !applied ==> final(req)@ == old(req)@,
{
    if lit2(a, "-n", "-H") || lit2(a, "--line-number", "--with-filename") || lit(a, "--recursive") {
    } else if lit2(a, "-F", "--fixed-strings") {
        set_fixed(req);
    } else if lit2(a, "-i", "--ignore-case") {
        set_ignore_case(req);
    } else if lit2(a, "-w", "--word-regexp") {
        set_word(req);
    } else if lit(a, "--hidden") {
        req.hidden = true;
    } else if lit(a, "--no-ignore") {
        req.no_ignore = true;
    } else if lit2(a, "-L", "--follow") {
        req.follow = true;
    } else {
        return false;
    }
    true
}

fn apply_whole_value(req: &mut ContextOptions, a: &Vec<char>, v: String)
    requires
        whole_value_option(a@),
    ensures
        final(req)@ == whole_value_spec(old(req)@, a@, v@),
{
    if lit2(a, "-g", "--glob") {
        push_string(&mut req.globs, v);
    } else if lit(a, "--iglob") {
        push_string(&mut req.insensitive_globs, v);
    } else if lit2(a, "-t", "--type") {
        push_string(&mut req.file_types, v);
    } else if lit2(a, "-T", "--type-not") {
        push_string(&mut req.excluded_file_types, v);
    } else if lit(a, "--ignore-file") {
        push_string(&mut req.ignore_files, v);
    } else if lit2(a, "-e", "--regexp") {
        push_string(&mut req.queries, v);
    } else {
        push_pattern_file(req, v);
    }
}

fn apply_whole_number(req: &mut ContextOptions, a: &Vec<char>, v: &Vec<char>) -> (r: Result<(), ManagedRgArgumentError>)
    ensures
        match r {
            Ok(()) => whole_number_spec(old(req)@, a@, v@) == Ok::<St, ErrM>(final(req)@),
            Err(e) => whole_number_spec(old(req)@, a@, v@) == Err::<St, ErrM>(e@),
        },
{
    if lit(a, "--max-depth") {
        let n = parse_usize(a, v)?;
        req.max_depth = Some(n);
    } else if lit(a, "--max-filesize") {
        match parse_byte_size(v.as_slice()) {
            Some(n) => req.max_file_size_bytes = Some(n),
            None => return Err(invalid(a, v)),
        }
    } else if lit2(a, "-A", "--after-context") {
        let n = parse_usize(a, v)?;
        set_after(req, n);
    } else if lit2(a, "-B", "--before-context") {
        let n = parse_usize(a, v)?;
        set_before(req, n);
    } else {
        let n = parse_usize(a, v)?;
        set_both(req, n);
    }
    Ok(())
}

fn parse_token(args: &[String], index: &mut usize, a: &Vec<char>, req: &mut ContextOptions, positionals: &mut Vec<String>) -> (r: Result<(), ManagedRgArgumentError>)
    requires
        *old(index) < args@.len(),
        a@ == args.deep_view()[*old(index) as int],
    ensures
        match r {
            Ok(()) => token_spec(args.deep_view(), *old(index) as int, old(req)@, old(positionals).deep_view())
                == Ok::<(St, Seq<Seq<char>>, bool), ErrM>((final(req)@, final(positionals).deep_view(), *final(index) == *old(index) + 1)),
            Err(e) => token_spec(args.deep_view(), *old(index) as int, old(req)@, old(positionals).deep_view()) == Err::<(St, Seq<Seq<char>>, bool), ErrM>(e@),
        },
        *final(index) == *old(index) || *final(index) == *old(index) + 1,
        r is Ok ==> *final(index) < args@.len(),
{
    if apply_whole_switch(req, a) {
        return Ok(());
    }
    let kind = whole_value_kind(a);
    if kind == 1 {
        let v = take_value(args, index, a)?;
        apply_whole_value(req, a, v);
        return Ok(());
    }
    if kind == 2 {
        let v = take_value(args, index, a)?;
        let vc = crate::text::chars_of(v.as_str());
        apply_whole_number(req, a, &vc)?;
        return Ok(());
    }
    if is_output_option(a) {
        return Err(ManagedRgArgumentError::OutputOption(string_of(a)));
    }
    if chars_start_with(a.as_slice(), "--") && flag_without_value(a) {
        push_extra(req, string_of(a));
        return Ok(());
    }
    if a.len() > 0 && a[0] == '-' && utf8_len_exceeds(a.as_slice(), 2) {
        return parse_short_group(a, args, index, req);
    }
    if a.len() > 0 && a[0] == '-' {
        return Err(ManagedRgArgumentError::UnsupportedOption(string_of(a)));
    }
    push_string(positionals, string_of(a));
    Ok(())
}

/// Parses the safe managed-ripgrep argument dialect used by the CLI.
///
/// Fails with a missing pattern, an option without its value, an invalid value,
/// an unsupported option, or an option that replaces managed output formatting.
pub fn parse_managed_rg_args(args: &[String]) -> (r: Result<ContextOptions, ManagedRgArgumentError>)
    ensures
        match r {
            Ok(req) => managed_rg_spec(args.deep_view()) == Ok::<St, ErrM>(req@),
            Err(e) => managed_rg_spec(args.deep_view()) == Err::<St, ErrM>(e@),
        },
{
    let ghost model = args.deep_view();
    let mut request = ContextOptions::new();
    request.rg = true;
    let mut index: usize = 0;
    let mut options_finished = false;
    let mut positionals: Vec<String> = Vec::new();
    assert(positionals.deep_view() =~= Seq::<Seq<char>>::empty());
    while index < args.len()
        invariant
            model == args.deep_view(),
            model.len() == args@.len(),
            index <= args@.len(),
            managed_from(model, index as int, options_finished, request@, positionals.deep_view())
                == managed_from(model, 0, false, managed_initial(), seq![]),
        decreases args@.len() - index,
    {
        let a = arg_chars(args, index);
        if options_finished {
            push_string(&mut positionals, arg_clone(args, index));
            index += 1;
            continue;
        }
        if chars_eq(a.as_slice(), "--") {
            options_finished = true;
            index += 1;
            continue;
        }
        if let Some(k) = find_char(a.as_slice(), '=') {
            let name = slice_chars(a.as_slice(), 0, k);
            let value = slice_chars(a.as_slice(), k + 1, a.len());
            assert(name@ =~= a@.take(k as int));
            assert(value@ =~= a@.skip(k + 1));
            if parse_long_with_value(&name, &value, &mut request)? {
                index += 1;
                continue;
            }
        }
        parse_token(args, &mut index, &a, &mut request, &mut positionals)?;
        index += 1;
    }
    if request.queries.len() == 0 && request.rg_options.pattern_files.len() == 0 {
        if positionals.len() == 0 {
            return Err(ManagedRgArgumentError::MissingPattern);
        }
        let ghost before = positionals.deep_view();
        let first = positionals.remove(0);
        assert(positionals.deep_view() =~= before.drop_first());
        request.query = Some(first);
    }
    request.rg_paths = positionals;
    Ok(request)
}

/// An argument that is neither an option nor holds `=`.
pub open spec fn is_plain_word(a: Seq<char>) -> bool {
    a.len() > 0 && a[0] != '-' && first_index_of(a, '=') is None
}

proof fn lemma_plain_word_is_positional(args: Seq<Seq<char>>, i: int, st: St, pos: Seq<Seq<char>>)
    requires
        0 <= i < args.len(),
        is_plain_word(args[i]),
    ensures
        managed_from(args, i, false, st, pos) == managed_from(args, i + 1, false, st, pos.push(args[i])),
{
    let a = args[i];
    reveal_strlit("--");
    reveal_strlit("--after-context");
    reveal_strlit("--auto-hybrid-regex");
    reveal_strlit("--before-context");
    reveal_strlit("--binary");
    reveal_strlit("--byte-offset");
    reveal_strlit("--case-sensitive");
    reveal_strlit("--colors");
    reveal_strlit("--column");
    reveal_strlit("--context");
    reveal_strlit("--context-separator");
    reveal_strlit("--count");
    reveal_strlit("--count-matches");
    reveal_strlit("--crlf");
    reveal_strlit("--field-context-separator");
    reveal_strlit("--field-match-separator");
    reveal_strlit("--file");
    reveal_strlit("--files");
    reveal_strlit("--files-with-matches");
    reveal_strlit("--files-without-match");
    reveal_strlit("--fixed-strings");
    reveal_strlit("--follow");
    reveal_strlit("--glob");
    reveal_strlit("--glob-case-insensitive");
    reveal_strlit("--heading");
    reveal_strlit("--hidden");
    reveal_strlit("--iglob");
    reveal_strlit("--ignore-case");
    reveal_strlit("--ignore-file");
    reveal_strlit("--invert-match");
    reveal_strlit("--json");
    reveal_strlit("--line-number");
    reveal_strlit("--line-regexp");
    reveal_strlit("--max-depth");
    reveal_strlit("--max-filesize");
    reveal_strlit("--mmap");
    reveal_strlit("--multiline");
    reveal_strlit("--multiline-dotall");
    reveal_strlit("--no-column");
    reveal_strlit("--no-config");
    reveal_strlit("--no-crlf");
    reveal_strlit("--no-filename");
    reveal_strlit("--no-fixed-strings");
    reveal_strlit("--no-heading");
    reveal_strlit("--no-ignore");
    reveal_strlit("--no-ignore-dot");
    reveal_strlit("--no-ignore-files");
    reveal_strlit("--no-ignore-global");
    reveal_strlit("--no-ignore-parent");
    reveal_strlit("--no-ignore-vcs");
    reveal_strlit("--no-line-number");
    reveal_strlit("--no-mmap");
    reveal_strlit("--no-multiline");
    reveal_strlit("--no-search-zip");
    reveal_strlit("--no-unicode");
    reveal_strlit("--one-file-system");
    reveal_strlit("--only-matching");
    reveal_strlit("--passthru");
    reveal_strlit("--path-separator");
    reveal_strlit("--pcre2");
    reveal_strlit("--pretty");
    reveal_strlit("--quiet");
    reveal_strlit("--recursive");
    reveal_strlit("--regexp");
    reveal_strlit("--replace");
    reveal_strlit("--search-zip");
    reveal_strlit("--smart-case");
    reveal_strlit("--stats");
    reveal_strlit("--stop-on-nonmatch");
    reveal_strlit("--text");
    reveal_strlit("--trim");
    reveal_strlit("--type");
    reveal_strlit("--type-not");
    reveal_strlit("--unicode");
    reveal_strlit("--vimgrep");
    reveal_strlit("--with-filename");
    reveal_strlit("--word-regexp");
    reveal_strlit("-A");
    reveal_strlit("-B");
    reveal_strlit("-C");
    reveal_strlit("-F");
    reveal_strlit("-H");
    reveal_strlit("-I");
    reveal_strlit("-L");
    reveal_strlit("-N");
    reveal_strlit("-T");
    reveal_strlit("-b");
    reveal_strlit("-c");
    reveal_strlit("-e");
    reveal_strlit("-f");
    reveal_strlit("-g");
    reveal_strlit("-i");
    reveal_strlit("-l");
    reveal_strlit("-n");
    reveal_strlit("-o");
    reveal_strlit("-p");
    reveal_strlit("-q");
    reveal_strlit("-r");
    reveal_strlit("-t");
    reveal_strlit("-w");
    assert(a != "--"@);
    assert(whole_switch(st, a) is None);
    assert(!whole_value_option(a));
    assert(!whole_number_option(a));
    assert(option_name(a) == a);
    assert(!output_name_spec(a));
    assert(!is_prefix("--"@, a)) by {
        if a.len() >= 2 {
            assert(a.subrange(0, 2)[0] == a[0]);
        }
    }
    assert(token_spec(args, i, st, pos) == Ok::<(St, Seq<Seq<char>>, bool), ErrM>((st, pos.push(a), false)));
}

/// An argument that is a switch written whole, such as `-i` or `--hidden`.
pub open spec fn is_switch_arg(a: Seq<char>) -> bool {
    whole_switch(managed_initial(), a) is Some && first_index_of(a, '=') is None
}

/// The predicate of plain words.
pub open spec fn plain_word_pred() -> spec_fn(Seq<char>) -> bool {
    |a: Seq<char>| is_plain_word(a)
}

/// The plain words of `s`, in order.
pub open spec fn plain_words(s: Seq<Seq<char>>) -> Seq<Seq<char>> {
    s.filter(plain_word_pred())
}

proof fn lemma_plain_words_empty()
    ensures
        plain_words(Seq::<Seq<char>>::empty()) == Seq::<Seq<char>>::empty(),
{
    reveal(Seq::filter);
}

proof fn lemma_plain_words_cons(x: Seq<char>, rest: Seq<Seq<char>>)
    ensures
        plain_words(seq![x] + rest) == (if is_plain_word(x) { seq![x] } else { Seq::<Seq<char>>::empty() }) + plain_words(rest),
{
    Seq::<Seq<char>>::filter_distributes_over_add(seq![x], rest, plain_word_pred());
    reveal(Seq::filter);
    assert(seq![x].drop_last() =~= Seq::<Seq<char>>::empty());
    lemma_plain_words_empty();
}

proof fn lemma_switch_is_applied(args: Seq<Seq<char>>, i: int, st: St, pos: Seq<Seq<char>>)
    requires
        0 <= i < args.len(),
        is_switch_arg(args[i]),
    ensures
        whole_switch(st, args[i]) is Some,
        managed_from(args, i, false, st, pos) == managed_from(args, i + 1, false, whole_switch(st, args[i])->0, pos),
        whole_switch(st, args[i])->0.queries == st.queries,
        whole_switch(st, args[i])->0.rg_options.pattern_files == st.rg_options.pattern_files,
        whole_switch(st, args[i])->0.rg == st.rg,
{
    let a = args[i];
    reveal_strlit("--");
    reveal_strlit("--fixed-strings");
    reveal_strlit("--follow");
    reveal_strlit("--hidden");
    reveal_strlit("--ignore-case");
    reveal_strlit("--line-number");
    reveal_strlit("--no-ignore");
    reveal_strlit("--recursive");
    reveal_strlit("--with-filename");
    reveal_strlit("--word-regexp");
    reveal_strlit("-F");
    reveal_strlit("-H");
    reveal_strlit("-L");
    reveal_strlit("-i");
    reveal_strlit("-n");
    reveal_strlit("-w");
    assert(a != "--"@);
}

proof fn lemma_options_before_end(args: Seq<Seq<char>>, i: int, d: int, st: St, pos: Seq<Seq<char>>) -> (st2: St)
    requires
        0 <= i <= d <= args.len(),
        forall|k: int| i <= k < d ==> is_plain_word(#[trigger] args[k]) || is_switch_arg(args[k]),
    ensures
        managed_from(args, i, false, st, pos) == managed_from(args, d, false, st2, pos + plain_words(args.subrange(i, d))),
        st2.queries == st.queries,
        st2.rg_options.pattern_files == st.rg_options.pattern_files,
        st2.rg == st.rg,
    decreases d - i,
{
    if i == d {
        assert(args.subrange(i, d) =~= Seq::<Seq<char>>::empty());
        lemma_plain_words_empty();
        assert(pos + Seq::<Seq<char>>::empty() =~= pos);
        st
    } else {
        let a = args[i];
        let rest = args.subrange(i + 1, d);
        assert(args.subrange(i, d) =~= seq![a] + rest);
        lemma_plain_words_cons(a, rest);
        if is_plain_word(a) {
            lemma_plain_word_is_positional(args, i, st, pos);
            let st2 = lemma_options_before_end(args, i + 1, d, st, pos.push(a));
            assert(pos.push(a) + plain_words(rest) =~= pos + (seq![a] + plain_words(rest)));
            st2
        } else {
            lemma_switch_is_applied(args, i, st, pos);
            let st2 = lemma_options_before_end(args, i + 1, d, whole_switch(st, a)->0, pos);
            assert(Seq::<Seq<char>>::empty() + plain_words(rest) =~= plain_words(rest));
            st2
        }
    }
}

proof fn lemma_after_options_end(args: Seq<Seq<char>>, i: int, st: St, pos: Seq<Seq<char>>)
    requires
        0 <= i <= args.len(),
    ensures
        managed_from(args, i, true, st, pos) == Ok::<(St, Seq<Seq<char>>), ErrM>((st, pos + args.subrange(i, args.len() as int))),
    decreases args.len() - i,
{
    if i < args.len() {
        lemma_after_options_end(args, i + 1, st, pos.push(args[i]));
        assert(pos.push(args[i]) + args.subrange(i + 1, args.len() as int) =~= pos + args.subrange(i, args.len() as int));
    } else {
        assert(pos + args.subrange(i, args.len() as int) =~= pos);
    }
}

/// Positionals in order: when every argument before the first `--` (if any) is a plain
/// word or a switch written whole, and no `-e`/`-f` pattern is given, the positionals are
/// the plain words before that `--` followed by every argument after it, in order; the
/// first is the query and the rest are the paths to search, and with none the pattern is
/// missing. Everything after the first `--` is positional, even text that looks like an
/// option.
pub proof fn lemma_positionals_are_query_then_paths(args: Seq<Seq<char>>, d: int)
    requires
        0 <= d <= args.len(),
        forall|k: int| 0 <= k < d ==> is_plain_word(#[trigger] args[k]) || is_switch_arg(args[k]),
        d < args.len() ==> args[d] == "--"@,
    ensures
        ({
            let p = plain_words(args.take(d)) + if d < args.len() { args.skip(d + 1) } else { Seq::<Seq<char>>::empty() };
            &&& p.len() == 0 ==> managed_rg_spec(args) == Err::<St, ErrM>(ManagedRgErrorModel::MissingPattern)
            &&& p.len() > 0 ==> (managed_rg_spec(args) matches Ok(r) && r.rg && r.query == Some(p[0])
                && r.rg_paths == p.drop_first() && r.queries.len() == 0)
        }),
{
    let st = managed_initial();
    let empty: Seq<Seq<char>> = seq![];
    let st2 = lemma_options_before_end(args, 0, d, st, empty);
    assert(args.subrange(0, d) =~= args.take(d));
    assert(empty + plain_words(args.take(d)) =~= plain_words(args.take(d)));
    let w = plain_words(args.take(d));
    if d < args.len() {
        assert(managed_from(args, d, false, st2, w) == managed_from(args, d + 1, true, st2, w));
        lemma_after_options_end(args, d + 1, st2, w);
        assert(args.subrange(d + 1, args.len() as int) =~= args.skip(d + 1));
    } else {
        assert(w + Seq::<Seq<char>>::empty() =~= w);
    }
}

proof fn lemma_no_equals_sign(a: Seq<char>)
    requires
        forall|i: int| 0 <= i < a.len() ==> a[i] != '=',
    ensures
        first_index_of(a, '=') is None,
    decreases a.len(),
{
    if a.len() > 0 {
        assert forall|i: int| 0 <= i < a.drop_first().len() implies a.drop_first()[i] != '=' by {
            assert(a.drop_first()[i] == a[i + 1]);
        }
        lemma_no_equals_sign(a.drop_first());
    }
}

/// The numeric options followed by a decimal number and a query: `-C n` and `--context n`
/// give `n` lines of context on both sides of each match, `-A n` and `--after-context n`
/// only after it, `-B n` and `--before-context n` only before it, and `--max-depth n`
/// limits the depth to `n`; the query is the word that follows, and no path is given.
pub proof fn lemma_context_options_set_their_sides(flag: Seq<char>, n: Seq<char>, q: Seq<char>, v: nat)
    requires
        flag == "-C"@ || flag == "--context"@ || flag == "-A"@ || flag == "--after-context"@ || flag == "-B"@
            || flag == "--before-context"@ || flag == "--max-depth"@,
        parse_unsigned(n, usize::MAX as nat) == Some(v),
        is_plain_word(q),
    ensures
        managed_rg_spec(seq![flag, n, q]) matches Ok(r) && {
            &&& r.rg && r.query == Some(q) && r.rg_paths.len() == 0 && r.queries.len() == 0
            &&& (flag == "-C"@ || flag == "--context"@) ==> r.rg_options.before_context == v && r.rg_options.after_context == v
            &&& (flag == "-A"@ || flag == "--after-context"@) ==> r.rg_options.before_context == 0 && r.rg_options.after_context == v
            &&& (flag == "-B"@ || flag == "--before-context"@) ==> r.rg_options.before_context == v && r.rg_options.after_context == 0
            &&& r.max_depth == (if flag == "--max-depth"@ { Some(v) } else { None })
        },
{
    let args = seq![flag, n, q];
    let st = managed_initial();
    let empty: Seq<Seq<char>> = seq![];
    reveal_strlit("--");
    reveal_strlit("--after-context");
    reveal_strlit("--before-context");
    reveal_strlit("--context");
    reveal_strlit("--file");
    reveal_strlit("--fixed-strings");
    reveal_strlit("--follow");
    reveal_strlit("--glob");
    reveal_strlit("--hidden");
    reveal_strlit("--iglob");
    reveal_strlit("--ignore-case");
    reveal_strlit("--ignore-file");
    reveal_strlit("--line-number");
    reveal_strlit("--max-depth");
    reveal_strlit("--max-filesize");
    reveal_strlit("--no-ignore");
    reveal_strlit("--recursive");
    reveal_strlit("--regexp");
    reveal_strlit("--type");
    reveal_strlit("--type-not");
    reveal_strlit("--with-filename");
    reveal_strlit("--word-regexp");
    reveal_strlit("-A");
    reveal_strlit("-B");
    reveal_strlit("-C");
    reveal_strlit("-F");
    reveal_strlit("-H");
    reveal_strlit("-L");
    reveal_strlit("-T");
    reveal_strlit("-e");
    reveal_strlit("-f");
    reveal_strlit("-g");
    reveal_strlit("-i");
    reveal_strlit("-n");
    reveal_strlit("-t");
    reveal_strlit("-w");
    assert(flag != "--"@);
    assert forall|i: int| 0 <= i < flag.len() implies flag[i] != '=' by {}
    lemma_no_equals_sign(flag);
    assert(whole_switch(st, flag) is None);
    assert(!whole_value_option(flag));
    assert(whole_number_option(flag));
    assert(n.len() > 0);
    assert(take_value_spec(args, 0, flag) == Ok::<Seq<char>, ErrM>(n));
    assert(usize_value_spec(flag, n) == Ok::<nat, ErrM>(v));
    let st2 = whole_number_spec(st, flag, n)->Ok_0;
    assert(whole_number_spec(st, flag, n) is Ok);
    assert(token_spec(args, 0, st, empty) == Ok::<(St, Seq<Seq<char>>, bool), ErrM>((st2, empty, true)));
    assert(managed_from(args, 0, false, st, empty) == managed_from(args, 2, false, st2, empty));
    lemma_plain_word_is_positional(args, 2, st2, empty);
    assert(managed_from(args, 3, false, st2, empty.push(q)) == Ok::<(St, Seq<Seq<char>>), ErrM>((st2, empty.push(q))));
    assert(empty.push(q).drop_first() =~= Seq::<Seq<char>>::empty());
}

proof fn lemma_equals_sign_after(name: Seq<char>, value: Seq<char>)
    requires
        forall|i: int| 0 <= i < name.len() ==> name[i] != '=',
    ensures
        first_index_of(name + seq!['='] + value, '=') == Some(name.len() as int),
        (name + seq!['='] + value).take(name.len() as int) == name,
        (name + seq!['='] + value).skip(name.len() as int + 1) == value,
    decreases name.len(),
{
    let a = name + seq!['='] + value;
    if name.len() > 0 {
        assert forall|i: int| 0 <= i < name.drop_first().len() implies name.drop_first()[i] != '=' by {
            assert(name.drop_first()[i] == name[i + 1]);
        }
        lemma_equals_sign_after(name.drop_first(), value);
        assert(a.drop_first() =~= name.drop_first() + seq!['='] + value);
    }
    assert(a.take(name.len() as int) =~= name);
    assert(a.skip(name.len() as int + 1) =~= value);
}

/// The `name=value` forms of the context options: `--context=n` gives `n` lines on both
/// sides, `--after-context=n` only after a match and `--before-context=n` only before it;
/// the query is the word that follows, and no path is given.
pub proof fn lemma_context_values_set_their_sides(name: Seq<char>, n: Seq<char>, q: Seq<char>, v: nat)
    requires
        name == "--context"@ || name == "--after-context"@ || name == "--before-context"@,
        parse_unsigned(n, usize::MAX as nat) == Some(v),
        is_plain_word(q),
    ensures
        managed_rg_spec(seq![name + seq!['='] + n, q]) matches Ok(r) && {
            &&& r.rg && r.query == Some(q) && r.rg_paths.len() == 0 && r.queries.len() == 0
            &&& name == "--context"@ ==> r.rg_options.before_context == v && r.rg_options.after_context == v
            &&& name == "--after-context"@ ==> r.rg_options.before_context == 0 && r.rg_options.after_context == v
            &&& name == "--before-context"@ ==> r.rg_options.before_context == v && r.rg_options.after_context == 0
        },
{
    let a = name + seq!['='] + n;
    let args = seq![a, q];
    let st = managed_initial();
    let empty: Seq<Seq<char>> = seq![];
    reveal_strlit("--");
    reveal_strlit("--glob");
    reveal_strlit("--iglob");
    reveal_strlit("--type");
    reveal_strlit("--type-not");
    reveal_strlit("--ignore-file");
    reveal_strlit("--max-depth");
    reveal_strlit("--max-filesize");
    reveal_strlit("--context");
    reveal_strlit("--before-context");
    reveal_strlit("--after-context");
    assert forall|i: int| 0 <= i < name.len() implies name[i] != '=' by {}
    lemma_equals_sign_after(name, n);
    assert(a.len() > name.len());
    assert(a[name.len() as int] == '=');
    assert(a != "--"@) by {
        if a == "--"@ {
            assert(a[name.len() as int] == "--"@[name.len() as int]);
        }
    }
    let st2 = long_with_value_spec(name, n, st)->Ok_0->Some_0;
    assert(long_with_value_spec(name, n, st) == Ok::<Option<St>, ErrM>(Some(st2)));
    assert(managed_from(args, 0, false, st, empty) == managed_from(args, 1, false, st2, empty));
    lemma_plain_word_is_positional(args, 1, st2, empty);
    assert(managed_from(args, 2, false, st2, empty.push(q)) == Ok::<(St, Seq<Seq<char>>), ErrM>((st2, empty.push(q))));
    assert(empty.push(q).drop_first() =~= Seq::<Seq<char>>::empty());
}

/// The options that take a text value, each followed by a value and a word: a glob,
/// case-insensitive glob, file type, excluded file type or ignore file is recorded as the
/// only one of its kind, and the word is the query; a pattern (`-e`/`--regexp`) or pattern
/// file (`-f`/`--file`) is recorded instead, there is then no query, and the word is the
/// only path to search.
pub proof fn lemma_value_options_record_their_value(flag: Seq<char>, v: Seq<char>, q: Seq<char>)
    requires
        whole_value_option(flag),
        v.len() > 0,
        is_plain_word(q),
    ensures
        managed_rg_spec(seq![flag, v, q]) matches Ok(r) && {
            let pattern_option = flag == "-e"@ || flag == "--regexp"@ || flag == "-f"@ || flag == "--file"@;
            &&& r.rg
            &&& !pattern_option ==> r.query == Some(q) && r.rg_paths.len() == 0
            &&& pattern_option ==> r.query is None && r.rg_paths == seq![q]
            &&& r.globs == (if flag == "-g"@ || flag == "--glob"@ { seq![v] } else { seq![] })
            &&& r.insensitive_globs == (if flag == "--iglob"@ { seq![v] } else { seq![] })
            &&& r.file_types == (if flag == "-t"@ || flag == "--type"@ { seq![v] } else { seq![] })
            &&& r.excluded_file_types == (if flag == "-T"@ || flag == "--type-not"@ { seq![v] } else { seq![] })
            &&& r.ignore_files == (if flag == "--ignore-file"@ { seq![v] } else { seq![] })
            &&& r.queries == (if flag == "-e"@ || flag == "--regexp"@ { seq![v] } else { seq![] })
            &&& r.rg_options.pattern_files == (if flag == "-f"@ || flag == "--file"@ { seq![v] } else { seq![] })
        },
{
    let args = seq![flag, v, q];
    let st = managed_initial();
    let empty: Seq<Seq<char>> = seq![];
    reveal_strlit("--");
    reveal_strlit("--after-context");
    reveal_strlit("--before-context");
    reveal_strlit("--context");
    reveal_strlit("--file");
    reveal_strlit("--fixed-strings");
    reveal_strlit("--follow");
    reveal_strlit("--glob");
    reveal_strlit("--hidden");
    reveal_strlit("--iglob");
    reveal_strlit("--ignore-case");
    reveal_strlit("--ignore-file");
    reveal_strlit("--line-number");
    reveal_strlit("--max-depth");
    reveal_strlit("--max-filesize");
    reveal_strlit("--no-ignore");
    reveal_strlit("--recursive");
    reveal_strlit("--regexp");
    reveal_strlit("--type");
    reveal_strlit("--type-not");
    reveal_strlit("--with-filename");
    reveal_strlit("--word-regexp");
    reveal_strlit("-A");
    reveal_strlit("-B");
    reveal_strlit("-C");
    reveal_strlit("-F");
    reveal_strlit("-H");
    reveal_strlit("-L");
    reveal_strlit("-T");
    reveal_strlit("-e");
    reveal_strlit("-f");
    reveal_strlit("-g");
    reveal_strlit("-i");
    reveal_strlit("-n");
    reveal_strlit("-t");
    reveal_strlit("-w");
    assert(flag != "--"@);
    assert forall|i: int| 0 <= i < flag.len() implies flag[i] != '=' by {}
    lemma_no_equals_sign(flag);
    assert("--ignore-file"@ != "--ignore-case"@) by {
        assert("--ignore-file"@[9] != "--ignore-case"@[9]);
    }
    assert(whole_switch(st, flag) is None);
    assert(take_value_spec(args, 0, flag) == Ok::<Seq<char>, ErrM>(v));
    let st2 = whole_value_spec(st, flag, v);
    assert(token_spec(args, 0, st, empty) == Ok::<(St, Seq<Seq<char>>, bool), ErrM>((st2, empty, true)));
    assert(managed_from(args, 0, false, st, empty) == managed_from(args, 2, false, st2, empty));
    lemma_plain_word_is_positional(args, 2, st2, empty);
    assert(managed_from(args, 3, false, st2, empty.push(q)) == Ok::<(St, Seq<Seq<char>>), ErrM>((st2, empty.push(q))));
    assert(empty.push(q).drop_first() =~= Seq::<Seq<char>>::empty());
    assert(empty.push(q) =~= seq![q]);
    assert(Seq::<Seq<char>>::empty().push(v) =~= seq![v]);
}

/// The switches written whole, each followed by a word: `-F`, `-i` and `-w` turn on fixed
/// strings, ignored case and whole words, `--hidden`, `--no-ignore` and `-L`/`--follow`
/// turn on hidden files, no ignore files and following links; the others (`-n`, `-H`,
/// `--line-number`, `--with-filename`, `--recursive`) change nothing. The word is the query.
pub proof fn lemma_switches_set_their_flags(flag: Seq<char>, q: Seq<char>)
    requires
        is_switch_arg(flag),
        is_plain_word(q),
    ensures
        managed_rg_spec(seq![flag, q]) matches Ok(r) && {
            &&& r.rg && r.query == Some(q) && r.rg_paths.len() == 0 && r.queries.len() == 0
            &&& r.rg_options.fixed_strings == (flag == "-F"@ || flag == "--fixed-strings"@)
            &&& r.rg_options.ignore_case == (flag == "-i"@ || flag == "--ignore-case"@)
            &&& r.rg_options.word_regexp == (flag == "-w"@ || flag == "--word-regexp"@)
            &&& r.hidden == (flag == "--hidden"@)
            &&& r.no_ignore == (flag == "--no-ignore"@)
            &&& r.follow == (flag == "-L"@ || flag == "--follow"@)
        },
{
    let args = seq![flag, q];
    let st = managed_initial();
    let empty: Seq<Seq<char>> = seq![];
    reveal_strlit("--");
    reveal_strlit("--after-context");
    reveal_strlit("--before-context");
    reveal_strlit("--context");
    reveal_strlit("--file");
    reveal_strlit("--fixed-strings");
    reveal_strlit("--follow");
    reveal_strlit("--glob");
    reveal_strlit("--hidden");
    reveal_strlit("--iglob");
    reveal_strlit("--ignore-case");
    reveal_strlit("--ignore-file");
    reveal_strlit("--line-number");
    reveal_strlit("--max-depth");
    reveal_strlit("--max-filesize");
    reveal_strlit("--no-ignore");
    reveal_strlit("--recursive");
    reveal_strlit("--regexp");
    reveal_strlit("--type");
    reveal_strlit("--type-not");
    reveal_strlit("--with-filename");
    reveal_strlit("--word-regexp");
    reveal_strlit("-A");
    reveal_strlit("-B");
    reveal_strlit("-C");
    reveal_strlit("-F");
    reveal_strlit("-H");
    reveal_strlit("-L");
    reveal_strlit("-T");
    reveal_strlit("-e");
    reveal_strlit("-f");
    reveal_strlit("-g");
    reveal_strlit("-i");
    reveal_strlit("-n");
    reveal_strlit("-t");
    reveal_strlit("-w");
    lemma_switch_is_applied(args, 0, st, empty);
    let st2 = whole_switch(st, flag)->0;
    lemma_plain_word_is_positional(args, 1, st2, empty);
    assert(managed_from(args, 2, false, st2, empty.push(q)) == Ok::<(St, Seq<Seq<char>>), ErrM>((st2, empty.push(q))));
    assert(empty.push(q).drop_first() =~= Seq::<Seq<char>>::empty());
}

} // verus!
