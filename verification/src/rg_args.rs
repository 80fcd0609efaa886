//! The managed-ripgrep argument dialect shared by the CLI and MCP adapters.
use vstd::prelude::*;

use crate::text::{
    append_str, arg_chars, arg_clone, chars_eq, debug_quoted, debug_str, parse_unsigned, parse_unsigned_chars, push_string,
    string_of,
};

verus! {

/// Failure while parsing a managed-ripgrep argument list.
#[derive(Debug, Clone, PartialEq, Eq)]
pub enum ManagedRgArgumentError {
    MissingPattern,
    UnsupportedOption(String),
    MissingOptionValue { option: String },
    InvalidOptionValue { option: String, value: String },
}

/// The mathematical form of a [`ManagedRgArgumentError`].
pub enum RgArgErrorModel {
    MissingPattern,
    UnsupportedOption(Seq<char>),
    MissingOptionValue(Seq<char>),
    InvalidOptionValue(Seq<char>, Seq<char>),
}

impl View for ManagedRgArgumentError {
    type V = RgArgErrorModel;

    open spec fn view(&self) -> RgArgErrorModel {
        match self {
            ManagedRgArgumentError::MissingPattern => RgArgErrorModel::MissingPattern,
            ManagedRgArgumentError::UnsupportedOption(o) => RgArgErrorModel::UnsupportedOption(o@),
            ManagedRgArgumentError::MissingOptionValue { option } => RgArgErrorModel::MissingOptionValue(option@),
            ManagedRgArgumentError::InvalidOptionValue { option, value } => RgArgErrorModel::InvalidOptionValue(option@, value@),
        }
    }
}

/// The human-readable message of a managed-ripgrep argument error.
pub open spec fn rg_arg_error_message(e: RgArgErrorModel) -> Seq<char> {
    match e {
        RgArgErrorModel::MissingPattern => "zg query --rg requires a pattern"@,
        RgArgErrorModel::UnsupportedOption(o) => "unsupported --rg option in the POC: "@ + o,
        RgArgErrorModel::MissingOptionValue(o) => o + " requires a value"@,
        RgArgErrorModel::InvalidOptionValue(o, v) => "invalid value "@ + debug_quoted(v) + " for "@ + o,
    }
}

impl ManagedRgArgumentError {
    /// The human-readable message of this error.
    pub fn message(&self) -> (s: String)
        ensures
            s@ == rg_arg_error_message(self@),
    {
        let mut out: Vec<char> = Vec::new();
        match self {
            ManagedRgArgumentError::MissingPattern => append_str(&mut out, "zg query --rg requires a pattern"),
            ManagedRgArgumentError::UnsupportedOption(o) => {
                append_str(&mut out, "unsupported --rg option in the POC: ");
                append_str(&mut out, o.as_str());
            },
            ManagedRgArgumentError::MissingOptionValue { option } => {
                append_str(&mut out, option.as_str());
                append_str(&mut out, " requires a value");
            },
            ManagedRgArgumentError::InvalidOptionValue { option, value } => {
                append_str(&mut out, "invalid value ");
                append_str(&mut out, debug_str(value.as_str()).as_str());
                append_str(&mut out, " for ");
                append_str(&mut out, option.as_str());
            },
        }
        string_of(&out)
    }
}

/// Everything the dialect collects from an argument list before the pattern is chosen.
pub struct RgArgs {
    pub fixed_strings: bool,
    pub ignore_case: bool,
    pub word_regexp: bool,
    pub hidden: bool,
    pub no_ignore: bool,
    pub follow: bool,
    pub globs: Vec<String>,
    pub file_types: Vec<String>,
    pub excluded_file_types: Vec<String>,
    pub ignore_files: Vec<String>,
    pub max_depth: Option<usize>,
    pub max_file_size_bytes: Option<u64>,
    pub before_context: usize,
    pub after_context: usize,
    pub patterns: Vec<String>,
    pub pattern_files: Vec<String>,
    pub positionals: Vec<String>,
}

/// The mathematical form of [`RgArgs`].
pub struct RgArgsModel {
    pub fixed_strings: bool,
    pub ignore_case: bool,
    pub word_regexp: bool,
    pub hidden: bool,
    pub no_ignore: bool,
    pub follow: bool,
    pub globs: Seq<Seq<char>>,
    pub file_types: Seq<Seq<char>>,
    pub excluded_file_types: Seq<Seq<char>>,
    pub ignore_files: Seq<Seq<char>>,
    pub max_depth: Option<nat>,
    pub max_file_size_bytes: Option<nat>,
    pub before_context: nat,
    pub after_context: nat,
    pub patterns: Seq<Seq<char>>,
    pub pattern_files: Seq<Seq<char>>,
    pub positionals: Seq<Seq<char>>,
}

impl View for RgArgs {
    type V = RgArgsModel;

    open spec fn view(&self) -> RgArgsModel {
        RgArgsModel {
            fixed_strings: self.fixed_strings,
            ignore_case: self.ignore_case,
            word_regexp: self.word_regexp,
            hidden: self.hidden,
            no_ignore: self.no_ignore,
            follow: self.follow,
            globs: self.globs.deep_view(),
            file_types: self.file_types.deep_view(),
            excluded_file_types: self.excluded_file_types.deep_view(),
            ignore_files: self.ignore_files.deep_view(),
            max_depth: match self.max_depth {
                Some(v) => Some(v as nat),
                None => None,
            },
            max_file_size_bytes: match self.max_file_size_bytes {
                Some(v) => Some(v as nat),
                None => None,
            },
            before_context: self.before_context as nat,
            after_context: self.after_context as nat,
            patterns: self.patterns.deep_view(),
            pattern_files: self.pattern_files.deep_view(),
            positionals: self.positionals.deep_view(),
        }
    }
}

/// The state before any argument has been read.
pub open spec fn rg_args_initial() -> RgArgsModel {
    RgArgsModel {
        fixed_strings: false,
        ignore_case: false,
        word_regexp: false,
        hidden: false,
        no_ignore: false,
        follow: false,
        globs: seq![],
        file_types: seq![],
        excluded_file_types: seq![],
        ignore_files: seq![],
        max_depth: None,
        max_file_size_bytes: None,
        before_context: 0,
        after_context: 0,
        patterns: seq![],
        pattern_files: seq![],
        positionals: seq![],
    }
}

/// Options that take the next argument as a string value.
pub open spec fn is_value_option(a: Seq<char>) -> bool {
    a == "-g"@ || a == "--glob"@ || a == "-t"@ || a == "--type"@ || a == "-T"@
        || a == "--type-not"@ || a == "--ignore-file"@ || a == "-e"@ || a == "--regexp"@
        || a == "-f"@ || a == "--file"@
}

/// Options that take the next argument as a number.
pub open spec fn is_number_option(a: Seq<char>) -> bool {
    a == "--max-depth"@ || a == "--max-filesize"@ || a == "-A"@ || a == "--after-context"@
        || a == "-B"@ || a == "--before-context"@ || a == "-C"@ || a == "--context"@
}

/// Applies a string-valued option.
pub open spec fn apply_value_option(st: RgArgsModel, a: Seq<char>, v: Seq<char>) -> RgArgsModel {
    if a == "-g"@ || a == "--glob"@ {
        RgArgsModel { globs: st.globs.push(v), ..st }
    } else if a == "-t"@ || a == "--type"@ {
        RgArgsModel { file_types: st.file_types.push(v), ..st }
    } else if a == "-T"@ || a == "--type-not"@ {
        RgArgsModel { excluded_file_types: st.excluded_file_types.push(v), ..st }
    } else if a == "--ignore-file"@ {
        RgArgsModel { ignore_files: st.ignore_files.push(v), ..st }
    } else if a == "-e"@ || a == "--regexp"@ {
        RgArgsModel { patterns: st.patterns.push(v), ..st }
    } else {
        RgArgsModel { pattern_files: st.pattern_files.push(v), ..st }
    }
}

/// The largest value the numeric option `a` accepts.
pub open spec fn number_option_max(a: Seq<char>) -> nat {
    if a == "--max-filesize"@ {
        u64::MAX as nat
    } else {
        usize::MAX as nat
    }
}

/// Applies a numeric option.
pub open spec fn apply_number_option(st: RgArgsModel, a: Seq<char>, n: nat) -> RgArgsModel {
    if a == "--max-depth"@ {
        RgArgsModel { max_depth: Some(n), ..st }
    } else if a == "--max-filesize"@ {
        RgArgsModel { max_file_size_bytes: Some(n), ..st }
    } else if a == "-A"@ || a == "--after-context"@ {
        RgArgsModel { after_context: n, ..st }
    } else if a == "-B"@ || a == "--before-context"@ {
        RgArgsModel { before_context: n, ..st }
    } else {
        RgArgsModel { before_context: n, after_context: n, ..st }
    }
}

/// Applies an option that takes no value; `None` when `a` is no such option.
pub open spec fn apply_switch(st: RgArgsModel, a: Seq<char>) -> Option<RgArgsModel> {
    if a == "-n"@ || a == "--line-number"@ {
        Some(st)
    } else if a == "-F"@ || a == "--fixed-strings"@ {
        Some(RgArgsModel { fixed_strings: true, ..st })
    } else if a == "-i"@ || a == "--ignore-case"@ {
        Some(RgArgsModel { ignore_case: true, ..st })
    } else if a == "-w"@ || a == "--word-regexp"@ {
        Some(RgArgsModel { word_regexp: true, ..st })
    } else if a == "--hidden"@ {
        Some(RgArgsModel { hidden: true, ..st })
    } else if a == "--no-ignore"@ {
        Some(RgArgsModel { no_ignore: true, ..st })
    } else if a == "--follow"@ {
        Some(RgArgsModel { follow: true, ..st })
    } else {
        None
    }
}

/// Reads `args[i..]` into `st`: the dialect token by token.
pub open spec fn rg_args_from(args: Seq<Seq<char>>, i: int, finished: bool, st: RgArgsModel) -> Result<RgArgsModel, RgArgErrorModel>
    decreases args.len() - i,
{
    if i < 0 || i >= args.len() {
        Ok(st)
    } else {
        let a = args[i];
        if finished {
            rg_args_from(args, i + 1, true, RgArgsModel { positionals: st.positionals.push(a), ..st })
        } else if a == "--"@ {
            rg_args_from(args, i + 1, true, st)
        } else if apply_switch(st, a) is Some {
            rg_args_from(args, i + 1, false, apply_switch(st, a)->0)
        } else if is_value_option(a) {
            if i + 1 >= args.len() {
                Err(RgArgErrorModel::MissingOptionValue(a))
            } else {
                rg_args_from(args, i + 2, false, apply_value_option(st, a, args[i + 1]))
            }
        } else if is_number_option(a) {
            if i + 1 >= args.len() {
                Err(RgArgErrorModel::MissingOptionValue(a))
            } else {
                match parse_unsigned(args[i + 1], number_option_max(a)) {
                    Some(n) => rg_args_from(args, i + 2, false, apply_number_option(st, a, n)),
                    None => Err(RgArgErrorModel::InvalidOptionValue(a, args[i + 1])),
                }
            }
        } else if a.len() > 0 && a[0] == '-' {
            Err(RgArgErrorModel::UnsupportedOption(a))
        } else {
            rg_args_from(args, i + 1, false, RgArgsModel { positionals: st.positionals.push(a), ..st })
        }
    }
}

/// The dialect applied to a whole argument list, before the pattern is chosen.
pub open spec fn rg_args_spec(args: Seq<Seq<char>>) -> Result<RgArgsModel, RgArgErrorModel> {
    rg_args_from(args, 0, false, rg_args_initial())
}

fn new_rg_args() -> (r: RgArgs)
    ensures
        r@ == rg_args_initial(),
{
    let r = RgArgs {
        fixed_strings: false,
        ignore_case: false,
        word_regexp: false,
        hidden: false,
        no_ignore: false,
        follow: false,
        globs: Vec::new(),
        file_types: Vec::new(),
        excluded_file_types: Vec::new(),
        ignore_files: Vec::new(),
        max_depth: None,
        max_file_size_bytes: None,
        before_context: 0,
        after_context: 0,
        patterns: Vec::new(),
        pattern_files: Vec::new(),
        positionals: Vec::new(),
    };
    assert(r@.globs =~= seq![]);
    assert(r@.file_types =~= seq![]);
    assert(r@.excluded_file_types =~= seq![]);
    assert(r@.ignore_files =~= seq![]);
    assert(r@.patterns =~= seq![]);
    assert(r@.pattern_files =~= seq![]);
    assert(r@.positionals =~= seq![]);
    r
}

fn lit_any(a: &Vec<char>, x: &str, y: &str) -> (r: bool)
    ensures
        r == (a@ == x@ || a@ == y@),
{
    chars_eq(a.as_slice(), x) || chars_eq(a.as_slice(), y)
}

fn try_switch(st: &mut RgArgs, a: &Vec<char>) -> (applied: bool)
    ensures
        applied == (apply_switch(old(st)@, a@) is Some),
        applied ==> final(st)@ == apply_switch(old(st)@, a@)->0,
        !applied ==> final(st)@ == old(st)@,
{
    if lit_any(a, "-n", "--line-number") {
    } else if lit_any(a, "-F", "--fixed-strings") {
        st.fixed_strings = true;
    } else if lit_any(a, "-i", "--ignore-case") {
        st.ignore_case = true;
    } else if lit_any(a, "-w", "--word-regexp") {
        st.word_regexp = true;
    } else if chars_eq(a.as_slice(), "--hidden") {
        st.hidden = true;
    } else if chars_eq(a.as_slice(), "--no-ignore") {
        st.no_ignore = true;
    } else if chars_eq(a.as_slice(), "--follow") {
        st.follow = true;
    } else {
        return false;
    }
    true
}

fn value_option_kind(a: &Vec<char>) -> (k: u8)
    ensures
        k == 0 <==> !is_value_option(a@) && !is_number_option(a@),
        k <= 2,
        k == 1 <==> is_value_option(a@),
        k == 2 <==> !is_value_option(a@) && is_number_option(a@),
{
    if lit_any(a, "-g", "--glob") || lit_any(a, "-t", "--type") || lit_any(a, "-T", "--type-not")
        || chars_eq(a.as_slice(), "--ignore-file") || lit_any(a, "-e", "--regexp")
        || lit_any(a, "-f", "--file") {
        1
    } else if lit_any(a, "--max-depth", "--max-filesize") || lit_any(a, "-A", "--after-context")
        || lit_any(a, "-B", "--before-context") || lit_any(a, "-C", "--context") {
        2
    } else {
        0
    }
}

fn apply_value(st: &mut RgArgs, a: &Vec<char>, v: String)
    requires
        is_value_option(a@),
    ensures
        final(st)@ == apply_value_option(old(st)@, a@, v@),
{
    if lit_any(a, "-g", "--glob") {
        push_string(&mut st.globs, v);
    } else if lit_any(a, "-t", "--type") {
        push_string(&mut st.file_types, v);
    } else if lit_any(a, "-T", "--type-not") {
        push_string(&mut st.excluded_file_types, v);
    } else if chars_eq(a.as_slice(), "--ignore-file") {
        push_string(&mut st.ignore_files, v);
    } else if lit_any(a, "-e", "--regexp") {
        push_string(&mut st.patterns, v);
    } else {
        push_string(&mut st.pattern_files, v);
    }
}

fn apply_number(st: &mut RgArgs, a: &Vec<char>, n: u64)
    requires
        is_number_option(a@),
        n <= number_option_max(a@),
    ensures
        final(st)@ == apply_number_option(old(st)@, a@, n as nat),
{
    proof {
        reveal_strlit("--max-filesize");
        reveal_strlit("--max-depth");
        reveal_strlit("-A");
        reveal_strlit("--after-context");
        reveal_strlit("-B");
        reveal_strlit("--before-context");
        reveal_strlit("-C");
        reveal_strlit("--context");
    }
    if chars_eq(a.as_slice(), "--max-depth") {
        assert("--max-depth"@ != "--max-filesize"@) by {
            assert("--max-depth"@.len() != "--max-filesize"@.len());
        }
        assert(n <= usize::MAX);
        st.max_depth = Some(n as usize);
    } else if chars_eq(a.as_slice(), "--max-filesize") {
        st.max_file_size_bytes = Some(n);
    } else if lit_any(a, "-A", "--after-context") {
        st.after_context = n as usize;
    } else if lit_any(a, "-B", "--before-context") {
        st.before_context = n as usize;
    } else {
        st.before_context = n as usize;
        st.after_context = n as usize;
    }
}

/// Reads an argument list in the managed-ripgrep dialect.
pub fn parse_rg_args(args: &[String]) -> (r: Result<RgArgs, ManagedRgArgumentError>)
    ensures
        match r {
            Ok(parsed) => rg_args_spec(args.deep_view()) == Ok::<RgArgsModel, RgArgErrorModel>(parsed@),
            Err(e) => rg_args_spec(args.deep_view()) == Err::<RgArgsModel, RgArgErrorModel>(e@),
        },
{
    let ghost model = args.deep_view();
    let mut st = new_rg_args();
    let mut index: usize = 0;
    let mut finished = false;
    while index < args.len()
        invariant
            model == args.deep_view(),
            model.len() == args@.len(),
            index <= args@.len(),
            rg_args_from(model, index as int, finished, st@) == rg_args_spec(model),
        decreases args@.len() - index,
    {
        let a = arg_chars(args, index);
        if finished {
            push_string(&mut st.positionals, arg_clone(args, index));
            index += 1;
            continue;
        }
        if chars_eq(a.as_slice(), "--") {
            finished = true;
            index += 1;
            continue;
        }
        if try_switch(&mut st, &a) {
            index += 1;
            continue;
        }
        let kind = value_option_kind(&a);
        if kind == 1 || kind == 2 {
            if index + 1 >= args.len() {
                return Err(ManagedRgArgumentError::MissingOptionValue { option: arg_clone(args, index) });
            }
            let v = arg_clone(args, index + 1);
            if kind == 1 {
                apply_value(&mut st, &a, v);
            } else {
                let max: u64 = if chars_eq(a.as_slice(), "--max-filesize") { u64::MAX } else { usize::MAX as u64 };
                let vc = arg_chars(args, index + 1);
                match parse_unsigned_chars(vc.as_slice(), max) {
                    Some(n) => apply_number(&mut st, &a, n),
                    None => {
                        return Err(ManagedRgArgumentError::InvalidOptionValue { option: arg_clone(args, index), value: v });
                    },
                }
            }
            index += 2;
            continue;
        }
        if a.len() > 0 && a[0] == '-' {
            return Err(ManagedRgArgumentError::UnsupportedOption(arg_clone(args, index)));
        }
        push_string(&mut st.positionals, arg_clone(args, index));
        index += 1;
    }
    Ok(st)
}

} // verus!
