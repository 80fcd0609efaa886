//! The `zg` command line: managed-ripgrep requests, server plans and terminal rendering.
use vstd::prelude::*;

use crate::context::{ContextOptions, ContextOptionsModel, RgOptions, RgOptionsModel, context_options_default};
use crate::rg_args::{RgArgs, RgArgsModel, RgArgErrorModel, parse_rg_args, rg_args_spec};

pub use crate::rg_args::ManagedRgArgumentError;
pub use crate::cli_args::{
    Cli, CliEnv, CliParseError, ClientMode, CommandLine, McpToolset, QueryArgs, ServerAction,
    ServerArgs, ServerHomeArgs, ServerStartArgs,
};
use crate::cli_args::{CliModel, ServerActionModel, ServerStartModel, default_listen};
use crate::common::ContentRange;
use crate::context::{ContextItem, ContextResult};
use crate::text::{append_chars, append_str, chars_eq, chars_of, decimal, string_of, trim_end, trim_end_chars, u64_to_string};

verus! {

/// The context request that a parsed managed-ripgrep argument list stands for, once
/// the query (or the absence of one) and the search paths have been chosen.
pub open spec fn context_for_rg_args(p: RgArgsModel, query: Option<Seq<char>>, paths: Seq<Seq<char>>) -> ContextOptionsModel {
    ContextOptionsModel {
        rg: true,
        query: query,
        queries: p.patterns,
        rg_paths: paths,
        rg_options: RgOptionsModel {
            fixed_strings: p.fixed_strings,
            ignore_case: p.ignore_case,
            word_regexp: p.word_regexp,
            before_context: p.before_context,
            after_context: p.after_context,
            pattern_files: p.pattern_files,
            extra_args: seq![],
        },
        hidden: p.hidden,
        no_ignore: p.no_ignore,
        follow: p.follow,
        globs: p.globs,
        file_types: p.file_types,
        excluded_file_types: p.excluded_file_types,
        ignore_files: p.ignore_files,
        max_depth: p.max_depth,
        max_file_size_bytes: p.max_file_size_bytes,
        ..context_options_default()
    }
}

/// `zg query --rg ARGS`: with no `-e`/`-f` pattern the first positional is the query,
/// and the remaining positionals are the paths to search.
pub open spec fn managed_rg_context(args: Seq<Seq<char>>) -> Result<ContextOptionsModel, RgArgErrorModel> {
    match rg_args_spec(args) {
        Err(e) => Err(e),
        Ok(p) => if p.patterns.len() == 0 && p.pattern_files.len() == 0 {
            if p.positionals.len() == 0 {
                Err(RgArgErrorModel::MissingPattern)
            } else {
                Ok(context_for_rg_args(p, Some(p.positionals[0]), p.positionals.drop_first()))
            }
        } else {
            Ok(context_for_rg_args(p, None, p.positionals))
        },
    }
}

fn context_from_rg_args(p: RgArgs) -> (r: Result<ContextOptions, ManagedRgArgumentError>)
    ensures
        match r {
            Ok(req) => {
                &&& p@.patterns.len() != 0 || p@.pattern_files.len() != 0 || p@.positionals.len() != 0
                &&& req@ == (if p@.patterns.len() == 0 && p@.pattern_files.len() == 0 {
                    context_for_rg_args(p@, Some(p@.positionals[0]), p@.positionals.drop_first())
                } else {
                    context_for_rg_args(p@, None, p@.positionals)
                })
            },
            Err(e) => e@ == RgArgErrorModel::MissingPattern && p@.patterns.len() == 0
                && p@.pattern_files.len() == 0 && p@.positionals.len() == 0,
        },
{
    let ghost pm = p@;
    let RgArgs {
        fixed_strings,
        ignore_case,
        word_regexp,
        hidden,
        no_ignore,
        follow,
        globs,
        file_types,
        excluded_file_types,
        ignore_files,
        max_depth,
        max_file_size_bytes,
        before_context,
        after_context,
        patterns,
        pattern_files,
        positionals,
    } = p;
    let mut positionals = positionals;
    let mut query: Option<String> = None;
    if patterns.len() == 0 && pattern_files.len() == 0 {
        if positionals.len() == 0 {
            return Err(ManagedRgArgumentError::MissingPattern);
        }
        let first = positionals.remove(0);
        assert(positionals.deep_view() =~= pm.positionals.drop_first());
        query = Some(first);
    }
    let mut rg_options = RgOptions::new();
    rg_options.fixed_strings = fixed_strings;
    rg_options.ignore_case = ignore_case;
    rg_options.word_regexp = word_regexp;
    rg_options.before_context = before_context;
    rg_options.after_context = after_context;
    rg_options.pattern_files = pattern_files;
    let mut req = ContextOptions::new();
    req.rg = true;
    req.query = query;
    req.queries = patterns;
    req.rg_paths = positionals;
    req.rg_options = rg_options;
    req.hidden = hidden;
    req.no_ignore = no_ignore;
    req.follow = follow;
    req.globs = globs;
    req.file_types = file_types;
    req.excluded_file_types = excluded_file_types;
    req.ignore_files = ignore_files;
    req.max_depth = max_depth;
    req.max_file_size_bytes = max_file_size_bytes;
    Ok(req)
}

/// Parses the managed-ripgrep argument dialect shared by CLI and MCP.
///
/// Fails with a missing pattern, an unsupported option, an option without its
/// value, or a numeric option whose value does not parse.
pub fn parse_managed_rg_args(args: &[String]) -> (r: Result<ContextOptions, ManagedRgArgumentError>)
    ensures
        match r {
            Ok(req) => managed_rg_context(args.deep_view()) == Ok::<ContextOptionsModel, RgArgErrorModel>(req@),
            Err(e) => managed_rg_context(args.deep_view()) == Err::<ContextOptionsModel, RgArgErrorModel>(e@),
        },
{
    match parse_rg_args(args) {
        Err(e) => Err(e),
        Ok(p) => context_from_rg_args(p),
    }
}

} // verus!

verus! {

/// A validated command line.
#[derive(Debug)]
pub enum CliPlan {
    Execute { mode: ClientMode, request: Box<ContextOptions> },
    Server(ServerPlan),
}

/// What `zg server` is to do.
#[derive(Debug, PartialEq, Eq)]
pub enum ServerPlan {
    Stdio(ServerStartArgs),
    On(ServerStartArgs),
    Off(ServerHomeArgs),
    Status(ServerHomeArgs),
    Run(ServerStartArgs),
}

/// Why a command line has no plan.
#[derive(Debug, PartialEq, Eq)]
pub enum CliError {
    /// Only `zg query --rg` is implemented.
    UnsupportedSlice,
    /// `zg server` needs `--stdio` or one of on, off, status.
    MissingServerAction,
    /// `--stdio` cannot be combined with a server action.
    StdioWithServerAction,
    ManagedRg(ManagedRgArgumentError),
}

/// The mathematical form of [`ServerPlan`].
pub enum ServerPlanModel {
    Stdio(ServerStartModel),
    On(ServerStartModel),
    Off(Option<Seq<char>>),
    Status(Option<Seq<char>>),
    Run(ServerStartModel),
}

/// The mathematical form of [`CliPlan`].
pub enum CliPlanModel {
    Execute { mode: ClientMode, request: ContextOptionsModel },
    Server(ServerPlanModel),
}

/// The mathematical form of [`CliError`].
pub enum CliErrorModel {
    UnsupportedSlice,
    MissingServerAction,
    StdioWithServerAction,
    ManagedRg(RgArgErrorModel),
}

impl View for ServerPlan {
    type V = ServerPlanModel;

    open spec fn view(&self) -> ServerPlanModel {
        match self {
            ServerPlan::Stdio(a) => ServerPlanModel::Stdio(a@),
            ServerPlan::On(a) => ServerPlanModel::On(a@),
            ServerPlan::Off(a) => ServerPlanModel::Off(a.home.deep_view()),
            ServerPlan::Status(a) => ServerPlanModel::Status(a.home.deep_view()),
            ServerPlan::Run(a) => ServerPlanModel::Run(a@),
        }
    }
}

impl View for CliPlan {
    type V = CliPlanModel;

    open spec fn view(&self) -> CliPlanModel {
        match self {
            CliPlan::Execute { mode, request } => CliPlanModel::Execute { mode: *mode, request: request@ },
            CliPlan::Server(p) => CliPlanModel::Server(p@),
        }
    }
}

impl View for CliError {
    type V = CliErrorModel;

    open spec fn view(&self) -> CliErrorModel {
        match self {
            CliError::UnsupportedSlice => CliErrorModel::UnsupportedSlice,
            CliError::MissingServerAction => CliErrorModel::MissingServerAction,
            CliError::StdioWithServerAction => CliErrorModel::StdioWithServerAction,
            CliError::ManagedRg(e) => CliErrorModel::ManagedRg(e@),
        }
    }
}

/// The plan of a parsed command line whose workspace root is `root`.
pub open spec fn plan_spec(cli: CliModel, root: Seq<char>) -> Result<CliPlanModel, CliErrorModel> {
    match cli {
        CliModel::Query { mode, rg, rg_args } => if rg {
            match managed_rg_context(rg_args) {
                Ok(req) => Ok(CliPlanModel::Execute { mode: mode, request: ContextOptionsModel { root: Some(root), ..req } }),
                Err(e) => Err(CliErrorModel::ManagedRg(e)),
            }
        } else {
            Err(CliErrorModel::UnsupportedSlice)
        },
        CliModel::Server { stdio, listen, home, mcp_toolset, action } => if stdio {
            if action is Some {
                Err(CliErrorModel::StdioWithServerAction)
            } else {
                Ok(CliPlanModel::Server(ServerPlanModel::Stdio(ServerStartModel {
                    listen: match listen {
                        Some(l) => l,
                        None => default_listen(),
                    },
                    home: home,
                    mcp_toolset: match mcp_toolset {
                        Some(m) => m,
                        None => McpToolset::Agent,
                    },
                })))
            }
        } else {
            match action {
                None => Err(CliErrorModel::MissingServerAction),
                Some(ServerActionModel::On(a)) => Ok(CliPlanModel::Server(ServerPlanModel::On(a))),
                Some(ServerActionModel::Off(h)) => Ok(CliPlanModel::Server(ServerPlanModel::Off(h))),
                Some(ServerActionModel::Status(h)) => Ok(CliPlanModel::Server(ServerPlanModel::Status(h))),
                Some(ServerActionModel::Run(a)) => Ok(CliPlanModel::Server(ServerPlanModel::Run(a))),
            }
        },
    }
}

/// The human-readable message of a plan error.
pub open spec fn cli_error_message(e: CliErrorModel) -> Seq<char> {
    match e {
        CliErrorModel::UnsupportedSlice => "the Rust POC currently implements only `zg query --rg`"@,
        CliErrorModel::MissingServerAction => "use `zg server --stdio` or choose one of: on, off, status"@,
        CliErrorModel::StdioWithServerAction => "`--stdio` cannot be combined with a server action"@,
        CliErrorModel::ManagedRg(e) => crate::rg_args::rg_arg_error_message(e),
    }
}

impl CliError {
    /// The human-readable message of this error.
    pub fn message(&self) -> (s: String)
        ensures
            s@ == cli_error_message(self@),
    {
        match self {
            CliError::UnsupportedSlice => "the Rust POC currently implements only `zg query --rg`".to_owned(),
            CliError::MissingServerAction => "use `zg server --stdio` or choose one of: on, off, status".to_owned(),
            CliError::StdioWithServerAction => "`--stdio` cannot be combined with a server action".to_owned(),
            CliError::ManagedRg(e) => e.message(),
        }
    }
}

impl Cli {
    /// Converts a parsed command line into one typed plan.
    ///
    /// Fails when the requested slice is not implemented, when `zg server` has neither
    /// `--stdio` nor an action, when `--stdio` is combined with an action, or when the
    /// managed-ripgrep arguments do not parse.
    pub fn into_plan(self, root: String) -> (r: Result<CliPlan, CliError>)
        ensures
            match r {
                Ok(p) => plan_spec(self@, root@) == Ok::<CliPlanModel, CliErrorModel>(p@),
                Err(e) => plan_spec(self@, root@) == Err::<CliPlanModel, CliErrorModel>(e@),
            },
    {
        match self.command {
            CommandLine::Query(args) => {
                if args.rg {
                    match parse_managed_rg_args(args.rg_args.as_slice()) {
                        Ok(mut request) => {
                            request.root = Some(root);
                            Ok(CliPlan::Execute { mode: args.mode, request: Box::new(request) })
                        },
                        Err(e) => Err(CliError::ManagedRg(e)),
                    }
                } else {
                    Err(CliError::UnsupportedSlice)
                }
            },
            CommandLine::Server(args) => {
                if args.stdio {
                    if args.action.is_some() {
                        return Err(CliError::StdioWithServerAction);
                    }
                    let listen = match args.listen {
                        Some(l) => l,
                        None => crate::text::owned("127.0.0.1:7999"),
                    };
                    let mcp_toolset = match args.mcp_toolset {
                        Some(m) => m,
                        None => McpToolset::Agent,
                    };
                    Ok(CliPlan::Server(ServerPlan::Stdio(ServerStartArgs { listen, home: args.home, mcp_toolset })))
                } else {
                    match args.action {
                        None => Err(CliError::MissingServerAction),
                        Some(ServerAction::On(a)) => Ok(CliPlan::Server(ServerPlan::On(a))),
                        Some(ServerAction::Off(a)) => Ok(CliPlan::Server(ServerPlan::Off(a))),
                        Some(ServerAction::Status(a)) => Ok(CliPlan::Server(ServerPlan::Status(a))),
                        Some(ServerAction::Run(a)) => Ok(CliPlan::Server(ServerPlan::Run(a))),
                    }
                }
            },
        }
    }
}

} // verus!

verus! {

/// The first line of a text range; zero for every other range.
pub open spec fn start_line_spec(range: ContentRange) -> nat {
    match range {
        ContentRange::Text { start_line, .. } => start_line as nat,
        _ => 0,
    }
}

/// The first line of a text range; zero for every other range.
pub fn start_line(range: &ContentRange) -> (n: usize)
    ensures
        n == start_line_spec(*range),
{
    match range {
        ContentRange::Text { start_line, .. } => *start_line,
        _ => 0,
    }
}

/// One rendered match: two spaces, the start line, `: `, and the content without trailing whitespace.
pub open spec fn item_line(item: ContextItem) -> Seq<char> {
    "  "@ + decimal(start_line_spec(item.range)) + ": "@ + trim_end(item.content@) + "\n"@
}

/// Renders `items[k..]`; each run of items from one file follows a header line with
/// its path, and runs are separated by an empty line.
pub open spec fn render_items(items: Seq<ContextItem>, k: int, prev: Option<Seq<char>>) -> Seq<char>
    decreases items.len() - k,
{
    if k < 0 || k >= items.len() {
        seq![]
    } else {
        let p = items[k].relative_path@;
        let header = if prev is Some && crate::path::same_path(prev->0, p) {
            Seq::<char>::empty()
        } else {
            (if prev is Some { "\n"@ } else { Seq::<char>::empty() }) + p + "\n"@
        };
        header + item_line(items[k]) + render_items(items, k + 1, Some(p))
    }
}

/// The terminal rendering of a context reply.
pub open spec fn render_spec(result: ContextResult) -> Seq<char> {
    if result.items@.len() == 0 {
        "No matches.\n"@
    } else {
        render_items(result.items@, 0, None)
    }
}

/// Renders an rg-backed context result for the terminal.
pub fn render_context_result(result: &ContextResult) -> (s: String)
    ensures
        s@ == render_spec(*result),
{
    let mut out: Vec<char> = Vec::new();
    if result.items.len() == 0 {
        append_str(&mut out, "No matches.\n");
        assert(out@ =~= "No matches.\n"@);
        return string_of(&out);
    }
    let ghost items = result.items@;
    let mut previous: Option<Vec<char>> = None;
    let mut k: usize = 0;
    assert(out@ =~= Seq::<char>::empty());
    while k < result.items.len()
        invariant
            items == result.items@,
            0 <= k <= items.len(),
            out@ + render_items(items, k as int, match &previous { Some(p) => Some(p@), None => None })
                == render_items(items, 0, None),
        decreases items.len() - k,
    {
        let item = &result.items[k];
        let ghost prev_model = match &previous { Some(p) => Some(p@), None => None::<Seq<char>> };
        let ghost before = out@;
        let path = chars_of(item.relative_path.as_str());
        let same = match &previous {
            Some(p) => crate::path::paths_equal(string_of(p).as_str(), item.relative_path.as_str()),
            None => false,
        };
        if !same {
            if previous.is_some() {
                append_str(&mut out, "\n");
            }
            append_chars(&mut out, path.as_slice());
            append_str(&mut out, "\n");
        }
        let ghost header = if prev_model is Some && crate::path::same_path(prev_model->0, path@) {
            Seq::<char>::empty()
        } else {
            (if prev_model is Some { "\n"@ } else { Seq::<char>::empty() }) + path@ + "\n"@
        };
        assert(out@ =~= before + header);
        append_str(&mut out, "  ");
        let line = u64_to_string(start_line(&item.range) as u64);
        append_str(&mut out, line.as_str());
        append_str(&mut out, ": ");
        let content = chars_of(item.content.as_str());
        let trimmed = trim_end_chars(content.as_slice());
        append_chars(&mut out, trimmed.as_slice());
        append_str(&mut out, "\n");
        assert(out@ =~= before + header + item_line(items[k as int]));
        previous = Some(path);
        k += 1;
        assert(render_items(items, k - 1, prev_model) == header + item_line(items[k - 1]) + render_items(items, k as int, Some(items[k - 1].relative_path@)));
        assert(out@ + render_items(items, k as int, Some(items[k - 1].relative_path@)) =~= before + render_items(items, k - 1, prev_model));
    }
    string_of(&out)
}

/// Appends the terminal rendering of a context reply to `out`; the caller
/// writes the text where it belongs.
pub fn write_context_result(out: &mut String, result: &ContextResult)
    ensures
        final(out)@ == old(out)@ + render_spec(*result),
{
    let rendered = render_context_result(result);
    let mut chars = chars_of(out.as_str());
    append_str(&mut chars, rendered.as_str());
    *out = string_of(&chars);
}

/// A server command without `--stdio` is planned as its action, each under its own name:
/// `on` starts the daemon, `off` stops it, `status` reports it and `run` runs it in the
/// foreground, each with the action's own arguments, whatever the top-level server flags
/// say; without an action it is refused. With `--stdio`, an action is refused.
pub proof fn lemma_server_actions_keep_their_names(
    listen: Option<Seq<char>>,
    home: Option<Seq<char>>,
    mcp_toolset: Option<McpToolset>,
    action: Option<ServerActionModel>,
    root: Seq<char>,
)
    ensures
        ({
            let plan = plan_spec(CliModel::Server { stdio: false, listen, home, mcp_toolset, action }, root);
            &&& action is None ==> plan == Err::<CliPlanModel, CliErrorModel>(CliErrorModel::MissingServerAction)
            &&& action matches Some(ServerActionModel::On(a)) ==> plan == Ok::<CliPlanModel, CliErrorModel>(CliPlanModel::Server(ServerPlanModel::On(a)))
            &&& action matches Some(ServerActionModel::Off(h)) ==> plan == Ok::<CliPlanModel, CliErrorModel>(CliPlanModel::Server(ServerPlanModel::Off(h)))
            &&& action matches Some(ServerActionModel::Status(h)) ==> plan == Ok::<CliPlanModel, CliErrorModel>(CliPlanModel::Server(ServerPlanModel::Status(h)))
            &&& action matches Some(ServerActionModel::Run(a)) ==> plan == Ok::<CliPlanModel, CliErrorModel>(CliPlanModel::Server(ServerPlanModel::Run(a)))
        }),
        action is Some ==> plan_spec(CliModel::Server { stdio: true, listen, home, mcp_toolset, action }, root)
            == Err::<CliPlanModel, CliErrorModel>(CliErrorModel::StdioWithServerAction),
{
}

/// A query is planned only with `--rg`: without it the slice is refused; with it the
/// plan runs in the requested mode, rooted at the workspace root, on the request the
/// managed ripgrep arguments give, and fails exactly when those arguments are refused.
pub proof fn lemma_queries_run_rooted_in_their_mode(mode: ClientMode, rg: bool, rg_args: Seq<Seq<char>>, root: Seq<char>)
    ensures
        ({
            let plan = plan_spec(CliModel::Query { mode, rg, rg_args }, root);
            &&& !rg ==> plan == Err::<CliPlanModel, CliErrorModel>(CliErrorModel::UnsupportedSlice)
            &&& rg ==> (plan is Ok <==> managed_rg_context(rg_args) is Ok)
            &&& rg ==> (managed_rg_context(rg_args) matches Ok(req) ==> plan == Ok::<CliPlanModel, CliErrorModel>(
                CliPlanModel::Execute { mode, request: ContextOptionsModel { root: Some(root), ..req } }))
            &&& rg ==> (managed_rg_context(rg_args) matches Err(e) ==> plan == Err::<CliPlanModel, CliErrorModel>(CliErrorModel::ManagedRg(e)))
        }),
{
}

} // verus!
