//! The `zg` command-line grammar: `zg query [--mode MODE] [--rg] [RG_ARG]...` and
//! `zg server [--stdio] [--listen ADDRESS] [--home PATH] [--mcp-toolset SET] [on|off|status|run ...]`.
use vstd::prelude::*;

use crate::text::{arg_chars, arg_clone, chars_eq, find_char, first_index_of, is_prefix, push_string, slice_chars, string_of, chars_start_with};

verus! {

/// The default loopback address of the resident daemon.
pub open spec fn default_listen() -> Seq<char> {
    "127.0.0.1:7999"@
}

/// Public MCP tool profile.
#[derive(Clone, Copy, Debug, PartialEq, Eq)]
pub enum McpToolset {
    Agent,
    Full,
}

/// Execution mode of a query. Managed `--rg` remains local in every mode.
#[derive(Clone, Copy, Debug, PartialEq, Eq)]
pub enum ClientMode {
    Auto,
    Direct,
    Server,
}

/// The parsed command line.
#[derive(Debug, PartialEq, Eq)]
pub struct Cli {
    pub command: CommandLine,
}

/// The two subcommands.
#[derive(Debug, PartialEq, Eq)]
pub enum CommandLine {
    /// Search indexed context or run managed ripgrep.
    Query(QueryArgs),
    /// Manage the resident MCP daemon.
    Server(ServerArgs),
}

/// `zg server` options and its optional lifecycle action.
#[derive(Debug, PartialEq, Eq)]
pub struct ServerArgs {
    pub stdio: bool,
    pub listen: Option<String>,
    pub home: Option<String>,
    pub mcp_toolset: Option<McpToolset>,
    pub action: Option<ServerAction>,
}

/// Lifecycle actions of `zg server`.
#[derive(Debug, PartialEq, Eq)]
pub enum ServerAction {
    On(ServerStartArgs),
    Off(ServerHomeArgs),
    Status(ServerHomeArgs),
    Run(ServerStartArgs),
}

/// Options of `zg server on` and `zg server run`.
#[derive(Debug, PartialEq, Eq)]
pub struct ServerStartArgs {
    pub listen: String,
    pub home: Option<String>,
    pub mcp_toolset: McpToolset,
}

/// Options of `zg server off` and `zg server status`.
#[derive(Debug, PartialEq, Eq)]
pub struct ServerHomeArgs {
    pub home: Option<String>,
}

/// `zg query` options and the ripgrep-compatible arguments after them.
#[derive(Debug, PartialEq, Eq)]
pub struct QueryArgs {
    pub mode: ClientMode,
    pub rg: bool,
    pub rg_args: Vec<String>,
}

/// Values that the command line falls back to when an option is absent
/// (`ZVEC_GREP_HOME`, `ZVEC_GREP_MCP_TOOLSET`, `ZVEC_GREP_MODE`).
#[derive(Debug, PartialEq, Eq)]
pub struct CliEnv {
    pub home: Option<String>,
    pub mcp_toolset: Option<String>,
    pub mode: Option<String>,
}

/// Why a command line was not turned into a [`Cli`].
#[derive(Debug, PartialEq, Eq)]
pub enum CliParseError {
    /// Help was requested.
    Help,
    /// The version was requested.
    Version,
    /// No subcommand was given.
    MissingSubcommand,
    /// An argument that is neither an option nor a subcommand here.
    UnknownArgument(String),
    /// An option without its value.
    MissingValue(String),
    /// An option whose value is not accepted.
    InvalidValue { option: String, value: String },
    /// An option given more than once.
    Repeated(String),
}

/// The mathematical form of a [`CliParseError`].
pub enum CliParseErrorModel {
    Help,
    Version,
    MissingSubcommand,
    UnknownArgument(Seq<char>),
    MissingValue(Seq<char>),
    InvalidValue(Seq<char>, Seq<char>),
    Repeated(Seq<char>),
}

impl View for CliParseError {
    type V = CliParseErrorModel;

    open spec fn view(&self) -> CliParseErrorModel {
        match self {
            CliParseError::Help => CliParseErrorModel::Help,
            CliParseError::Version => CliParseErrorModel::Version,
            CliParseError::MissingSubcommand => CliParseErrorModel::MissingSubcommand,
            CliParseError::UnknownArgument(a) => CliParseErrorModel::UnknownArgument(a@),
            CliParseError::MissingValue(a) => CliParseErrorModel::MissingValue(a@),
            CliParseError::InvalidValue { option, value } => CliParseErrorModel::InvalidValue(option@, value@),
            CliParseError::Repeated(a) => CliParseErrorModel::Repeated(a@),
        }
    }
}

/// The mathematical form of [`ServerStartArgs`].
pub struct ServerStartModel {
    pub listen: Seq<char>,
    pub home: Option<Seq<char>>,
    pub mcp_toolset: McpToolset,
}

/// The mathematical form of [`ServerAction`].
pub enum ServerActionModel {
    On(ServerStartModel),
    Off(Option<Seq<char>>),
    Status(Option<Seq<char>>),
    Run(ServerStartModel),
}

/// The mathematical form of [`Cli`].
pub enum CliModel {
    Query { mode: ClientMode, rg: bool, rg_args: Seq<Seq<char>> },
    Server {
        stdio: bool,
        listen: Option<Seq<char>>,
        home: Option<Seq<char>>,
        mcp_toolset: Option<McpToolset>,
        action: Option<ServerActionModel>,
    },
}

impl View for ServerStartArgs {
    type V = ServerStartModel;

    open spec fn view(&self) -> ServerStartModel {
        ServerStartModel { listen: self.listen@, home: self.home.deep_view(), mcp_toolset: self.mcp_toolset }
    }
}

impl View for ServerAction {
    type V = ServerActionModel;

    open spec fn view(&self) -> ServerActionModel {
        match self {
            ServerAction::On(a) => ServerActionModel::On(a@),
            ServerAction::Off(a) => ServerActionModel::Off(a.home.deep_view()),
            ServerAction::Status(a) => ServerActionModel::Status(a.home.deep_view()),
            ServerAction::Run(a) => ServerActionModel::Run(a@),
        }
    }
}

impl View for Cli {
    type V = CliModel;

    open spec fn view(&self) -> CliModel {
        match &self.command {
            CommandLine::Query(q) => CliModel::Query { mode: q.mode, rg: q.rg, rg_args: q.rg_args.deep_view() },
            CommandLine::Server(s) => CliModel::Server {
                stdio: s.stdio,
                listen: s.listen.deep_view(),
                home: s.home.deep_view(),
                mcp_toolset: s.mcp_toolset,
                action: match &s.action {
                    Some(a) => Some(a@),
                    None => None,
                },
            },
        }
    }
}

/// The mathematical form of [`CliEnv`].
pub struct CliEnvModel {
    pub home: Option<Seq<char>>,
    pub mcp_toolset: Option<Seq<char>>,
    pub mode: Option<Seq<char>>,
}

impl View for CliEnv {
    type V = CliEnvModel;

    open spec fn view(&self) -> CliEnvModel {
        CliEnvModel { home: self.home.deep_view(), mcp_toolset: self.mcp_toolset.deep_view(), mode: self.mode.deep_view() }
    }
}

/// The toolset named by `v`.
pub open spec fn toolset_named(v: Seq<char>) -> Option<McpToolset> {
    if v == "agent"@ {
        Some(McpToolset::Agent)
    } else if v == "full"@ {
        Some(McpToolset::Full)
    } else {
        None
    }
}

/// The client mode named by `v`.
pub open spec fn mode_named(v: Seq<char>) -> Option<ClientMode> {
    if v == "auto"@ {
        Some(ClientMode::Auto)
    } else if v == "direct"@ {
        Some(ClientMode::Direct)
    } else if v == "server"@ {
        Some(ClientMode::Server)
    } else {
        None
    }
}

/// A token that the parser reads as an option rather than as a value.
pub open spec fn looks_like_option(t: Seq<char>) -> bool {
    t.len() > 1 && t[0] == '-'
}

/// How token `args[i]` refers to the long option `name`: `None` when it does not,
/// `Some(None)` for `--name` (value in the next token), `Some(Some(v))` for `--name=v`.
pub open spec fn long_form(t: Seq<char>, name: Seq<char>) -> Option<Option<Seq<char>>> {
    if t == name {
        Some(None)
    } else if is_prefix(name.push('='), t) {
        Some(Some(t.skip(name.len() as int + 1)))
    } else {
        None
    }
}

/// The value of an option written as `form` at `args[i]`, and the index after it.
pub open spec fn option_value(args: Seq<Seq<char>>, i: int, name: Seq<char>, form: Option<Seq<char>>) -> Result<(Seq<char>, int), CliParseErrorModel> {
    match form {
        Some(v) => Ok((v, i + 1)),
        None => if i + 1 < args.len() && !looks_like_option(args[i + 1]) {
            Ok((args[i + 1], i + 2))
        } else {
            Err(CliParseErrorModel::MissingValue(name))
        },
    }
}

/// Whether `t` asks for help.
pub open spec fn is_help(t: Seq<char>) -> bool {
    t == "-h"@ || t == "--help"@
}

/// The state of a `--listen`/`--home`/`--mcp-toolset` reader.
pub struct StartState {
    pub listen: Option<Seq<char>>,
    pub home: Option<Seq<char>>,
    pub mcp_toolset: Option<McpToolset>,
}

/// The value of a once-only option written as `form` at `args[i]`.
pub open spec fn once_value(args: Seq<Seq<char>>, i: int, name: Seq<char>, form: Option<Seq<char>>, already: bool) -> Result<(Seq<char>, int), CliParseErrorModel> {
    if already {
        Err(CliParseErrorModel::Repeated(name))
    } else {
        option_value(args, i, name, form)
    }
}

/// Reads `args[i..]` as the options of `server on`/`server run`
/// (`with_listen`) or of `server off`/`server status`.
pub open spec fn start_options_from(args: Seq<Seq<char>>, i: int, with_listen: bool, st: StartState) -> Result<StartState, CliParseErrorModel>
    decreases args.len() + 1 - i,
{
    if i < 0 || i >= args.len() {
        Ok(st)
    } else {
        let t = args[i];
        if is_help(t) {
            Err(CliParseErrorModel::Help)
        } else if with_listen && long_form(t, "--listen"@) is Some {
            match once_value(args, i, "--listen"@, long_form(t, "--listen"@)->0, st.listen is Some) {
                Ok((v, j)) => start_options_from(args, j, with_listen, StartState { listen: Some(v), ..st }),
                Err(e) => Err(e),
            }
        } else if long_form(t, "--home"@) is Some {
            match once_value(args, i, "--home"@, long_form(t, "--home"@)->0, st.home is Some) {
                Ok((v, j)) => start_options_from(args, j, with_listen, StartState { home: Some(v), ..st }),
                Err(e) => Err(e),
            }
        } else if with_listen && long_form(t, "--mcp-toolset"@) is Some {
            match once_value(args, i, "--mcp-toolset"@, long_form(t, "--mcp-toolset"@)->0, st.mcp_toolset is Some) {
                Ok((v, j)) => match toolset_named(v) {
                    Some(m) => start_options_from(args, j, with_listen, StartState { mcp_toolset: Some(m), ..st }),
                    None => Err(CliParseErrorModel::InvalidValue("--mcp-toolset"@, v)),
                },
                Err(e) => Err(e),
            }
        } else {
            Err(CliParseErrorModel::UnknownArgument(t))
        }
    }
}

/// The empty reader state.
pub open spec fn start_state_empty() -> StartState {
    StartState { listen: None, home: None, mcp_toolset: None }
}

/// A toolset from the command line, else from the environment.
pub open spec fn toolset_with_env(given: Option<McpToolset>, env: CliEnvModel) -> Result<Option<McpToolset>, CliParseErrorModel> {
    match given {
        Some(m) => Ok(Some(m)),
        None => match env.mcp_toolset {
            Some(v) if v.len() > 0 => match toolset_named(v) {
                Some(m) => Ok(Some(m)),
                None => Err(CliParseErrorModel::InvalidValue("--mcp-toolset"@, v)),
            },
            _ => Ok(None),
        },
    }
}

/// A home from the command line, else from the environment.
pub open spec fn home_with_env(given: Option<Seq<char>>, env: CliEnvModel) -> Option<Seq<char>> {
    match given {
        Some(h) => Some(h),
        None => match env.home {
            Some(h) if h.len() > 0 => Some(h),
            _ => None,
        },
    }
}

/// `server on`/`server run` options with their defaults.
pub open spec fn start_args_spec(args: Seq<Seq<char>>, i: int, env: CliEnvModel) -> Result<ServerStartModel, CliParseErrorModel> {
    match start_options_from(args, i, true, start_state_empty()) {
        Err(e) => Err(e),
        Ok(st) => match toolset_with_env(st.mcp_toolset, env) {
            Err(e) => Err(e),
            Ok(m) => Ok(ServerStartModel {
                listen: match st.listen {
                    Some(l) => l,
                    None => default_listen(),
                },
                home: home_with_env(st.home, env),
                mcp_toolset: match m {
                    Some(m) => m,
                    None => McpToolset::Agent,
                },
            }),
        },
    }
}

/// `server off`/`server status` options.
pub open spec fn home_args_spec(args: Seq<Seq<char>>, i: int, env: CliEnvModel) -> Result<Option<Seq<char>>, CliParseErrorModel> {
    match start_options_from(args, i, false, start_state_empty()) {
        Err(e) => Err(e),
        Ok(st) => Ok(home_with_env(st.home, env)),
    }
}

/// The state of the `zg server` reader.
pub struct ServerState {
    pub stdio: bool,
    pub opts: StartState,
}

/// Reads `args[i..]` as `zg server` options up to an optional action.
pub open spec fn server_from(args: Seq<Seq<char>>, i: int, st: ServerState, env: CliEnvModel) -> Result<CliModel, CliParseErrorModel>
    decreases args.len() + 1 - i,
{
    if i < 0 || i >= args.len() {
        server_finish(st, None, env)
    } else {
        let t = args[i];
        if is_help(t) || t == "help"@ {
            Err(CliParseErrorModel::Help)
        } else if t == "--stdio"@ {
            if st.stdio {
                Err(CliParseErrorModel::Repeated("--stdio"@))
            } else {
                server_from(args, i + 1, ServerState { stdio: true, ..st }, env)
            }
        } else if long_form(t, "--listen"@) is Some || long_form(t, "--home"@) is Some || long_form(t, "--mcp-toolset"@) is Some {
            match start_options_step(args, i, st.opts) {
                Err(e) => Err(e),
                Ok((o, j)) => server_from(args, j, ServerState { opts: o, ..st }, env),
            }
        } else if t == "on"@ {
            match start_args_spec(args, i + 1, env) {
                Ok(a) => server_finish(st, Some(ServerActionModel::On(a)), env),
                Err(e) => Err(e),
            }
        } else if t == "run"@ {
            match start_args_spec(args, i + 1, env) {
                Ok(a) => server_finish(st, Some(ServerActionModel::Run(a)), env),
                Err(e) => Err(e),
            }
        } else if t == "off"@ {
            match home_args_spec(args, i + 1, env) {
                Ok(h) => server_finish(st, Some(ServerActionModel::Off(h)), env),
                Err(e) => Err(e),
            }
        } else if t == "status"@ {
            match home_args_spec(args, i + 1, env) {
                Ok(h) => server_finish(st, Some(ServerActionModel::Status(h)), env),
                Err(e) => Err(e),
            }
        } else {
            Err(CliParseErrorModel::UnknownArgument(t))
        }
    }
}

/// One `--listen`/`--home`/`--mcp-toolset` option at `args[i]`, and the index after it.
pub open spec fn start_options_step(args: Seq<Seq<char>>, i: int, st: StartState) -> Result<(StartState, int), CliParseErrorModel> {
    let t = args[i];
    if long_form(t, "--listen"@) is Some {
        match once_value(args, i, "--listen"@, long_form(t, "--listen"@)->0, st.listen is Some) {
            Ok((v, j)) => Ok((StartState { listen: Some(v), ..st }, j)),
            Err(e) => Err(e),
        }
    } else if long_form(t, "--home"@) is Some {
        match once_value(args, i, "--home"@, long_form(t, "--home"@)->0, st.home is Some) {
            Ok((v, j)) => Ok((StartState { home: Some(v), ..st }, j)),
            Err(e) => Err(e),
        }
    } else {
        match once_value(args, i, "--mcp-toolset"@, long_form(t, "--mcp-toolset"@)->0, st.mcp_toolset is Some) {
            Ok((v, j)) => match toolset_named(v) {
                Some(m) => Ok((StartState { mcp_toolset: Some(m), ..st }, j)),
                None => Err(CliParseErrorModel::InvalidValue("--mcp-toolset"@, v)),
            },
            Err(e) => Err(e),
        }
    }
}

/// The `zg server` command once its action (if any) is known.
pub open spec fn server_finish(st: ServerState, action: Option<ServerActionModel>, env: CliEnvModel) -> Result<CliModel, CliParseErrorModel> {
    match toolset_with_env(st.opts.mcp_toolset, env) {
        Err(e) => Err(e),
        Ok(m) => Ok(CliModel::Server {
            stdio: st.stdio,
            listen: st.opts.listen,
            home: home_with_env(st.opts.home, env),
            mcp_toolset: m,
            action: action,
        }),
    }
}

/// The state of the `zg query` reader.
pub struct QueryState {
    pub mode: Option<ClientMode>,
    pub rg: bool,
}

/// Reads `args[i..]` as `zg query` options; the first argument that is not one of them,
/// or every argument after `--`, starts the ripgrep arguments.
pub open spec fn query_from(args: Seq<Seq<char>>, i: int, st: QueryState, env: CliEnvModel) -> Result<CliModel, CliParseErrorModel>
    decreases args.len() + 1 - i,
{
    if i < 0 || i >= args.len() {
        query_finish(st, seq![], env)
    } else {
        let t = args[i];
        if is_help(t) {
            Err(CliParseErrorModel::Help)
        } else if t == "--"@ {
            query_finish(st, args.skip(i + 1), env)
        } else if t == "--rg"@ {
            if st.rg {
                Err(CliParseErrorModel::Repeated("--rg"@))
            } else {
                query_from(args, i + 1, QueryState { rg: true, ..st }, env)
            }
        } else if long_form(t, "--mode"@) is Some {
            if st.mode is Some {
                Err(CliParseErrorModel::Repeated("--mode"@))
            } else {
                match option_value(args, i, "--mode"@, long_form(t, "--mode"@)->0) {
                    Ok((v, j)) => match mode_named(v) {
                        Some(m) => query_from(args, j, QueryState { mode: Some(m), ..st }, env),
                        None => Err(CliParseErrorModel::InvalidValue("--mode"@, v)),
                    },
                    Err(e) => Err(e),
                }
            }
        } else {
            query_finish(st, args.skip(i), env)
        }
    }
}

/// The `zg query` command once its ripgrep arguments are known.
pub open spec fn query_finish(st: QueryState, rg_args: Seq<Seq<char>>, env: CliEnvModel) -> Result<CliModel, CliParseErrorModel> {
    match st.mode {
        Some(m) => Ok(CliModel::Query { mode: m, rg: st.rg, rg_args: rg_args }),
        None => match env.mode {
            Some(v) if v.len() > 0 => match mode_named(v) {
                Some(m) => Ok(CliModel::Query { mode: m, rg: st.rg, rg_args: rg_args }),
                None => Err(CliParseErrorModel::InvalidValue("--mode"@, v)),
            },
            _ => Ok(CliModel::Query { mode: ClientMode::Auto, rg: st.rg, rg_args: rg_args }),
        },
    }
}

/// The whole command line; `args[0]` is the program name.
pub open spec fn cli_spec(args: Seq<Seq<char>>, env: CliEnvModel) -> Result<CliModel, CliParseErrorModel> {
    if args.len() < 2 {
        Err(CliParseErrorModel::MissingSubcommand)
    } else {
        let t = args[1];
        if is_help(t) || t == "help"@ {
            Err(CliParseErrorModel::Help)
        } else if t == "-V"@ || t == "--version"@ {
            Err(CliParseErrorModel::Version)
        } else if t == "query"@ {
            query_from(args, 2, QueryState { mode: None, rg: false }, env)
        } else if t == "server"@ {
            server_from(args, 2, ServerState { stdio: false, opts: start_state_empty() }, env)
        } else {
            Err(CliParseErrorModel::UnknownArgument(t))
        }
    }
}

/// The empty environment.
pub open spec fn env_empty() -> CliEnvModel {
    CliEnvModel { home: None, mcp_toolset: None, mode: None }
}

// ---------------------------------------------------------------------------
// Executable reader.

fn mk_err_arg(a: &Vec<char>) -> (e: CliParseError)
    ensures
        e@ == CliParseErrorModel::UnknownArgument(a@),
{
    CliParseError::UnknownArgument(string_of(a))
}

fn lit_string(s: &str) -> (r: String)
    ensures
        r@ == s@,
{
    crate::text::owned(s)
}

fn chars_is_help(t: &Vec<char>) -> (r: bool)
    ensures
        r == is_help(t@),
{
    chars_eq(t.as_slice(), "-h") || chars_eq(t.as_slice(), "--help")
}

/// How `t` refers to `--name`.
fn long_form_of(t: &Vec<char>, name: &str) -> (r: Option<Option<Vec<char>>>)
    ensures
        match r {
            None => long_form(t@, name@) is None,
            Some(None) => long_form(t@, name@) == Some(None::<Seq<char>>),
            Some(Some(v)) => long_form(t@, name@) == Some(Some(v@)),
        },
{
    if chars_eq(t.as_slice(), name) {
        return Some(None);
    }
    let n = crate::text::chars_of(name);
    let mut with_eq = n.clone();
    with_eq.push('=');
    assert(with_eq@ =~= name@.push('='));
    let prefixed = {
        let s = string_of(&with_eq);
        chars_start_with(t.as_slice(), s.as_str())
    };
    if prefixed {
        let v = slice_chars(t.as_slice(), with_eq.len(), t.len());
        assert(v@ =~= t@.skip(name@.len() as int + 1));
        Some(Some(v))
    } else {
        None
    }
}

fn option_value_at(args: &[String], i: usize, name: &str, form: Option<Vec<char>>) -> (r: Result<(String, usize), CliParseError>)
    requires
        i < args@.len(),
    ensures
        match r {
            Ok((v, j)) => option_value(args.deep_view(), i as int, name@, match form { Some(f) => Some(f@), None => None })
                == Ok::<(Seq<char>, int), CliParseErrorModel>((v@, j as int)),
            Err(e) => option_value(args.deep_view(), i as int, name@, match form { Some(f) => Some(f@), None => None })
                == Err::<(Seq<char>, int), CliParseErrorModel>(e@),
        },
{
    let n = args.len();
    match form {
        Some(v) => Ok((string_of(&v), i + 1)),
        None => {
            if i + 1 < n {
                let next = arg_chars(args, i + 1);
                if !(next.len() > 1 && next[0] == '-') {
                    return Ok((arg_clone(args, i + 1), i + 2));
                }
            }
            Err(CliParseError::MissingValue(lit_string(name)))
        },
    }
}

fn toolset_from(v: &String) -> (r: Option<McpToolset>)
    ensures
        r == toolset_named(v@),
{
    if crate::text::str_eq(v.as_str(), "agent") {
        Some(McpToolset::Agent)
    } else if crate::text::str_eq(v.as_str(), "full") {
        Some(McpToolset::Full)
    } else {
        None
    }
}

fn mode_from(v: &String) -> (r: Option<ClientMode>)
    ensures
        r == mode_named(v@),
{
    if crate::text::str_eq(v.as_str(), "auto") {
        Some(ClientMode::Auto)
    } else if crate::text::str_eq(v.as_str(), "direct") {
        Some(ClientMode::Direct)
    } else if crate::text::str_eq(v.as_str(), "server") {
        Some(ClientMode::Server)
    } else {
        None
    }
}

fn clone_opt(o: &Option<String>) -> (r: Option<String>)
    ensures
        r.deep_view() == o.deep_view(),
{
    match o {
        Some(s) => Some(s.clone()),
        None => None,
    }
}

fn toolset_or_env(given: Option<McpToolset>, env: &CliEnv) -> (r: Result<Option<McpToolset>, CliParseError>)
    ensures
        match r {
            Ok(m) => toolset_with_env(given, env@) == Ok::<Option<McpToolset>, CliParseErrorModel>(m),
            Err(e) => toolset_with_env(given, env@) == Err::<Option<McpToolset>, CliParseErrorModel>(e@),
        },
{
    match given {
        Some(m) => Ok(Some(m)),
        None => match &env.mcp_toolset {
            Some(v) => {
                if v.as_str().is_empty() {
                    Ok(None)
                } else {
                    match toolset_from(v) {
                        Some(m) => Ok(Some(m)),
                        None => Err(CliParseError::InvalidValue { option: lit_string("--mcp-toolset"), value: v.clone() }),
                    }
                }
            },
            None => Ok(None),
        },
    }
}

fn home_or_env(given: Option<String>, env: &CliEnv) -> (r: Option<String>)
    ensures
        r.deep_view() == home_with_env(given.deep_view(), env@),
{
    match given {
        Some(h) => Some(h),
        None => match &env.home {
            Some(h) => if h.as_str().is_empty() { None } else { Some(h.clone()) },
            None => None,
        },
    }
}

/// Exec form of [`StartState`].
struct StartOpts {
    listen: Option<String>,
    home: Option<String>,
    mcp_toolset: Option<McpToolset>,
}

impl View for StartOpts {
    type V = StartState;

    closed spec fn view(&self) -> StartState {
        StartState { listen: self.listen.deep_view(), home: self.home.deep_view(), mcp_toolset: self.mcp_toolset }
    }
}

fn once_value_at(args: &[String], i: usize, name: &str, form: Option<Vec<char>>, already: bool) -> (r: Result<(String, usize), CliParseError>)
    requires
        i < args@.len(),
    ensures
        match r {
            Ok((v, j)) => once_value(args.deep_view(), i as int, name@, match form { Some(f) => Some(f@), None => None }, already)
                == Ok::<(Seq<char>, int), CliParseErrorModel>((v@, j as int)) && i < j <= args@.len(),
            Err(e) => once_value(args.deep_view(), i as int, name@, match form { Some(f) => Some(f@), None => None }, already)
                == Err::<(Seq<char>, int), CliParseErrorModel>(e@),
        },
{
    if already {
        return Err(CliParseError::Repeated(lit_string(name)));
    }
    option_value_at(args, i, name, form)
}

fn start_option_step(args: &[String], i: usize, t: &Vec<char>, st: &mut StartOpts) -> (r: Result<usize, CliParseError>)
    requires
        i < args@.len(),
        t@ == args.deep_view()[i as int],
        long_form(t@, "--listen"@) is Some || long_form(t@, "--home"@) is Some || long_form(t@, "--mcp-toolset"@) is Some,
    ensures
        match r {
            Ok(j) => start_options_step(args.deep_view(), i as int, old(st)@) == Ok::<(StartState, int), CliParseErrorModel>((final(st)@, j as int))
                && i < j <= args@.len(),
            Err(e) => start_options_step(args.deep_view(), i as int, old(st)@) == Err::<(StartState, int), CliParseErrorModel>(e@),
        },
{
    if let Some(form) = long_form_of(t, "--listen") {
        let (v, j) = once_value_at(args, i, "--listen", form, st.listen.is_some())?;
        st.listen = Some(v);
        return Ok(j);
    }
    if let Some(form) = long_form_of(t, "--home") {
        let (v, j) = once_value_at(args, i, "--home", form, st.home.is_some())?;
        st.home = Some(v);
        return Ok(j);
    }
    let form = match long_form_of(t, "--mcp-toolset") {
        Some(f) => f,
        None => None,
    };
    let (v, j) = once_value_at(args, i, "--mcp-toolset", form, st.mcp_toolset.is_some())?;
    match toolset_from(&v) {
        Some(m) => {
            st.mcp_toolset = Some(m);
            Ok(j)
        },
        None => Err(CliParseError::InvalidValue { option: lit_string("--mcp-toolset"), value: v }),
    }
}

fn start_options(args: &[String], i0: usize, with_listen: bool) -> (r: Result<StartOpts, CliParseError>)
    requires
        i0 <= args@.len(),
    ensures
        match r {
            Ok(st) => start_options_from(args.deep_view(), i0 as int, with_listen, start_state_empty()) == Ok::<StartState, CliParseErrorModel>(st@),
            Err(e) => start_options_from(args.deep_view(), i0 as int, with_listen, start_state_empty()) == Err::<StartState, CliParseErrorModel>(e@),
        },
{
    let ghost model = args.deep_view();
    let mut st = StartOpts { listen: None, home: None, mcp_toolset: None };
    let mut i = i0;
    while i < args.len()
        invariant
            model == args.deep_view(),
            model.len() == args@.len(),
            i0 <= i <= args@.len(),
            start_options_from(model, i as int, with_listen, st@) == start_options_from(model, i0 as int, with_listen, start_state_empty()),
        decreases args@.len() - i,
    {
        let t = arg_chars(args, i);
        if chars_is_help(&t) {
            return Err(CliParseError::Help);
        }
        if with_listen {
            if let Some(form) = long_form_of(&t, "--listen") {
                let (v, j) = once_value_at(args, i, "--listen", form, st.listen.is_some())?;
                st.listen = Some(v);
                i = j;
                continue;
            }
        }
        if let Some(form) = long_form_of(&t, "--home") {
            let (v, j) = once_value_at(args, i, "--home", form, st.home.is_some())?;
            st.home = Some(v);
            i = j;
            continue;
        }
        if with_listen {
            if let Some(form) = long_form_of(&t, "--mcp-toolset") {
                let (v, j) = once_value_at(args, i, "--mcp-toolset", form, st.mcp_toolset.is_some())?;
                match toolset_from(&v) {
                    Some(m) => {
                        st.mcp_toolset = Some(m);
                        i = j;
                        continue;
                    },
                    None => {
                        return Err(CliParseError::InvalidValue { option: lit_string("--mcp-toolset"), value: v });
                    },
                }
            }
        }
        return Err(mk_err_arg(&t));
    }
    Ok(st)
}

fn start_args(args: &[String], i: usize, env: &CliEnv) -> (r: Result<ServerStartArgs, CliParseError>)
    requires
        i <= args@.len(),
    ensures
        match r {
            Ok(a) => start_args_spec(args.deep_view(), i as int, env@) == Ok::<ServerStartModel, CliParseErrorModel>(a@),
            Err(e) => start_args_spec(args.deep_view(), i as int, env@) == Err::<ServerStartModel, CliParseErrorModel>(e@),
        },
{
    let st = start_options(args, i, true)?;
    let m = toolset_or_env(st.mcp_toolset, env)?;
    let listen = match st.listen {
        Some(l) => l,
        None => lit_string("127.0.0.1:7999"),
    };
    Ok(ServerStartArgs {
        listen,
        home: home_or_env(st.home, env),
        mcp_toolset: match m {
            Some(m) => m,
            None => McpToolset::Agent,
        },
    })
}

fn home_args(args: &[String], i: usize, env: &CliEnv) -> (r: Result<ServerHomeArgs, CliParseError>)
    requires
        i <= args@.len(),
    ensures
        match r {
            Ok(a) => home_args_spec(args.deep_view(), i as int, env@) == Ok::<Option<Seq<char>>, CliParseErrorModel>(a.home.deep_view()),
            Err(e) => home_args_spec(args.deep_view(), i as int, env@) == Err::<Option<Seq<char>>, CliParseErrorModel>(e@),
        },
{
    let st = start_options(args, i, false)?;
    Ok(ServerHomeArgs { home: home_or_env(st.home, env) })
}

fn server_finish_exec(stdio: bool, opts: StartOpts, action: Option<ServerAction>, env: &CliEnv) -> (r: Result<Cli, CliParseError>)
    ensures
        match r {
            Ok(c) => server_finish(ServerState { stdio: stdio, opts: opts@ }, match action { Some(a) => Some(a@), None => None }, env@)
                == Ok::<CliModel, CliParseErrorModel>(c@),
            Err(e) => server_finish(ServerState { stdio: stdio, opts: opts@ }, match action { Some(a) => Some(a@), None => None }, env@)
                == Err::<CliModel, CliParseErrorModel>(e@),
        },
{
    let m = toolset_or_env(opts.mcp_toolset, env)?;
    Ok(Cli {
        command: CommandLine::Server(ServerArgs {
            stdio,
            listen: opts.listen,
            home: home_or_env(opts.home, env),
            mcp_toolset: m,
            action,
        }),
    })
}

fn parse_server(args: &[String], i0: usize, env: &CliEnv) -> (r: Result<Cli, CliParseError>)
    requires
        i0 <= args@.len(),
    ensures
        match r {
            Ok(c) => server_from(args.deep_view(), i0 as int, ServerState { stdio: false, opts: start_state_empty() }, env@)
                == Ok::<CliModel, CliParseErrorModel>(c@),
            Err(e) => server_from(args.deep_view(), i0 as int, ServerState { stdio: false, opts: start_state_empty() }, env@)
                == Err::<CliModel, CliParseErrorModel>(e@),
        },
{
    let ghost model = args.deep_view();
    let mut stdio = false;
    let mut opts = StartOpts { listen: None, home: None, mcp_toolset: None };
    let mut i = i0;
    while i < args.len()
        invariant
            model == args.deep_view(),
            model.len() == args@.len(),
            i0 <= i <= args@.len(),
            server_from(model, i as int, ServerState { stdio: stdio, opts: opts@ }, env@)
                == server_from(model, i0 as int, ServerState { stdio: false, opts: start_state_empty() }, env@),
        decreases args@.len() - i,
    {
        let t = arg_chars(args, i);
        if chars_is_help(&t) || chars_eq(t.as_slice(), "help") {
            return Err(CliParseError::Help);
        }
        if chars_eq(t.as_slice(), "--stdio") {
            if stdio {
                return Err(CliParseError::Repeated(lit_string("--stdio")));
            }
            stdio = true;
            i += 1;
            continue;
        }
        if long_form_of(&t, "--listen").is_some() || long_form_of(&t, "--home").is_some()
            || long_form_of(&t, "--mcp-toolset").is_some() {
            let j = start_option_step(args, i, &t, &mut opts)?;
            i = j;
            continue;
        }
        if chars_eq(t.as_slice(), "on") {
            let a = start_args(args, i + 1, env)?;
            return server_finish_exec(stdio, opts, Some(ServerAction::On(a)), env);
        }
        if chars_eq(t.as_slice(), "run") {
            let a = start_args(args, i + 1, env)?;
            return server_finish_exec(stdio, opts, Some(ServerAction::Run(a)), env);
        }
        if chars_eq(t.as_slice(), "off") {
            let a = home_args(args, i + 1, env)?;
            return server_finish_exec(stdio, opts, Some(ServerAction::Off(a)), env);
        }
        if chars_eq(t.as_slice(), "status") {
            let a = home_args(args, i + 1, env)?;
            return server_finish_exec(stdio, opts, Some(ServerAction::Status(a)), env);
        }
        return Err(mk_err_arg(&t));
    }
    server_finish_exec(stdio, opts, None, env)
}

fn strings_from(args: &[String], i: usize) -> (out: Vec<String>)
    requires
        i <= args@.len(),
    ensures
        out.deep_view() == args.deep_view().skip(i as int),
{
    let mut out: Vec<String> = Vec::new();
    let mut k = i;
    while k < args.len()
        invariant
            i <= k <= args@.len(),
            out.deep_view() == args.deep_view().subrange(i as int, k as int),
        decreases args@.len() - k,
    {
        push_string(&mut out, arg_clone(args, k));
        assert(args.deep_view().subrange(i as int, k + 1) =~= args.deep_view().subrange(i as int, k as int).push(args.deep_view()[k as int]));
        k += 1;
    }
    assert(args.deep_view().subrange(i as int, args@.len() as int) =~= args.deep_view().skip(i as int));
    out
}

fn query_finish_exec(mode: Option<ClientMode>, rg: bool, rg_args: Vec<String>, env: &CliEnv) -> (r: Result<Cli, CliParseError>)
    ensures
        match r {
            Ok(c) => query_finish(QueryState { mode: mode, rg: rg }, rg_args.deep_view(), env@) == Ok::<CliModel, CliParseErrorModel>(c@),
            Err(e) => query_finish(QueryState { mode: mode, rg: rg }, rg_args.deep_view(), env@) == Err::<CliModel, CliParseErrorModel>(e@),
        },
{
    let m = match mode {
        Some(m) => m,
        None => match &env.mode {
            Some(v) => {
                if v.as_str().is_empty() {
                    ClientMode::Auto
                } else {
                    match mode_from(v) {
                        Some(m) => m,
                        None => {
                            return Err(CliParseError::InvalidValue { option: lit_string("--mode"), value: v.clone() });
                        },
                    }
                }
            },
            None => ClientMode::Auto,
        },
    };
    Ok(Cli { command: CommandLine::Query(QueryArgs { mode: m, rg, rg_args }) })
}

fn parse_query(args: &[String], i0: usize, env: &CliEnv) -> (r: Result<Cli, CliParseError>)
    requires
        i0 <= args@.len(),
    ensures
        match r {
            Ok(c) => query_from(args.deep_view(), i0 as int, QueryState { mode: None, rg: false }, env@) == Ok::<CliModel, CliParseErrorModel>(c@),
            Err(e) => query_from(args.deep_view(), i0 as int, QueryState { mode: None, rg: false }, env@) == Err::<CliModel, CliParseErrorModel>(e@),
        },
{
    let ghost model = args.deep_view();
    let mut mode: Option<ClientMode> = None;
    let mut rg = false;
    let mut i = i0;
    while i < args.len()
        invariant
            model == args.deep_view(),
            model.len() == args@.len(),
            i0 <= i <= args@.len(),
            query_from(model, i as int, QueryState { mode: mode, rg: rg }, env@)
                == query_from(model, i0 as int, QueryState { mode: None, rg: false }, env@),
        decreases args@.len() - i,
    {
        let t = arg_chars(args, i);
        if chars_is_help(&t) {
            return Err(CliParseError::Help);
        }
        if chars_eq(t.as_slice(), "--") {
            return query_finish_exec(mode, rg, strings_from(args, i + 1), env);
        }
        if chars_eq(t.as_slice(), "--rg") {
            if rg {
                return Err(CliParseError::Repeated(lit_string("--rg")));
            }
            rg = true;
            i += 1;
            continue;
        }
        if let Some(form) = long_form_of(&t, "--mode") {
            let (v, j) = once_value_at(args, i, "--mode", form, mode.is_some())?;
            match mode_from(&v) {
                Some(m) => {
                    mode = Some(m);
                    i = j;
                    continue;
                },
                None => {
                    return Err(CliParseError::InvalidValue { option: lit_string("--mode"), value: v });
                },
            }
        }
        return query_finish_exec(mode, rg, strings_from(args, i), env);
    }
    let empty: Vec<String> = Vec::new();
    assert(empty.deep_view() =~= Seq::<Seq<char>>::empty());
    query_finish_exec(mode, rg, empty, env)
}

impl CliEnv {
    /// No fallback values.
    pub fn empty() -> (e: CliEnv)
        ensures
            e@ == env_empty(),
    {
        CliEnv { home: None, mcp_toolset: None, mode: None }
    }
}

impl Cli {
    /// Parses a command line (`args[0]` is the program name), falling back to `env`
    /// for options that are absent.
    pub fn try_parse_from_env(args: &[String], env: &CliEnv) -> (r: Result<Cli, CliParseError>)
        ensures
            match r {
                Ok(c) => cli_spec(args.deep_view(), env@) == Ok::<CliModel, CliParseErrorModel>(c@),
                Err(e) => cli_spec(args.deep_view(), env@) == Err::<CliModel, CliParseErrorModel>(e@),
            },
    {
        if args.len() < 2 {
            return Err(CliParseError::MissingSubcommand);
        }
        let t = arg_chars(args, 1);
        if chars_is_help(&t) || chars_eq(t.as_slice(), "help") {
            return Err(CliParseError::Help);
        }
        if chars_eq(t.as_slice(), "-V") || chars_eq(t.as_slice(), "--version") {
            return Err(CliParseError::Version);
        }
        if chars_eq(t.as_slice(), "query") {
            return parse_query(args, 2, env);
        }
        if chars_eq(t.as_slice(), "server") {
            return parse_server(args, 2, env);
        }
        Err(mk_err_arg(&t))
    }

    /// Parses a command line (`args[0]` is the program name) with no environment fallbacks.
    pub fn try_parse_from(args: &[String]) -> (r: Result<Cli, CliParseError>)
        ensures
            match r {
                Ok(c) => cli_spec(args.deep_view(), env_empty()) == Ok::<CliModel, CliParseErrorModel>(c@),
                Err(e) => cli_spec(args.deep_view(), env_empty()) == Err::<CliModel, CliParseErrorModel>(e@),
            },
    {
        let env = CliEnv::empty();
        Cli::try_parse_from_env(args, &env)
    }
}

} // verus!
