//! Decisions of the daemon's resident workspace watchers: which watcher
//! sessions exist, what a request to watch, stop or shut down does to them,
//! and how a watcher loop reacts to what its watcher and the index report.
//!
//! The sessions themselves (watchers, tasks, cancellation) live with the
//! caller; this module keeps the registry that says which roots have one.
use vstd::prelude::*;

use crate::common::{DiscoveryOptions, RootSpec};
use crate::domain::{Command, IndexRequest, WorkspaceChange};
use crate::errors::{engine_error_message, EngineError, EngineErrorModel, ErrorCode};
use crate::indexing::{copy_discovery, root_view, roots_view, RootModel};
use crate::path::{paths_equal, same_path};
use crate::text::{append_str, string_of};

verus! {

/// Failure while creating, driving, or stopping a resident workspace watcher.
#[derive(Debug, PartialEq, Eq)]
pub enum ResidentWorkspaceError {
    RelativeRoot(String),
    ShuttingDown,
    StartWatcher { root: String, source: EngineError },
    Watch { root: String, source: EngineError },
    CloseWatcher { root: String, source: EngineError },
    Index { root: String, message: String },
    AuthorizationRequired { root: String, reason: String },
    UnexpectedReply { root: String },
    Join { root: String, message: String },
}

/// The mathematical form of [`ResidentWorkspaceError`].
pub enum ResidentErrorModel {
    RelativeRoot(Seq<char>),
    ShuttingDown,
    StartWatcher { root: Seq<char>, source: EngineErrorModel },
    Watch { root: Seq<char>, source: EngineErrorModel },
    CloseWatcher { root: Seq<char>, source: EngineErrorModel },
    Index { root: Seq<char>, message: Seq<char> },
    AuthorizationRequired { root: Seq<char>, reason: Seq<char> },
    UnexpectedReply { root: Seq<char> },
    Join { root: Seq<char>, message: Seq<char> },
}

impl View for ResidentWorkspaceError {
    type V = ResidentErrorModel;

    open spec fn view(&self) -> ResidentErrorModel {
        match self {
            ResidentWorkspaceError::RelativeRoot(p) => ResidentErrorModel::RelativeRoot(p@),
            ResidentWorkspaceError::ShuttingDown => ResidentErrorModel::ShuttingDown,
            ResidentWorkspaceError::StartWatcher { root, source } => ResidentErrorModel::StartWatcher { root: root@, source: source@ },
            ResidentWorkspaceError::Watch { root, source } => ResidentErrorModel::Watch { root: root@, source: source@ },
            ResidentWorkspaceError::CloseWatcher { root, source } => ResidentErrorModel::CloseWatcher { root: root@, source: source@ },
            ResidentWorkspaceError::Index { root, message } => ResidentErrorModel::Index { root: root@, message: message@ },
            ResidentWorkspaceError::AuthorizationRequired { root, reason } => ResidentErrorModel::AuthorizationRequired { root: root@, reason: reason@ },
            ResidentWorkspaceError::UnexpectedReply { root } => ResidentErrorModel::UnexpectedReply { root: root@ },
            ResidentWorkspaceError::Join { root, message } => ResidentErrorModel::Join { root: root@, message: message@ },
        }
    }
}

/// The human-readable message of a resident-watcher error.
pub open spec fn resident_error_message(e: ResidentErrorModel) -> Seq<char> {
    match e {
        ResidentErrorModel::RelativeRoot(p) => "resident workspace root must be absolute: "@ + p,
        ResidentErrorModel::ShuttingDown => "resident workspace manager is shutting down"@,
        ResidentErrorModel::StartWatcher { root, source } => "failed to create watcher for "@ + root + ": "@ + engine_error_message(source),
        ResidentErrorModel::Watch { root, source } => "watcher for "@ + root + " failed: "@ + engine_error_message(source),
        ResidentErrorModel::CloseWatcher { root, source } => "failed to close watcher for "@ + root + ": "@ + engine_error_message(source),
        ResidentErrorModel::Index { root, message } => "incremental index for "@ + root + " failed: "@ + message,
        ResidentErrorModel::AuthorizationRequired { root, reason } => "incremental index for "@ + root + " requested authorization: "@ + reason,
        ResidentErrorModel::UnexpectedReply { root } => "incremental index for "@ + root + " returned a non-index reply"@,
        ResidentErrorModel::Join { root, message } => "resident task for "@ + root + " failed to join: "@ + message,
    }
}

impl ResidentWorkspaceError {
    /// The human-readable message of this error.
    pub fn message(&self) -> (s: String)
        ensures
            s@ == resident_error_message(self@),
    {
        let mut out: Vec<char> = Vec::new();
        match self {
            ResidentWorkspaceError::RelativeRoot(p) => {
                append_str(&mut out, "resident workspace root must be absolute: ");
                append_str(&mut out, p.as_str());
            },
            ResidentWorkspaceError::ShuttingDown => {
                append_str(&mut out, "resident workspace manager is shutting down");
            },
            ResidentWorkspaceError::StartWatcher { root, source } => {
                append_str(&mut out, "failed to create watcher for ");
                append_str(&mut out, root.as_str());
                append_str(&mut out, ": ");
                append_str(&mut out, source.message().as_str());
            },
            ResidentWorkspaceError::Watch { root, source } => {
                append_str(&mut out, "watcher for ");
                append_str(&mut out, root.as_str());
                append_str(&mut out, " failed: ");
                append_str(&mut out, source.message().as_str());
            },
            ResidentWorkspaceError::CloseWatcher { root, source } => {
                append_str(&mut out, "failed to close watcher for ");
                append_str(&mut out, root.as_str());
                append_str(&mut out, ": ");
                append_str(&mut out, source.message().as_str());
            },
            ResidentWorkspaceError::Index { root, message } => {
                append_str(&mut out, "incremental index for ");
                append_str(&mut out, root.as_str());
                append_str(&mut out, " failed: ");
                append_str(&mut out, message.as_str());
            },
            ResidentWorkspaceError::AuthorizationRequired { root, reason } => {
                append_str(&mut out, "incremental index for ");
                append_str(&mut out, root.as_str());
                append_str(&mut out, " requested authorization: ");
                append_str(&mut out, reason.as_str());
            },
            ResidentWorkspaceError::UnexpectedReply { root } => {
                append_str(&mut out, "incremental index for ");
                append_str(&mut out, root.as_str());
                append_str(&mut out, " returned a non-index reply");
            },
            ResidentWorkspaceError::Join { root, message } => {
                append_str(&mut out, "resident task for ");
                append_str(&mut out, root.as_str());
                append_str(&mut out, " failed to join: ");
                append_str(&mut out, message.as_str());
            },
        }
        string_of(&out)
    }
}

/// Whether a path is absolute (Unix: it starts at the root).
pub open spec fn is_absolute_path(p: Seq<char>) -> bool {
    p.len() > 0 && p[0] == '/'
}

/// Whether two roots are equal: the same path (component by component) and
/// the same recursion and discovery options.
pub open spec fn same_root(a: RootModel, b: RootModel) -> bool {
    same_path(a.path, b.path) && a.recursive == b.recursive && a.discovery == b.discovery
}

/// Whether entry `i` of `roots` is the session for `path`.
pub open spec fn session_at(roots: Seq<RootModel>, path: Seq<char>, i: int) -> bool {
    0 <= i < roots.len() && same_path(roots[i].path, path)
}

/// Whether `roots` holds a session for `path`.
pub open spec fn has_session(roots: Seq<RootModel>, path: Seq<char>) -> bool {
    exists|i: int| session_at(roots, path, i)
}

/// The index of the session for `path` (meaningful when there is one).
pub open spec fn session_index(roots: Seq<RootModel>, path: Seq<char>) -> int {
    choose|i: int| session_at(roots, path, i)
}

/// At most one session per root path.
pub open spec fn one_session_per_path(roots: Seq<RootModel>) -> bool {
    forall|i: int, j: int|
        0 <= i < roots.len() && 0 <= j < roots.len() && i != j ==> !same_path(#[trigger] roots[i].path, #[trigger] roots[j].path)
}

/// The sessions of a registry, and whether it has been shut down.
pub struct RegistryModel {
    pub roots: Seq<RootModel>,
    pub closed: bool,
}

/// What a request to watch a root decides.
pub enum EnsureModel {
    Reject(ResidentErrorModel),
    Keep,
    Start { retired: Option<RootModel> },
}

/// A request to watch `root`: relative roots and requests after shutdown are
/// refused; an equal live session is kept; a changed or finished session is
/// retired and a new one is started; otherwise a new one is started.
pub open spec fn ensure_spec(m: RegistryModel, root: RootModel, previous_finished: bool) -> (RegistryModel, EnsureModel) {
    if !is_absolute_path(root.path) {
        (m, EnsureModel::Reject(ResidentErrorModel::RelativeRoot(root.path)))
    } else if m.closed {
        (m, EnsureModel::Reject(ResidentErrorModel::ShuttingDown))
    } else if has_session(m.roots, root.path) {
        let i = session_index(m.roots, root.path);
        if same_root(m.roots[i], root) && !previous_finished {
            (m, EnsureModel::Keep)
        } else {
            (RegistryModel { roots: m.roots.remove(i), closed: m.closed }, EnsureModel::Start { retired: Some(m.roots[i]) })
        }
    } else {
        (m, EnsureModel::Start { retired: None })
    }
}

/// Records a started session for `root`, replacing any session for its path.
pub open spec fn register_spec(m: RegistryModel, root: RootModel) -> RegistryModel {
    if has_session(m.roots, root.path) {
        RegistryModel { roots: m.roots.update(session_index(m.roots, root.path), root), closed: m.closed }
    } else {
        RegistryModel { roots: m.roots.push(root), closed: m.closed }
    }
}

/// Removes the session for `path`, giving it back when there was one.
pub open spec fn stop_spec(m: RegistryModel, path: Seq<char>) -> (RegistryModel, Option<RootModel>) {
    if has_session(m.roots, path) {
        let i = session_index(m.roots, path);
        (RegistryModel { roots: m.roots.remove(i), closed: m.closed }, Some(m.roots[i]))
    } else {
        (m, None)
    }
}

/// Closes the registry for good and hands back every session.
pub open spec fn shutdown_spec(m: RegistryModel) -> (RegistryModel, Seq<RootModel>) {
    (RegistryModel { roots: seq![], closed: true }, m.roots)
}

/// What [`ResidentRegistry::ensure`] tells its caller to do.
#[derive(Debug, PartialEq, Eq)]
pub enum EnsureAction {
    /// The request is refused with this error.
    Reject(ResidentWorkspaceError),
    /// An equal live session already watches the root.
    KeepExisting,
    /// Retire `retired` (when there is one), start a watcher, then [`ResidentRegistry::register`] it.
    Start { retired: Option<RootSpec> },
}

/// The model of an ensure decision.
pub open spec fn ensure_action_view(a: EnsureAction) -> EnsureModel {
    match a {
        EnsureAction::Reject(e) => EnsureModel::Reject(e@),
        EnsureAction::KeepExisting => EnsureModel::Keep,
        EnsureAction::Start { retired } => EnsureModel::Start {
            retired: match retired {
                Some(r) => Some(root_view(r)),
                None => None,
            },
        },
    }
}

/// The roots that have a live resident watcher session.
pub struct ResidentRegistry {
    roots: Vec<RootSpec>,
    closed: bool,
}

impl View for ResidentRegistry {
    type V = RegistryModel;

    closed spec fn view(&self) -> RegistryModel {
        RegistryModel { roots: roots_view(self.roots@), closed: self.closed }
    }
}

/// Whether two string lists are equal.
fn string_lists_equal(a: &Vec<String>, b: &Vec<String>) -> (r: bool)
    ensures
        r == (a.deep_view() == b.deep_view()),
{
    let ghost av = a.deep_view();
    let ghost bv = b.deep_view();
    if a.len() != b.len() {
        assert(av.len() != bv.len());
        return false;
    }
    let mut i: usize = 0;
    while i < a.len()
        invariant
            av == a.deep_view(),
            bv == b.deep_view(),
            a@.len() == b@.len(),
            0 <= i <= a@.len(),
            forall|k: int| 0 <= k < i ==> av[k] == bv[k],
        decreases a@.len() - i,
    {
        if !crate::text::str_eq(a[i].as_str(), b[i].as_str()) {
            assert(av[i as int] != bv[i as int]);
            return false;
        }
        i += 1;
    }
    assert(av =~= bv);
    true
}

/// Whether two discovery options are equal.
fn discovery_equal(a: &DiscoveryOptions, b: &DiscoveryOptions) -> (r: bool)
    ensures
        r == (a@ == b@),
{
    string_lists_equal(&a.include_paths, &b.include_paths) && string_lists_equal(&a.exclude_paths, &b.exclude_paths)
        && string_lists_equal(&a.globs, &b.globs) && string_lists_equal(&a.insensitive_globs, &b.insensitive_globs)
        && string_lists_equal(&a.file_types, &b.file_types)
        && string_lists_equal(&a.excluded_file_types, &b.excluded_file_types) && a.hidden == b.hidden
        && a.no_ignore == b.no_ignore && string_lists_equal(&a.ignore_files, &b.ignore_files)
        && a.max_depth == b.max_depth && a.max_file_size_bytes == b.max_file_size_bytes && a.follow == b.follow
}

/// Whether two roots are equal (see [`same_root`]).
pub fn roots_equal(a: &RootSpec, b: &RootSpec) -> (r: bool)
    ensures
        r == same_root(root_view(*a), root_view(*b)),
{
    paths_equal(a.path.as_str(), b.path.as_str()) && a.recursive == b.recursive && discovery_equal(&a.discovery, &b.discovery)
}

/// A copy of a root.
pub fn copy_root(r: &RootSpec) -> (out: RootSpec)
    ensures
        root_view(out) == root_view(*r),
{
    RootSpec { path: r.path.clone(), recursive: r.recursive, discovery: copy_discovery(&r.discovery) }
}

/// With one session per path, the session for a path is the one found.
proof fn lemma_session_index_unique(roots: Seq<RootModel>, path: Seq<char>, i: int)
    requires
        one_session_per_path(roots),
        session_at(roots, path, i),
    ensures
        has_session(roots, path),
        session_index(roots, path) == i,
{
    let j = session_index(roots, path);
    assert(session_at(roots, path, j));
    if j != i {
        assert(!same_path(roots[i].path, roots[j].path));
    }
}

/// Removing a session keeps one session per path.
proof fn lemma_remove_keeps_unique(roots: Seq<RootModel>, i: int)
    requires
        one_session_per_path(roots),
        0 <= i < roots.len(),
    ensures
        one_session_per_path(roots.remove(i)),
{
    let r = roots.remove(i);
    assert forall|a: int, b: int| 0 <= a < r.len() && 0 <= b < r.len() && a != b implies !same_path(#[trigger] r[a].path, #[trigger] r[b].path) by {
        let a0 = if a < i { a } else { a + 1 };
        let b0 = if b < i { b } else { b + 1 };
        assert(r[a] == roots[a0]);
        assert(r[b] == roots[b0]);
    }
}

/// Registering a root keeps one session per path.
proof fn lemma_register_keeps_unique(m: RegistryModel, root: RootModel)
    requires
        one_session_per_path(m.roots),
    ensures
        one_session_per_path(register_spec(m, root).roots),
        has_session(register_spec(m, root).roots, root.path),
        register_spec(m, root).closed == m.closed,
{
    let n = register_spec(m, root).roots;
    if has_session(m.roots, root.path) {
        let i = session_index(m.roots, root.path);
        assert(session_at(m.roots, root.path, i));
        assert forall|a: int, b: int| 0 <= a < n.len() && 0 <= b < n.len() && a != b implies !same_path(#[trigger] n[a].path, #[trigger] n[b].path) by {
            if a == i {
                assert(n[b] == m.roots[b]);
                assert(!same_path(m.roots[i].path, m.roots[b].path));
            } else if b == i {
                assert(n[a] == m.roots[a]);
                assert(!same_path(m.roots[a].path, m.roots[i].path));
            } else {
                assert(n[a] == m.roots[a] && n[b] == m.roots[b]);
            }
        }
        assert(session_at(n, root.path, i));
    } else {
        assert forall|a: int, b: int| 0 <= a < n.len() && 0 <= b < n.len() && a != b implies !same_path(#[trigger] n[a].path, #[trigger] n[b].path) by {
            if a == m.roots.len() {
                assert(n[a] == root);
                assert(n[b] == m.roots[b]);
                assert(!session_at(m.roots, root.path, b));
            } else if b == m.roots.len() {
                assert(n[b] == root);
                assert(n[a] == m.roots[a]);
                assert(!session_at(m.roots, root.path, a));
            } else {
                assert(n[a] == m.roots[a] && n[b] == m.roots[b]);
            }
        }
        assert(session_at(n, root.path, m.roots.len() as int));
    }
}

impl ResidentRegistry {
    /// Whether the registry holds at most one session per root path.
    pub closed spec fn well_formed(&self) -> bool {
        one_session_per_path(roots_view(self.roots@))
    }

    /// A well-formed registry holds at most one session per root path, so the laws below
    /// that ask for [`one_session_per_path`] apply to every registry its methods produce.
    pub proof fn lemma_well_formed_sessions(&self)
        requires
            self.well_formed(),
        ensures
            one_session_per_path(self@.roots),
    {
    }

    /// Stopping a root of a well-formed registry twice: the first stop gives back its
    /// session when there was one and removes it; the second finds none and changes nothing.
    pub proof fn lemma_stop_twice(&self, path: Seq<char>)
        requires
            self.well_formed(),
        ensures
            stop_spec(self@, path).1 is Some <==> has_session(self@.roots, path),
            stop_spec(self@, path).0.roots.len() == self@.roots.len() - (if has_session(self@.roots, path) { 1int } else { 0 }),
            stop_spec(stop_spec(self@, path).0, path).1 is None,
            stop_spec(stop_spec(self@, path).0, path).0 == stop_spec(self@, path).0,
    {
        lemma_stop_forgets_root(self@, path);
        lemma_second_stop_finds_nothing(self@, path);
    }

    /// Watching a root that a well-formed open registry already watches keeps the number of
    /// sessions: an equal live session is kept, any other is replaced once registered, and
    /// one session remains for that path.
    pub proof fn lemma_rewatch(&self, root: RootModel, finished: bool)
        requires
            self.well_formed(),
            !self@.closed,
            is_absolute_path(root.path),
            has_session(self@.roots, root.path),
        ensures
            ({
                let (m1, decision) = ensure_spec(self@, root, finished);
                let after = if decision is Keep { m1 } else { register_spec(m1, root) };
                &&& decision is Keep <==> (same_root(self@.roots[session_index(self@.roots, root.path)], root) && !finished)
                &&& after.roots.len() == self@.roots.len()
                &&& forall|k: int| session_at(after.roots, root.path, k) ==> same_root(#[trigger] after.roots[k], root)
            }),
    {
        lemma_rewatch_keeps_active_count(self@, root, finished);
    }

    /// An open registry without sessions.
    pub fn new() -> (r: ResidentRegistry)
        ensures
            r.well_formed(),
            r@ == (RegistryModel { roots: seq![], closed: false }),
    {
        let r = ResidentRegistry { roots: Vec::new(), closed: false };
        assert(roots_view(r.roots@) =~= seq![]);
        r
    }

    fn find(&self, path: &str) -> (r: Option<usize>)
        ensures
            match r {
                Some(i) => session_at(self@.roots, path@, i as int),
                None => !has_session(self@.roots, path@),
            },
    {
        let ghost rs = self@.roots;
        let mut i: usize = 0;
        while i < self.roots.len()
            invariant
                rs == roots_view(self.roots@),
                rs.len() == self.roots@.len(),
                0 <= i <= rs.len(),
                forall|k: int| 0 <= k < i ==> !same_path(#[trigger] rs[k].path, path@),
            decreases rs.len() - i,
        {
            if paths_equal(self.roots[i].path.as_str(), path) {
                assert(rs[i as int] == root_view(self.roots@[i as int]));
                return Some(i);
            }
            assert(rs[i as int] == root_view(self.roots@[i as int]));
            i += 1;
        }
        assert forall|k: int| !session_at(rs, path@, k) by {
            if 0 <= k < rs.len() {
                assert(!same_path(rs[k].path, path@));
            }
        }
        None
    }

    /// Decides a request to watch `root` (see [`ensure_spec`]); `previous_finished`
    /// tells whether the task of an existing session for this path has ended.
    pub fn ensure(&mut self, root: &RootSpec, previous_finished: bool) -> (a: EnsureAction)
        requires
            old(self).well_formed(),
        ensures
            final(self).well_formed(),
            (final(self)@, ensure_action_view(a)) == ensure_spec(old(self)@, root_view(*root), previous_finished),
    {
        let ghost m = self@;
        proof {
            reveal_strlit("/");
        }
        let chars = crate::text::chars_of(root.path.as_str());
        if !(chars.len() > 0 && chars[0] == '/') {
            return EnsureAction::Reject(ResidentWorkspaceError::RelativeRoot(root.path.clone()));
        }
        if self.closed {
            return EnsureAction::Reject(ResidentWorkspaceError::ShuttingDown);
        }
        match self.find(root.path.as_str()) {
            Some(i) => {
                proof {
                    lemma_session_index_unique(m.roots, root.path@, i as int);
                    assert(m.roots[i as int] == root_view(self.roots@[i as int]));
                }
                if roots_equal(&self.roots[i], root) && !previous_finished {
                    return EnsureAction::KeepExisting;
                }
                let retired = self.roots.remove(i);
                proof {
                    assert(roots_view(self.roots@) =~= m.roots.remove(i as int));
                    lemma_remove_keeps_unique(m.roots, i as int);
                }
                EnsureAction::Start { retired: Some(retired) }
            },
            None => EnsureAction::Start { retired: None },
        }
    }

    /// Records the started session for `root` (see [`register_spec`]).
    pub fn register(&mut self, root: RootSpec)
        requires
            old(self).well_formed(),
        ensures
            final(self).well_formed(),
            final(self)@ == register_spec(old(self)@, root_view(root)),
    {
        let ghost m = self@;
        proof {
            lemma_register_keeps_unique(m, root_view(root));
        }
        match self.find(root.path.as_str()) {
            Some(i) => {
                proof {
                    lemma_session_index_unique(m.roots, root.path@, i as int);
                }
                self.roots.set(i, root);
                assert(roots_view(self.roots@) =~= m.roots.update(i as int, root_view(root)));
            },
            None => {
                self.roots.push(root);
                assert(roots_view(self.roots@) =~= m.roots.push(root_view(root)));
            },
        }
    }

    /// Removes the session for `root_path` (see [`stop_spec`]); `Some` when there was one.
    pub fn stop(&mut self, root_path: &str) -> (r: Option<RootSpec>)
        requires
            old(self).well_formed(),
        ensures
            final(self).well_formed(),
            final(self)@ == stop_spec(old(self)@, root_path@).0,
            match r {
                Some(root) => stop_spec(old(self)@, root_path@).1 == Some(root_view(root)),
                None => stop_spec(old(self)@, root_path@).1 is None,
            },
    {
        let ghost m = self@;
        match self.find(root_path) {
            Some(i) => {
                proof {
                    lemma_session_index_unique(m.roots, root_path@, i as int);
                    lemma_remove_keeps_unique(m.roots, i as int);
                }
                let removed = self.roots.remove(i);
                assert(roots_view(self.roots@) =~= m.roots.remove(i as int));
                Some(removed)
            },
            None => None,
        }
    }

    /// Closes the registry for good and hands back every session (see [`shutdown_spec`]).
    pub fn shutdown(&mut self) -> (drained: Vec<RootSpec>)
        requires
            old(self).well_formed(),
        ensures
            final(self).well_formed(),
            final(self)@ == shutdown_spec(old(self)@).0,
            roots_view(drained@) == shutdown_spec(old(self)@).1,
    {
        self.closed = true;
        let mut drained: Vec<RootSpec> = Vec::new();
        std::mem::swap(&mut drained, &mut self.roots);
        assert(roots_view(self.roots@) =~= seq![]);
        drained
    }

    /// The number of live sessions.
    pub fn active_count(&self) -> (n: usize)
        ensures
            n == self@.roots.len(),
    {
        self.roots.len()
    }

    /// Whether the registry has been shut down.
    pub fn is_shut_down(&self) -> (b: bool)
        ensures
            b == self@.closed,
    {
        self.closed
    }
}

/// The first error of `results` in order, or success when every one succeeded.
pub fn first_failure(results: Vec<Result<(), ResidentWorkspaceError>>) -> (r: Result<(), ResidentWorkspaceError>)
    ensures
        r is Ok <==> forall|i: int| 0 <= i < results@.len() ==> results@[i] is Ok,
        r is Err ==> exists|i: int|
            0 <= i < results@.len() && results@[i] == r && forall|j: int| 0 <= j < i ==> results@[j] is Ok,
{
    let mut pending = results;
    let ghost all = pending@;
    let mut i: usize = 0;
    while i < pending.len()
        invariant
            pending@ == all,
            all == results@,
            0 <= i <= all.len(),
            forall|j: int| 0 <= j < i ==> all[j] is Ok,
        decreases all.len() - i,
    {
        let failed = match &pending[i] {
            Ok(()) => false,
            Err(_) => true,
        };
        if failed {
            let e = pending.remove(i);
            assert(e == all[i as int]);
            return e;
        }
        i += 1;
    }
    Ok(())
}

/// `first`, unless it succeeded: then `second` (`Result::and`).
pub fn either_failure(first: Result<(), ResidentWorkspaceError>, second: Result<(), ResidentWorkspaceError>) -> (r: Result<(), ResidentWorkspaceError>)
    ensures
        r == (if first is Err { first } else { second }),
{
    match first {
        Ok(()) => second,
        Err(e) => Err(e),
    }
}

/// The result of stopping a session: a task that could not be joined fails
/// with `Join`; otherwise the task's own result comes first, then the close result.
pub fn stopped_result(
    root_path: &str,
    close_result: Result<(), ResidentWorkspaceError>,
    joined: Result<Result<(), ResidentWorkspaceError>, String>,
) -> (r: Result<(), ResidentWorkspaceError>)
    ensures
        match joined {
            Err(message) => r matches Err(e) && e@ == (ResidentErrorModel::Join { root: root_path@, message: message@ }),
            Ok(task) => r == (if task is Err { task } else { close_result }),
        },
{
    match joined {
        Err(message) => Err(ResidentWorkspaceError::Join { root: root_path.to_owned(), message }),
        Ok(task) => either_failure(task, close_result),
    }
}

/// Work a completed index lifecycle operation hands to the resident watchers.
#[derive(Debug, PartialEq, Eq)]
pub enum FollowUp {
    /// Watch each of these roots.
    Ensure(Vec<RootSpec>),
    /// Stop watching this root.
    Stop(String),
    Nothing,
}

/// The follow-up of a command run on `operation_root`: an index operation
/// watches its roots; dropping or disabling an index stops the watcher.
pub fn follow_up_for(operation_root: &str, command: &Command) -> (f: FollowUp)
    ensures
        match command {
            Command::Index(request) => f matches FollowUp::Ensure(roots) && roots_view(roots@) == roots_view(request.roots@),
            Command::ChangeIndex(_) => f matches FollowUp::Stop(root) && root@ == operation_root@,
            _ => f is Nothing,
        },
{
    match command {
        Command::Index(request) => {
            let mut roots: Vec<RootSpec> = Vec::new();
            let mut i: usize = 0;
            while i < request.roots.len()
                invariant
                    0 <= i <= request.roots@.len(),
                    roots_view(roots@) == roots_view(request.roots@).take(i as int),
                decreases request.roots@.len() - i,
            {
                let ghost before = roots_view(roots@);
                roots.push(copy_root(&request.roots[i]));
                assert(roots_view(roots@) =~= before.push(root_view(request.roots@[i as int])));
                assert(roots_view(request.roots@).take(i + 1) =~= roots_view(request.roots@).take(i as int).push(
                    root_view(request.roots@[i as int]),
                ));
                i += 1;
            }
            assert(roots_view(request.roots@).take(request.roots@.len() as int) =~= roots_view(request.roots@));
            FollowUp::Ensure(roots)
        },
        Command::ChangeIndex(_) => FollowUp::Stop(operation_root.to_owned()),
        _ => FollowUp::Nothing,
    }
}

/// The kind of reply a completed operation returned.
#[derive(Clone, Copy, Debug, PartialEq, Eq)]
pub enum CompletedReply {
    Index,
    ChangeIndex,
    Other,
}

/// How an operation ended, as far as the resident watchers care.
#[derive(Clone, Copy, Debug, PartialEq, Eq)]
pub enum OutcomeKind {
    Completed(CompletedReply),
    Accepted,
    InputRequired,
}

/// Whether a follow-up applies: watching follows a completed index reply,
/// stopping follows a completed change-index reply.
pub fn follow_up_applies(f: &FollowUp, outcome: OutcomeKind) -> (r: bool)
    ensures
        r == ((f is Ensure && outcome == OutcomeKind::Completed(CompletedReply::Index)) || (f is Stop && outcome
            == OutcomeKind::Completed(CompletedReply::ChangeIndex))),
{
    match (f, outcome) {
        (FollowUp::Ensure(_), OutcomeKind::Completed(CompletedReply::Index)) => true,
        (FollowUp::Stop(_), OutcomeKind::Completed(CompletedReply::ChangeIndex)) => true,
        _ => false,
    }
}

/// The engine error a failed follow-up is reported as.
pub fn follow_up_error(e: &ResidentWorkspaceError) -> (out: EngineError)
    ensures
        out@ == (EngineErrorModel::BackendFailure { backend: "resident-workspace-manager"@, message: resident_error_message(e@) }),
{
    let m = e.message();
    EngineError::backend("resident-workspace-manager", m.as_str())
}

/// What a resident watcher loop does next.
#[derive(Debug, PartialEq, Eq)]
pub enum LoopControl {
    /// Wait for the next batch of changes.
    Continue,
    /// Run an incremental index for the batch just received.
    RunIndex,
    /// Stop cleanly.
    Stop,
    /// Stop with this error.
    Fail(ResidentWorkspaceError),
}

/// Whether an engine error reports that the work was cancelled or the service closed.
pub open spec fn is_stop_error(code: ErrorCode) -> bool {
    code == ErrorCode::Cancelled || code == ErrorCode::Closed
}

fn is_stop_code(code: ErrorCode) -> (r: bool)
    ensures
        r == is_stop_error(code),
{
    match code {
        ErrorCode::Cancelled | ErrorCode::Closed => true,
        _ => false,
    }
}

/// After the watcher answered: a batch with changes is indexed, an empty one
/// skipped; a cancellation after the loop was cancelled stops it cleanly; any
/// other watcher failure stops it with `Watch`.
pub fn after_next_changes(root_path: &str, next: Result<usize, EngineError>, cancelled: bool) -> (c: LoopControl)
    ensures
        match next {
            Ok(n) => c == (if n == 0 { LoopControl::Continue } else { LoopControl::RunIndex }),
            Err(source) => if cancelled && is_stop_error(crate::errors::engine_error_code(source@)) {
                c is Stop
            } else {
                c matches LoopControl::Fail(e) && e@ == (ResidentErrorModel::Watch { root: root_path@, source: source@ })
            },
        },
{
    match next {
        Ok(n) => if n == 0 {
            LoopControl::Continue
        } else {
            LoopControl::RunIndex
        },
        Err(source) => {
            let code = source.code();
            if cancelled && is_stop_code(code) {
                LoopControl::Stop
            } else {
                LoopControl::Fail(ResidentWorkspaceError::Watch { root: root_path.to_owned(), source })
            }
        },
    }
}

/// How an incremental index run ended.
#[derive(Debug, PartialEq, Eq)]
pub enum IndexRunResult {
    Completed(CompletedReply),
    Accepted,
    InputRequired { reason: String },
    Failed { code: ErrorCode, message: String },
}

/// After an incremental index run: an index reply or an accepted job keeps
/// the loop going; a request for authorization, another reply, or a failure
/// stops it with the matching error, except that a cancellation after the
/// loop was cancelled stops it cleanly.
pub fn after_index_run(root_path: &str, result: IndexRunResult, cancelled: bool) -> (c: LoopControl)
    ensures
        match result {
            IndexRunResult::Completed(CompletedReply::Index) => c is Continue,
            IndexRunResult::Accepted => c is Continue,
            IndexRunResult::InputRequired { reason } => c matches LoopControl::Fail(e)
                && e@ == (ResidentErrorModel::AuthorizationRequired { root: root_path@, reason: reason@ }),
            IndexRunResult::Completed(_) => c matches LoopControl::Fail(e)
                && e@ == (ResidentErrorModel::UnexpectedReply { root: root_path@ }),
            IndexRunResult::Failed { code, message } => if cancelled && is_stop_error(code) {
                c is Stop
            } else {
                c matches LoopControl::Fail(e) && e@ == (ResidentErrorModel::Index { root: root_path@, message: message@ })
            },
        },
{
    match result {
        IndexRunResult::Completed(CompletedReply::Index) => LoopControl::Continue,
        IndexRunResult::Accepted => LoopControl::Continue,
        IndexRunResult::InputRequired { reason } => LoopControl::Fail(
            ResidentWorkspaceError::AuthorizationRequired { root: root_path.to_owned(), reason },
        ),
        IndexRunResult::Completed(_) => LoopControl::Fail(ResidentWorkspaceError::UnexpectedReply { root: root_path.to_owned() }),
        IndexRunResult::Failed { code, message } => {
            if cancelled && is_stop_code(code) {
                LoopControl::Stop
            } else {
                LoopControl::Fail(ResidentWorkspaceError::Index { root: root_path.to_owned(), message })
            }
        },
    }
}

/// The incremental index request a watcher batch becomes: this root only,
/// with its discovery, and the batch's changes.
pub fn incremental_index_request(root: &RootSpec, changes: Vec<WorkspaceChange>) -> (r: IndexRequest)
    ensures
        r.root is None,
        roots_view(r.roots@) == seq![root_view(*root)],
        r.changes@ == changes@,
        r.discovery@ == root.discovery@,
        !r.rebuild && !r.reset_paths && !r.wait && !r.debug,
        r.embedding is None && r.embedding_concurrency is None,
{
    let mut roots: Vec<RootSpec> = Vec::new();
    roots.push(copy_root(root));
    assert(roots_view(roots@) =~= seq![root_view(*root)]);
    IndexRequest {
        root: None,
        roots,
        rebuild: false,
        reset_paths: false,
        changes,
        discovery: copy_discovery(&root.discovery),
        embedding: None,
        embedding_concurrency: None,
        wait: false,
        debug: false,
    }
}

/// Every registry operation keeps at most one session per root path.
pub proof fn lemma_one_session_per_root(m: RegistryModel, root: RootModel, finished: bool, path: Seq<char>)
    requires
        one_session_per_path(m.roots),
    ensures
        one_session_per_path(ensure_spec(m, root, finished).0.roots),
        one_session_per_path(register_spec(m, root).roots),
        one_session_per_path(stop_spec(m, path).0.roots),
        one_session_per_path(shutdown_spec(m).0.roots),
{
    if is_absolute_path(root.path) && !m.closed && has_session(m.roots, root.path) {
        let i = session_index(m.roots, root.path);
        assert(session_at(m.roots, root.path, i));
        lemma_remove_keeps_unique(m.roots, i);
    }
    lemma_register_keeps_unique(m, root);
    if has_session(m.roots, path) {
        let i = session_index(m.roots, path);
        assert(session_at(m.roots, path, i));
        lemma_remove_keeps_unique(m.roots, i);
    }
}

/// Watching a root is idempotent: once its session is started and
/// registered, the same request keeps that session and changes nothing.
pub proof fn lemma_ensure_is_idempotent(m: RegistryModel, root: RootModel)
    requires
        one_session_per_path(m.roots),
    ensures
        ({
            let (m1, first) = ensure_spec(m, root, false);
            first is Start ==> ({
                let m2 = register_spec(m1, root);
                ensure_spec(m2, root, false) == (m2, EnsureModel::Keep) && m2.roots.len() == m1.roots.len() + 1
            })
        }),
        ensure_spec(m, root, false).1 is Keep ==> ensure_spec(m, root, false).0 == m,
{
    let (m1, first) = ensure_spec(m, root, false);
    if first is Start {
        lemma_one_session_per_root(m, root, false, root.path);
        assert(!has_session(m1.roots, root.path)) by {
            if has_session(m.roots, root.path) {
                let i = session_index(m.roots, root.path);
                assert(session_at(m.roots, root.path, i));
                assert forall|k: int| !session_at(m1.roots, root.path, k) by {
                    if 0 <= k < m1.roots.len() {
                        let k0 = if k < i { k } else { k + 1 };
                        assert(m1.roots[k] == m.roots[k0]);
                        assert(!same_path(m.roots[i].path, m.roots[k0].path));
                    }
                }
            }
        }
        lemma_register_keeps_unique(m1, root);
        let m2 = register_spec(m1, root);
        assert(m2.roots == m1.roots.push(root));
        let j = m1.roots.len() as int;
        assert(session_at(m2.roots, root.path, j));
        lemma_session_index_unique(m2.roots, root.path, j);
    }
}

/// A changed root replaces its session: the old one is retired, and once the
/// new one is registered it is the only session for that path.
pub proof fn lemma_changed_root_restarts(m: RegistryModel, old_root: RootModel, root: RootModel)
    requires
        one_session_per_path(m.roots),
        !m.closed,
        is_absolute_path(root.path),
        m.roots.contains(old_root),
        same_path(old_root.path, root.path),
        !same_root(old_root, root),
    ensures
        ensure_spec(m, root, false).1 == (EnsureModel::Start { retired: Some(old_root) }),
        ({
            let m2 = register_spec(ensure_spec(m, root, false).0, root);
            &&& m2.roots.len() == m.roots.len()
            &&& m2.roots.contains(root)
            &&& !m2.roots.contains(old_root)
            &&& forall|k: int| session_at(m2.roots, root.path, k) ==> m2.roots[k] == root
        }),
{
    let i = choose|i: int| 0 <= i < m.roots.len() && m.roots[i] == old_root;
    assert(session_at(m.roots, root.path, i));
    lemma_session_index_unique(m.roots, root.path, i);
    let m1 = ensure_spec(m, root, false).0;
    lemma_remove_keeps_unique(m.roots, i);
    assert(!has_session(m1.roots, root.path)) by {
        assert forall|k: int| !session_at(m1.roots, root.path, k) by {
            if 0 <= k < m1.roots.len() {
                let k0 = if k < i { k } else { k + 1 };
                assert(m1.roots[k] == m.roots[k0]);
                assert(!same_path(m.roots[i].path, m.roots[k0].path));
            }
        }
    }
    lemma_register_keeps_unique(m1, root);
    let m2 = register_spec(m1, root);
    assert(m2.roots == m1.roots.push(root));
    assert(m2.roots[m1.roots.len() as int] == root);
    assert(!m2.roots.contains(old_root)) by {
        assert forall|k: int| 0 <= k < m2.roots.len() implies m2.roots[k] != old_root by {
            if k < m1.roots.len() {
                let k0 = if k < i { k } else { k + 1 };
                assert(m1.roots[k] == m.roots[k0]);
                if m.roots[k0] == old_root {
                    assert(same_path(m.roots[i].path, m.roots[k0].path));
                }
            }
        }
    }
    assert forall|k: int| session_at(m2.roots, root.path, k) implies m2.roots[k] == root by {
        if k != m1.roots.len() {
            assert(!same_path(m2.roots[k].path, m2.roots[m1.roots.len() as int].path));
        }
    }
}

/// After shutdown no session is left and every later request to watch a root is refused.
pub proof fn lemma_shutdown_rejects_new_roots(m: RegistryModel, root: RootModel, finished: bool)
    ensures
        shutdown_spec(m).0.roots.len() == 0,
        ({
            let closed = shutdown_spec(m).0;
            let (m2, decision) = ensure_spec(closed, root, finished);
            &&& m2 == closed
            &&& decision == (if is_absolute_path(root.path) {
                EnsureModel::Reject(ResidentErrorModel::ShuttingDown)
            } else {
                EnsureModel::Reject(ResidentErrorModel::RelativeRoot(root.path))
            })
        }),
{
}

/// Stopping a root removes its session and reports whether there was one.
pub proof fn lemma_stop_forgets_root(m: RegistryModel, path: Seq<char>)
    requires
        one_session_per_path(m.roots),
    ensures
        stop_spec(m, path).1 is Some <==> has_session(m.roots, path),
        !has_session(stop_spec(m, path).0.roots, path),
        stop_spec(m, path).0.roots.len() == m.roots.len() - (if has_session(m.roots, path) { 1int } else { 0 }),
{
    if has_session(m.roots, path) {
        let i = session_index(m.roots, path);
        assert(session_at(m.roots, path, i));
        let r = m.roots.remove(i);
        assert forall|k: int| !session_at(r, path, k) by {
            if 0 <= k < r.len() {
                let k0 = if k < i { k } else { k + 1 };
                assert(r[k] == m.roots[k0]);
                assert(!same_path(m.roots[i].path, m.roots[k0].path));
            }
        }
    }
}

/// Stopping a root twice: the first stop gives back its session when there was one, the
/// second finds none and changes nothing.
pub proof fn lemma_second_stop_finds_nothing(m: RegistryModel, path: Seq<char>)
    requires
        one_session_per_path(m.roots),
    ensures
        stop_spec(m, path).1 is Some <==> has_session(m.roots, path),
        stop_spec(stop_spec(m, path).0, path).1 is None,
        stop_spec(stop_spec(m, path).0, path).0 == stop_spec(m, path).0,
{
    lemma_stop_forgets_root(m, path);
}

/// Watching a root that already has a session leaves the number of sessions unchanged:
/// an equal live session is kept as it is, any other is replaced by one for the new root,
/// and either way exactly one session remains for that path.
pub proof fn lemma_rewatch_keeps_active_count(m: RegistryModel, root: RootModel, finished: bool)
    requires
        one_session_per_path(m.roots),
        !m.closed,
        is_absolute_path(root.path),
        has_session(m.roots, root.path),
    ensures
        ({
            let (m1, decision) = ensure_spec(m, root, finished);
            let after = if decision is Keep { m1 } else { register_spec(m1, root) };
            &&& decision is Keep <==> (same_root(m.roots[session_index(m.roots, root.path)], root) && !finished)
            &&& decision is Keep || decision is Start
            &&& after.roots.len() == m.roots.len()
            &&& one_session_per_path(after.roots)
            &&& has_session(after.roots, root.path)
            &&& forall|k: int| session_at(after.roots, root.path, k) ==> same_root(#[trigger] after.roots[k], root)
        }),
{
    let i = session_index(m.roots, root.path);
    assert(session_at(m.roots, root.path, i));
    let (m1, decision) = ensure_spec(m, root, finished);
    if decision is Keep {
        assert forall|k: int| session_at(m.roots, root.path, k) implies same_root(#[trigger] m.roots[k], root) by {
            lemma_session_index_unique(m.roots, root.path, k);
        }
    } else {
        lemma_remove_keeps_unique(m.roots, i);
        assert(!has_session(m1.roots, root.path)) by {
            assert forall|k: int| !session_at(m1.roots, root.path, k) by {
                if 0 <= k < m1.roots.len() {
                    let k0 = if k < i { k } else { k + 1 };
                    assert(m1.roots[k] == m.roots[k0]);
                    assert(!same_path(m.roots[i].path, m.roots[k0].path));
                }
            }
        }
        lemma_register_keeps_unique(m1, root);
        let m2 = register_spec(m1, root);
        assert(m2.roots == m1.roots.push(root));
        let j = m1.roots.len() as int;
        assert forall|k: int| session_at(m2.roots, root.path, k) implies same_root(#[trigger] m2.roots[k], root) by {
            if k != j {
                assert(k < j);
                assert(m2.roots[k] == m1.roots[k]);
                assert(session_at(m1.roots, root.path, k));
            }
        }
    }
}

} // verus!
