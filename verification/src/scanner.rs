//! Workspace discovery decisions: which directory entries are walked or read, which files
//! are skipped and why, binary sniffing, fingerprints, and overlapping roots.
use vstd::prelude::*;

use crate::common::FileKind;
use crate::domain::{SkippedFile, SkippedFileReason};
use crate::errors::{HostError, HostErrorModel};
use crate::file_type::{detect_file_type, detect_spec, max_file_size, max_file_size_spec};
use crate::path::{components, path_components, Comp, PathComponent};
use crate::text::{append_str, decimal, string_of};

verus! {

/// The most skipped files a scan keeps as samples.
pub const MAX_SKIPPED_FILE_SAMPLES: usize = 20;
/// How many leading bytes the binary sniff reads.
pub const BINARY_SNIFF_BYTES: usize = 8192;
/// The share of suspicious control bytes (in percent) above which a file is binary.
pub const BINARY_CONTROL_CHAR_PERCENT: usize = 30;

/// Skipped files by reason.
#[derive(Debug, PartialEq, Eq)]
pub struct SkippedByReason {
    pub empty: usize,
    pub too_large: usize,
    pub unsupported: usize,
    pub binary: usize,
}

/// What a scan left out.
#[derive(Debug, PartialEq, Eq)]
pub struct ScanDiagnostics {
    pub skipped_files: usize,
    pub skipped_by_reason: SkippedByReason,
    pub skipped_samples: Vec<SkippedFile>,
}

impl ScanDiagnostics {
    /// No skipped files.
    pub fn new() -> (d: ScanDiagnostics)
        ensures
            d.well_formed(),
            d.skipped_files == 0,
            d.skipped_samples@.len() == 0,
    {
        ScanDiagnostics {
            skipped_files: 0,
            skipped_by_reason: SkippedByReason { empty: 0, too_large: 0, unsupported: 0, binary: 0 },
            skipped_samples: Vec::new(),
        }
    }

    /// The total is the sum of the per-reason counts, and at most the sample cap of
    /// samples is kept.
    pub open spec fn well_formed(&self) -> bool {
        &&& self.skipped_files == self.skipped_by_reason.empty + self.skipped_by_reason.too_large
            + self.skipped_by_reason.unsupported + self.skipped_by_reason.binary
        &&& self.skipped_samples@.len() <= MAX_SKIPPED_FILE_SAMPLES
    }
}

/// The per-reason count a skip increments.
pub open spec fn reason_count(r: SkippedByReason, reason: SkippedFileReason) -> usize {
    match reason {
        SkippedFileReason::Empty => r.empty,
        SkippedFileReason::TooLarge => r.too_large,
        SkippedFileReason::Unsupported => r.unsupported,
        SkippedFileReason::Binary => r.binary,
    }
}

/// Records one skipped file: the total and its reason's count grow by one, and the file is
/// kept as a sample while fewer than the cap are kept.
pub fn record_skipped(
    diagnostics: &mut ScanDiagnostics,
    path: &str,
    reason: SkippedFileReason,
    size_bytes: Option<u64>,
    limit_bytes: Option<u64>,
)
    requires
        old(diagnostics).skipped_files < usize::MAX,
        old(diagnostics).well_formed(),
    ensures
        final(diagnostics).well_formed(),
        final(diagnostics).skipped_files == old(diagnostics).skipped_files + 1,
        reason_count(final(diagnostics).skipped_by_reason, reason) == reason_count(old(diagnostics).skipped_by_reason, reason) + 1,
        forall|other: SkippedFileReason| other != reason ==> reason_count(final(diagnostics).skipped_by_reason, other)
            == reason_count(old(diagnostics).skipped_by_reason, other),
        old(diagnostics).skipped_samples@.len() < MAX_SKIPPED_FILE_SAMPLES ==> final(diagnostics).skipped_samples@
            == old(diagnostics).skipped_samples@.push(SkippedFile { path: final(diagnostics).skipped_samples@.last().path, reason, size_bytes, limit_bytes })
            && final(diagnostics).skipped_samples@.last().path@ == path@,
        old(diagnostics).skipped_samples@.len() >= MAX_SKIPPED_FILE_SAMPLES ==> final(diagnostics).skipped_samples@
            == old(diagnostics).skipped_samples@,
{
    diagnostics.skipped_files = diagnostics.skipped_files + 1;
    match reason {
        SkippedFileReason::Empty => {
            diagnostics.skipped_by_reason.empty = diagnostics.skipped_by_reason.empty + 1;
        },
        SkippedFileReason::TooLarge => {
            diagnostics.skipped_by_reason.too_large = diagnostics.skipped_by_reason.too_large + 1;
        },
        SkippedFileReason::Unsupported => {
            diagnostics.skipped_by_reason.unsupported = diagnostics.skipped_by_reason.unsupported + 1;
        },
        SkippedFileReason::Binary => {
            diagnostics.skipped_by_reason.binary = diagnostics.skipped_by_reason.binary + 1;
        },
    }
    if diagnostics.skipped_samples.len() < MAX_SKIPPED_FILE_SAMPLES {
        diagnostics.skipped_samples.push(SkippedFile { path: path.to_owned(), reason, size_bytes, limit_bytes });
    }
}

/// A control byte that text files rarely hold (bell, backspace, tab, newline, form feed,
/// carriage return and escape are allowed).
pub open spec fn is_suspicious_control(b: u8) -> bool {
    b < 32 && !(b == 7 || b == 8 || b == 9 || b == 10 || b == 12 || b == 13 || b == 27)
}

/// Whether a byte is a suspicious control byte.
pub fn is_suspicious_control_byte(value: u8) -> (r: bool)
    ensures
        r == is_suspicious_control(value),
{
    value < 32 && !(value == 7 || value == 8 || value == 9 || value == 10 || value == 12 || value == 13 || value == 27)
}

/// The number of suspicious control bytes.
pub open spec fn suspicious_count(b: Seq<u8>) -> nat
    decreases b.len(),
{
    if b.len() == 0 {
        0
    } else {
        suspicious_count(b.drop_last()) + (if is_suspicious_control(b.last()) { 1nat } else { 0nat })
    }
}

/// Whether a file's leading bytes look binary: a NUL byte, or more than the allowed share
/// of suspicious control bytes. An empty read is not binary.
pub open spec fn looks_binary(b: Seq<u8>) -> bool {
    b.len() > 0 && ((exists|i: int| 0 <= i < b.len() && b[i] == 0u8)
        || suspicious_count(b) * 100 > b.len() * BINARY_CONTROL_CHAR_PERCENT)
}

/// Whether the leading bytes of a file (up to the sniff size, as read) look binary.
pub fn is_likely_binary(bytes: &[u8]) -> (r: bool)
    ensures
        r == looks_binary(bytes@),
{
    if bytes.len() == 0 {
        return false;
    }
    let mut suspicious: usize = 0;
    let mut i: usize = 0;
    while i < bytes.len()
        invariant
            0 <= i <= bytes@.len(),
            suspicious == suspicious_count(bytes@.take(i as int)),
            suspicious <= i,
            forall|k: int| 0 <= k < i ==> bytes@[k] != 0u8,
        decreases bytes@.len() - i,
    {
        assert(bytes@.take(i + 1).drop_last() =~= bytes@.take(i as int));
        if bytes[i] == 0 {
            return true;
        }
        if is_suspicious_control_byte(bytes[i]) {
            suspicious += 1;
        }
        i += 1;
    }
    assert(bytes@.take(bytes@.len() as int) =~= bytes@);
    (suspicious as u128) * 100 > (bytes.len() as u128) * 30
}

/// Whether a scan may go on: a cancelled scan stops with `Cancelled`, one
/// whose deadline (if any) has been reached at `now_ms` with `DeadlineExceeded`.
pub fn control_check(cancelled: bool, now_ms: u64, deadline_ms: Option<u64>) -> (r: Result<(), HostError>)
    ensures
        cancelled ==> r == Err::<(), HostError>(HostError::Cancelled),
        !cancelled && (deadline_ms matches Some(d) && now_ms >= d) ==> r == Err::<(), HostError>(HostError::DeadlineExceeded),
        !cancelled && !(deadline_ms matches Some(d) && now_ms >= d) ==> r is Ok,
{
    if cancelled {
        return Err(HostError::Cancelled);
    }
    if let Some(d) = deadline_ms {
        if now_ms >= d {
            return Err(HostError::DeadlineExceeded);
        }
    }
    Ok(())
}

/// The fingerprint of a file's metadata: `metadata-v1:<size>:<modified ms or unknown>`.
pub open spec fn fingerprint_spec(size: u64, modified: Option<u64>) -> Seq<char> {
    "metadata-v1:"@ + decimal(size as nat) + ":"@ + match modified {
        Some(m) => decimal(m as nat),
        None => "unknown"@,
    }
}

/// The fingerprint of a file's metadata.
pub fn source_fingerprint(size_bytes: u64, modified_epoch_ms: Option<u64>) -> (s: String)
    ensures
        s@ == fingerprint_spec(size_bytes, modified_epoch_ms),
{
    let mut out: Vec<char> = Vec::new();
    append_str(&mut out, "metadata-v1:");
    let size = crate::text::u64_to_string(size_bytes);
    append_str(&mut out, size.as_str());
    append_str(&mut out, ":");
    match modified_epoch_ms {
        Some(m) => {
            let t = crate::text::u64_to_string(m);
            append_str(&mut out, t.as_str());
        },
        None => {
            append_str(&mut out, "unknown");
        },
    }
    assert(out@ =~= fingerprint_spec(size_bytes, modified_epoch_ms));
    string_of(&out)
}

/// A non-empty path made only of names (no root, `.` or `..`).
pub open spec fn is_plain_relative(path: Seq<char>) -> bool {
    path.len() > 0 && forall|k: int| 0 <= k < components(path).len() ==> #[trigger] components(path)[k] is Normal
}

/// Refuses a source path that is empty or holds a root, `.` or `..` component.
pub fn validate_relative_path(path: &str) -> (r: Result<(), HostError>)
    ensures
        r is Ok <==> is_plain_relative(path@),
        r matches Err(e) ==> e@ == (HostErrorModel::InvalidInput { message: "source path must be a non-empty relative path: "@ + path@ }),
{
    let comps = path_components(path);
    let ghost cs = crate::path::comps_view(comps@);
    let mut ok = !path.is_empty();
    let mut k: usize = 0;
    while ok && k < comps.len()
        invariant
            cs == crate::path::comps_view(comps@),
            cs == components(path@),
            0 <= k <= cs.len(),
            ok ==> path@.len() > 0 && forall|j: int| 0 <= j < k ==> #[trigger] cs[j] is Normal,
            !ok ==> !is_plain_relative(path@),
        decreases cs.len() - k,
    {
        match &comps[k] {
            PathComponent::Normal(_) => {},
            _ => {
                assert(!(cs[k as int] is Normal));
                ok = false;
            },
        }
        k += 1;
    }
    if ok {
        Ok(())
    } else {
        let mut msg: Vec<char> = Vec::new();
        append_str(&mut msg, "source path must be a non-empty relative path: ");
        append_str(&mut msg, path);
        Err(HostError::InvalidInput { message: string_of(&msg) })
    }
}

} // verus!

verus! {

/// A file found by discovery, with its metadata-derived fingerprint.
#[derive(Debug, PartialEq, Eq)]
pub struct DiscoveredFile {
    pub root: String,
    pub relative_path: String,
    pub size_bytes: u64,
    pub modified_epoch_ms: Option<u64>,
    pub source_fingerprint: String,
    pub kind_hint: Option<FileKind>,
    pub format_hint: Option<String>,
}

/// A file the index already holds, identified by root, path and fingerprint.
#[derive(Debug, PartialEq, Eq)]
pub struct KnownFileKey {
    pub root: String,
    pub relative_path: String,
    pub source_fingerprint: String,
}

/// What the filesystem reports about a path.
#[derive(Clone, Copy, Debug, PartialEq, Eq)]
pub struct FileMeta {
    pub is_file: bool,
    pub len: u64,
    pub modified_epoch_ms: Option<u64>,
}

/// Whether a key is among the known files.
pub open spec fn is_known(known: Seq<KnownFileKey>, root: Seq<char>, rel: Seq<char>, fp: Seq<char>) -> bool {
    exists|i: int| 0 <= i < known.len() && #[trigger] known[i].root@ == root && known[i].relative_path@ == rel
        && known[i].source_fingerprint@ == fp
}

fn known_contains(known: &Vec<KnownFileKey>, root: &str, rel: &str, fp: &str) -> (r: bool)
    ensures
        r == is_known(known@, root@, rel@, fp@),
{
    let mut i: usize = 0;
    while i < known.len()
        invariant
            0 <= i <= known@.len(),
            forall|k: int| 0 <= k < i ==> !(#[trigger] known@[k].root@ == root@ && known@[k].relative_path@ == rel@
                && known@[k].source_fingerprint@ == fp@),
        decreases known@.len() - i,
    {
        let k = &known[i];
        if crate::text::str_eq(k.root.as_str(), root) && crate::text::str_eq(k.relative_path.as_str(), rel)
            && crate::text::str_eq(k.source_fingerprint.as_str(), fp) {
            return true;
        }
        i += 1;
    }
    false
}

/// The outcome of the metadata checks on a file.
#[derive(Debug, PartialEq, Eq)]
pub enum FileCheck {
    /// Not a regular file, or skipped (and recorded).
    Skipped,
    /// A candidate; `needs_sniff` tells whether its leading bytes must be checked for
    /// binary content before it is accepted.
    Candidate { file: DiscoveredFile, needs_sniff: bool },
}

/// Why a file with the given metadata is skipped, if it is: empty files, unsupported
/// types, and files over their kind's size limit.
pub open spec fn skip_reason(path: Seq<char>, len: u64, explicit_max: Option<u64>) -> Option<SkippedFileReason> {
    if len == 0 {
        Some(SkippedFileReason::Empty)
    } else {
        match detect_spec(path) {
            None => Some(SkippedFileReason::Unsupported),
            Some((kind, _)) => if len > max_file_size_spec(kind, explicit_max) {
                Some(SkippedFileReason::TooLarge)
            } else {
                None
            },
        }
    }
}

/// Applies the metadata checks to one file: missing metadata and non-files are passed
/// over; empty, unsupported and oversized files are recorded as skipped; any other file
/// is a candidate that needs a binary sniff unless it is an image or already known.
pub fn check_file(
    root: &str,
    absolute_path: &str,
    relative_path: &str,
    meta: Option<FileMeta>,
    explicit_max: Option<u64>,
    known: &Vec<KnownFileKey>,
    diagnostics: &mut ScanDiagnostics,
) -> (r: FileCheck)
    requires
        old(diagnostics).skipped_files < usize::MAX,
        old(diagnostics).well_formed(),
    ensures
        final(diagnostics).well_formed(),
        match meta {
            None => r == FileCheck::Skipped && *final(diagnostics) == *old(diagnostics),
            Some(m) => if !m.is_file {
                r == FileCheck::Skipped && *final(diagnostics) == *old(diagnostics)
            } else {
                match skip_reason(absolute_path@, m.len, explicit_max) {
                    Some(reason) => {
                        &&& r == FileCheck::Skipped
                        &&& final(diagnostics).skipped_files == old(diagnostics).skipped_files + 1
                        &&& reason_count(final(diagnostics).skipped_by_reason, reason) == reason_count(old(diagnostics).skipped_by_reason, reason) + 1
                    },
                    None => {
                        let (kind, format) = detect_spec(absolute_path@)->Some_0;
                        let fp = fingerprint_spec(m.len, m.modified_epoch_ms);
                        &&& *final(diagnostics) == *old(diagnostics)
                        &&& r matches FileCheck::Candidate { file, needs_sniff }
                        &&& file.root@ == root@
                        &&& file.relative_path@ == relative_path@
                        &&& file.size_bytes == m.len
                        &&& file.modified_epoch_ms == m.modified_epoch_ms
                        &&& file.source_fingerprint@ == fp
                        &&& file.kind_hint == Some(kind)
                        &&& file.format_hint matches Some(f) && f@ == format
                        &&& needs_sniff == (kind != FileKind::Image && !is_known(known@, root@, relative_path@, fp))
                    },
                }
            },
        },
{
    let m = match meta {
        None => { return FileCheck::Skipped; },
        Some(m) => m,
    };
    if !m.is_file {
        return FileCheck::Skipped;
    }
    if m.len == 0 {
        record_skipped(diagnostics, absolute_path, SkippedFileReason::Empty, Some(0), None);
        return FileCheck::Skipped;
    }
    let detected = match detect_file_type(absolute_path) {
        None => {
            record_skipped(diagnostics, absolute_path, SkippedFileReason::Unsupported, Some(m.len), None);
            return FileCheck::Skipped;
        },
        Some(d) => d,
    };
    let maximum = max_file_size(detected.kind, explicit_max);
    if m.len > maximum {
        record_skipped(diagnostics, absolute_path, SkippedFileReason::TooLarge, Some(m.len), Some(maximum));
        return FileCheck::Skipped;
    }
    let fingerprint = source_fingerprint(m.len, m.modified_epoch_ms);
    let is_image = match detected.kind {
        FileKind::Image => true,
        _ => false,
    };
    let needs_sniff = !is_image && !known_contains(known, root, relative_path, fingerprint.as_str());
    let file = DiscoveredFile {
        root: root.to_owned(),
        relative_path: relative_path.to_owned(),
        size_bytes: m.len,
        modified_epoch_ms: m.modified_epoch_ms,
        source_fingerprint: fingerprint,
        kind_hint: Some(detected.kind),
        format_hint: Some(detected.format),
    };
    FileCheck::Candidate { file, needs_sniff }
}

/// The bytes read from a file, if any.
pub open spec fn leading_view(leading: Option<&[u8]>) -> Option<Seq<u8>> {
    match leading {
        Some(b) => Some(b@),
        None => None,
    }
}

/// Whether a candidate that `needs_sniff` is rejected by the bytes read from it.
pub open spec fn rejects_as_binary(needs_sniff: bool, leading: Option<Seq<u8>>) -> bool {
    needs_sniff && match leading {
        Some(b) => looks_binary(b),
        None => false,
    }
}

/// Finishes a candidate: when it needed a sniff and its leading bytes look binary, it is
/// recorded as skipped; otherwise it is discovered. `leading` holds the bytes read (none
/// when the file could not be opened or read, which never counts as binary).
pub fn accept_candidate(
    file: DiscoveredFile,
    needs_sniff: bool,
    absolute_path: &str,
    leading: Option<&[u8]>,
    diagnostics: &mut ScanDiagnostics,
) -> (r: Option<DiscoveredFile>)
    requires
        old(diagnostics).skipped_files < usize::MAX,
        old(diagnostics).well_formed(),
    ensures
        final(diagnostics).well_formed(),
        rejects_as_binary(needs_sniff, leading_view(leading)) ==> {
            &&& r is None
            &&& final(diagnostics).skipped_files == old(diagnostics).skipped_files + 1
            &&& final(diagnostics).skipped_by_reason.binary == old(diagnostics).skipped_by_reason.binary + 1
        },
        !rejects_as_binary(needs_sniff, leading_view(leading)) ==> r == Some(file) && *final(diagnostics) == *old(diagnostics),
{
    if needs_sniff {
        if let Some(b) = leading {
            if is_likely_binary(b) {
                record_skipped(diagnostics, absolute_path, SkippedFileReason::Binary, Some(file.size_bytes), None);
                return None;
            }
        }
    }
    Some(file)
}

/// What discovery does with a directory entry.
#[derive(Clone, Copy, Debug, PartialEq, Eq)]
pub enum WalkAction {
    Skip,
    Descend,
    Read,
}

/// What an entry is, once symbolic links are resolved: a link is followed only when
/// following is enabled (its target's metadata, or neither kind when that cannot be read).
pub open spec fn entry_kind_spec(is_symlink: bool, follow: bool, is_dir: bool, is_file: bool, target: Option<(bool, bool)>) -> Option<(bool, bool)> {
    if is_symlink {
        if !follow {
            None
        } else {
            match target {
                Some(t) => Some(t),
                None => Some((false, false)),
            }
        }
    } else {
        Some((is_dir, is_file))
    }
}

/// Whether a depth limit stops descending into a subdirectory of an entry at `depth`.
pub open spec fn depth_stops_directory(max_depth: Option<usize>, depth: usize) -> bool {
    max_depth matches Some(m) && depth + 1 >= m
}

/// Whether a depth limit stops reading a file found at `depth`.
pub open spec fn depth_stops_file(max_depth: Option<usize>, depth: usize) -> bool {
    max_depth matches Some(m) && depth + 1 > m
}

/// The kind of a directory entry as discovery sees it (`None`: skip it).
pub fn entry_kind(is_symlink: bool, follow: bool, is_dir: bool, is_file: bool, target: Option<(bool, bool)>) -> (r: Option<(bool, bool)>)
    ensures
        r == entry_kind_spec(is_symlink, follow, is_dir, is_file, target),
{
    if is_symlink {
        if !follow {
            None
        } else {
            match target {
                Some(t) => Some(t),
                None => Some((false, false)),
            }
        }
    } else {
        Some((is_dir, is_file))
    }
}

/// What discovery does with a subdirectory found at `depth` (see [`directory_action`]).
pub open spec fn directory_action_spec(
    recursive: bool,
    max_depth: Option<usize>,
    depth: usize,
    can_scan: bool,
    nested_repository: bool,
    explicitly_included: bool,
    first_visit: bool,
) -> WalkAction {
    if !recursive || depth_stops_directory(max_depth, depth) || !can_scan {
        WalkAction::Skip
    } else if nested_repository && !explicitly_included {
        WalkAction::Skip
    } else if !first_visit {
        WalkAction::Skip
    } else {
        WalkAction::Descend
    }
}

/// What discovery does with a file entry found at `depth` (see [`file_action`]).
pub open spec fn file_action_spec(is_file: bool, max_depth: Option<usize>, depth: usize, can_scan: bool) -> WalkAction {
    if !is_file || depth_stops_file(max_depth, depth) || !can_scan { WalkAction::Skip } else { WalkAction::Read }
}

/// Discovery stays within its limits: it enters a directory only once, only under a
/// recursive root, and only above the depth limit, so that the files directly inside a
/// directory it enters are themselves within the limit; and it reads a file only within
/// the limit.
pub proof fn lemma_walk_respects_depth_and_visits(
    recursive: bool,
    max_depth: Option<usize>,
    depth: usize,
    can_scan: bool,
    nested_repository: bool,
    explicitly_included: bool,
    first_visit: bool,
    is_file: bool,
)
    requires
        depth + 1 < usize::MAX,
    ensures
        directory_action_spec(recursive, max_depth, depth, can_scan, nested_repository, explicitly_included, first_visit)
            == WalkAction::Descend ==> {
            &&& recursive && first_visit && can_scan
            &&& (max_depth matches Some(m) ==> depth + 2 <= m)
            &&& !depth_stops_file(max_depth, (depth + 1) as usize)
        },
        file_action_spec(is_file, max_depth, depth, can_scan) == WalkAction::Read ==> (max_depth matches Some(m) ==> depth + 1 <= m),
{
}

/// Whether discovery may enter a subdirectory found at `depth`: the root must be
/// recursive and the depth limit not reached; then the policy must allow the path
/// (`can_scan`), a nested Git repository must be included explicitly, and the directory
/// must not have been visited (`first_visit`).
pub fn directory_action(
    recursive: bool,
    max_depth: Option<usize>,
    depth: usize,
    can_scan: bool,
    nested_repository: bool,
    explicitly_included: bool,
    first_visit: bool,
) -> (a: WalkAction)
    requires
        depth < usize::MAX,
    ensures
        a == directory_action_spec(recursive, max_depth, depth, can_scan, nested_repository, explicitly_included, first_visit),
{
    let stops = match max_depth {
        Some(m) => depth + 1 >= m,
        None => false,
    };
    if !recursive || stops || !can_scan {
        WalkAction::Skip
    } else if nested_repository && !explicitly_included {
        WalkAction::Skip
    } else if !first_visit {
        WalkAction::Skip
    } else {
        WalkAction::Descend
    }
}

/// Whether discovery reads a file entry found at `depth`.
pub fn file_action(is_file: bool, max_depth: Option<usize>, depth: usize, can_scan: bool) -> (a: WalkAction)
    requires
        depth < usize::MAX,
    ensures
        a == file_action_spec(is_file, max_depth, depth, can_scan),
{
    let stops = match max_depth {
        Some(m) => depth + 1 > m,
        None => false,
    };
    if !is_file || stops || !can_scan {
        WalkAction::Skip
    } else {
        WalkAction::Read
    }
}

} // verus!

verus! {

/// One validated workspace root: its path, its canonical path, whether it is a file, and
/// whether it is scanned recursively.
#[derive(Debug, PartialEq, Eq)]
pub struct ScanDomain {
    pub root_path: String,
    pub canonical_path: String,
    pub is_file: bool,
    pub recursive: bool,
}

/// `prefix` holds the first components of `whole` (`Path::starts_with`).
pub open spec fn comps_prefix(prefix: Seq<Comp>, whole: Seq<Comp>) -> bool {
    prefix.len() <= whole.len() && whole.take(prefix.len() as int) == prefix
}

/// The components of a path's parent (`Path::parent`): none for an empty path or one that
/// ends at the root.
pub open spec fn parent_comps(cs: Seq<Comp>) -> Option<Seq<Comp>> {
    if cs.len() == 0 || cs.last() is Root {
        None
    } else {
        Some(cs.drop_last())
    }
}

/// A recursive directory root holds another directory root below it.
pub open spec fn covers_directory(dir: ScanDomain, child: ScanDomain) -> bool {
    dir.recursive && comps_prefix(components(dir.canonical_path@), components(child.canonical_path@))
}

/// A directory root holds a file root: anywhere below it when recursive, else directly in it.
pub open spec fn covers_file(dir: ScanDomain, file: ScanDomain) -> bool {
    comps_prefix(components(dir.canonical_path@), components(file.canonical_path@))
        && (dir.recursive || parent_comps(components(file.canonical_path@)) == Some(components(dir.canonical_path@)))
}

/// Two roots overlap when they are the same file, when a recursive directory holds the
/// other directory, or when a directory holds the file root.
pub open spec fn overlap_spec(left: ScanDomain, right: ScanDomain, same_file: bool) -> bool {
    if same_file {
        true
    } else if left.is_file && right.is_file {
        false
    } else if !left.is_file && !right.is_file {
        covers_directory(left, right) || covers_directory(right, left)
    } else if left.is_file {
        covers_file(right, left)
    } else {
        covers_file(left, right)
    }
}

fn comp_eq(a: &PathComponent, b: &PathComponent) -> (r: bool)
    ensures
        r == (a@ == b@),
{
    match (a, b) {
        (PathComponent::RootDir, PathComponent::RootDir) => true,
        (PathComponent::CurDir, PathComponent::CurDir) => true,
        (PathComponent::ParentDir, PathComponent::ParentDir) => true,
        (PathComponent::Normal(x), PathComponent::Normal(y)) => crate::text::str_eq(x.as_str(), y.as_str()),
        _ => false,
    }
}

fn is_comps_prefix(prefix: &Vec<PathComponent>, whole: &Vec<PathComponent>, len: usize) -> (r: bool)
    requires
        len <= prefix@.len(),
    ensures
        r == comps_prefix(crate::path::comps_view(prefix@).take(len as int), crate::path::comps_view(whole@)),
{
    let ghost p = crate::path::comps_view(prefix@).take(len as int);
    let ghost w = crate::path::comps_view(whole@);
    if len > whole.len() {
        return false;
    }
    let mut i: usize = 0;
    while i < len
        invariant
            0 <= i <= len <= prefix@.len(),
            len <= whole@.len(),
            p == crate::path::comps_view(prefix@).take(len as int),
            w == crate::path::comps_view(whole@),
            forall|k: int| 0 <= k < i ==> p[k] == w[k],
        decreases len - i,
    {
        if !comp_eq(&prefix[i], &whole[i]) {
            assert(w.take(len as int)[i as int] != p[i as int]);
            return false;
        }
        i += 1;
    }
    assert(w.take(len as int) =~= p);
    true
}

/// Whether two roots overlap; `same_file` tells whether they are the same filesystem object.
pub fn domains_overlap(left: &ScanDomain, right: &ScanDomain, same_file: bool) -> (r: bool)
    ensures
        r == overlap_spec(*left, *right, same_file),
{
    if same_file {
        return true;
    }
    if left.is_file && right.is_file {
        return false;
    }
    let lc = path_components(left.canonical_path.as_str());
    let rc = path_components(right.canonical_path.as_str());
    let ghost lv = crate::path::comps_view(lc@);
    let ghost rv = crate::path::comps_view(rc@);
    assert(lv.take(lv.len() as int) =~= lv);
    assert(rv.take(rv.len() as int) =~= rv);
    if !left.is_file && !right.is_file {
        let l_covers = left.recursive && is_comps_prefix(&lc, &rc, lc.len());
        let r_covers = right.recursive && is_comps_prefix(&rc, &lc, rc.len());
        return l_covers || r_covers;
    }
    let (dir, dc, fc) = if left.is_file { (right, &rc, &lc) } else { (left, &lc, &rc) };
    let ghost dv = crate::path::comps_view(dc@);
    let ghost fv = crate::path::comps_view(fc@);
    assert(dv.take(dv.len() as int) =~= dv);
    if !is_comps_prefix(dc, fc, dc.len()) {
        return false;
    }
    if dir.recursive {
        return true;
    }
    // The file's parent must be the directory itself.
    if fc.len() == 0 {
        return false;
    }
    let is_root_last = match &fc[fc.len() - 1] {
        PathComponent::RootDir => true,
        _ => false,
    };
    if is_root_last {
        return false;
    }
    assert(fv.last() == fc@[fc@.len() - 1]@);
    let same_len = fc.len() - 1 == dc.len();
    if !same_len {
        assert(fv.drop_last().len() != dv.len());
        return false;
    }
    proof {
        assert(fv.drop_last() =~= fv.take(dv.len() as int));
    }
    true
}

/// The rows of a flag matrix.
pub open spec fn same_view(same: Seq<Vec<bool>>) -> Seq<Seq<bool>> {
    same.map_values(|v: Vec<bool>| v@)
}

/// The first pair of roots `(i, j)`, `i < j`, in order, that overlap.
pub open spec fn first_overlap(domains: Seq<ScanDomain>, same: Seq<Seq<bool>>, i: int, j: int) -> bool {
    &&& 0 <= i < j < domains.len()
    &&& overlap_spec(domains[i], domains[j], same[i][j])
    &&& forall|a: int, b: int| 0 <= a < b < domains.len() && (a < i || (a == i && b < j))
        ==> !overlap_spec(domains[a], domains[b], #[trigger] same[a][b])
}

/// Finds the first overlapping pair of roots; `same[i][j]` tells whether roots `i` and `j`
/// are the same filesystem object.
pub fn find_overlap(domains: &Vec<ScanDomain>, same: &Vec<Vec<bool>>) -> (r: Option<(usize, usize)>)
    requires
        same@.len() == domains@.len(),
        forall|i: int| 0 <= i < same@.len() ==> (#[trigger] same@[i])@.len() == domains@.len(),
    ensures
        match r {
            Some((i, j)) => first_overlap(domains@, same_view(same@), i as int, j as int),
            None => forall|a: int, b: int| 0 <= a < b < domains@.len()
                ==> !overlap_spec(domains@[a], domains@[b], #[trigger] same_view(same@)[a][b]),
        },
{
    let ghost sv = same_view(same@);
    let mut i: usize = 0;
    while i < domains.len()
        invariant
            0 <= i <= domains@.len(),
            same@.len() == domains@.len(),
            forall|k: int| 0 <= k < same@.len() ==> (#[trigger] same@[k])@.len() == domains@.len(),
            sv == same_view(same@),
            forall|a: int, b: int| 0 <= a < b < domains@.len() && a < i ==> !overlap_spec(domains@[a], domains@[b], #[trigger] sv[a][b]),
        decreases domains@.len() - i,
    {
        let mut j: usize = i + 1;
        while j < domains.len()
            invariant
                0 <= i < j <= domains@.len(),
                same@.len() == domains@.len(),
                forall|k: int| 0 <= k < same@.len() ==> (#[trigger] same@[k])@.len() == domains@.len(),
                sv == same_view(same@),
                forall|a: int, b: int| 0 <= a < b < domains@.len() && a < i ==> !overlap_spec(domains@[a], domains@[b], #[trigger] sv[a][b]),
                forall|b: int| i < b < j ==> !overlap_spec(domains@[i as int], domains@[b], #[trigger] sv[i as int][b]),
            decreases domains@.len() - j,
        {
            assert(sv[i as int][j as int] == same@[i as int]@[j as int]);
            if domains_overlap(&domains[i], &domains[j], same[i][j]) {
                return Some((i, j));
            }
            j += 1;
        }
        i += 1;
    }
    None
}

/// The message of overlapping roots.
pub open spec fn overlap_message(left: Seq<char>, right: Seq<char>) -> Seq<char> {
    "workspace roots overlap: left="@ + left + " right="@ + right
}

/// Refuses roots of which two overlap, naming the first such pair.
pub fn validate_domains(domains: &Vec<ScanDomain>, same: &Vec<Vec<bool>>) -> (r: Result<(), HostError>)
    requires
        same@.len() == domains@.len(),
        forall|i: int| 0 <= i < same@.len() ==> (#[trigger] same@[i])@.len() == domains@.len(),
    ensures
        r is Ok <==> forall|a: int, b: int| 0 <= a < b < domains@.len()
            ==> !overlap_spec(domains@[a], domains@[b], #[trigger] same_view(same@)[a][b]),
        r matches Err(e) ==> exists|i: int, j: int| first_overlap(domains@, same_view(same@), i, j)
            && e@ == (HostErrorModel::InvalidInput { message: overlap_message(domains@[i].root_path@, domains@[j].root_path@) }),
{
    match find_overlap(domains, same) {
        None => Ok(()),
        Some((i, j)) => {
            let mut msg: Vec<char> = Vec::new();
            append_str(&mut msg, "workspace roots overlap: left=");
            append_str(&mut msg, domains[i].root_path.as_str());
            append_str(&mut msg, " right=");
            append_str(&mut msg, domains[j].root_path.as_str());
            assert(msg@ =~= overlap_message(domains@[i as int].root_path@, domains@[j as int].root_path@));
            Err(HostError::InvalidInput { message: string_of(&msg) })
        },
    }
}

/// The order of discovered files: by root, then by relative path, component-wise.
pub open spec fn discovered_key(f: DiscoveredFile) -> Seq<u64> {
    crate::path::path_key(f.root@) + seq![0u64] + crate::path::path_key(f.relative_path@)
}

impl crate::sort::SortKey for DiscoveredFile {
    open spec fn sort_key(&self) -> Seq<u64> {
        discovered_key(*self)
    }

    fn sort_key_exec(&self) -> (key: Vec<u64>) {
        let mut key = crate::path::path_sort_key(self.root.as_str());
        key.push(0);
        let rel = crate::path::path_sort_key(self.relative_path.as_str());
        let ghost before = key@;
        let mut i: usize = 0;
        while i < rel.len()
            invariant
                0 <= i <= rel@.len(),
                key@ == before + rel@.take(i as int),
            decreases rel@.len() - i,
        {
            key.push(rel[i]);
            assert(rel@.take(i + 1) =~= rel@.take(i as int).push(rel@[i as int]));
            i += 1;
        }
        assert(rel@.take(rel@.len() as int) =~= rel@);
        key
    }
}

/// Sorted files without repeats: a file whose key equals the previous kept file's key
/// (the same root and path) is dropped.
pub open spec fn dedup_by_key(s: Seq<DiscoveredFile>) -> Seq<DiscoveredFile>
    decreases s.len(),
{
    if s.len() == 0 {
        seq![]
    } else {
        let d = dedup_by_key(s.drop_last());
        if d.len() > 0 && discovered_key(d.last()) == discovered_key(s.last()) {
            d
        } else {
            d.push(s.last())
        }
    }
}

/// Orders discovered files by root and path and drops repeats.
pub fn order_discovered(files: Vec<DiscoveredFile>) -> (out: Vec<DiscoveredFile>)
    ensures
        exists|sorted: Seq<DiscoveredFile>| crate::sort::is_stable_sort_of(files@, sorted) && out@ == dedup_by_key(sorted),
{
    let sorted = crate::sort::stable_sort(files);
    let ghost sv = sorted@;
    let total = sorted.len();
    let mut pending = crate::sort::reversed(sorted);
    let mut out: Vec<DiscoveredFile> = Vec::new();
    let mut last_key: Vec<u64> = Vec::new();
    let mut j: usize = 0;
    while pending.len() > 0
        invariant
            sv.len() == total,
            pending@.len() == total - j,
            forall|i: int| 0 <= i < pending@.len() ==> #[trigger] pending@[i] == sv[total - 1 - i],
            out@ == dedup_by_key(sv.take(j as int)),
            out@.len() > 0 ==> last_key@ == discovered_key(out@.last()),
        decreases pending@.len(),
    {
        let f = pending.pop().unwrap();
        assert(f == sv[j as int]);
        assert(sv.take(j + 1).drop_last() =~= sv.take(j as int));
        assert(sv.take(j + 1).last() == f);
        let key = crate::sort::SortKey::sort_key_exec(&f);
        let same = out.len() > 0 && !crate::path::lex_less(key.as_slice(), last_key.as_slice())
            && !crate::path::lex_less(last_key.as_slice(), key.as_slice());
        proof {
            crate::path::lemma_lex_trichotomy(key@, last_key@);
        }
        if !same {
            out.push(f);
            last_key = key;
        }
        j += 1;
    }
    assert(sv.take(total as int) =~= sv);
    out
}

} // verus!
