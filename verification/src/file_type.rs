//! File type detection by name and extension, and per-kind size limits.
use vstd::prelude::*;

use crate::common::FileKind;
use crate::path::{components, file_name_spec, path_components, Comp, PathComponent};
use crate::text::{chars_eq, chars_of, string_from_chars};

verus! {

/// Default size limit of code files.
pub const DEFAULT_MAX_CODE_FILE_SIZE_BYTES: u64 = 1048576;
/// Default size limit of text files.
pub const DEFAULT_MAX_TEXT_FILE_SIZE_BYTES: u64 = 268435456;
/// Default size limit of data files.
pub const DEFAULT_MAX_DATA_FILE_SIZE_BYTES: u64 = 16777216;
/// Default size limit of image files.
pub const DEFAULT_MAX_IMAGE_FILE_SIZE_BYTES: u64 = 10485760;

/// A detected file kind and format name.
#[derive(Debug, PartialEq, Eq)]
pub struct DetectedFileType {
    pub kind: FileKind,
    pub format: String,
}

/// The index of the last `.` in `s`, if any.
pub open spec fn last_dot(s: Seq<char>) -> Option<int>
    decreases s.len(),
{
    if s.len() == 0 {
        None
    } else if s.last() == '.' {
        Some(s.len() - 1)
    } else {
        last_dot(s.drop_last())
    }
}

/// The extension of a file name (`Path::extension`): what follows its last `.`, unless
/// there is none or the only `.` starts the name.
pub open spec fn extension_of(name: Seq<char>) -> Option<Seq<char>> {
    if name == seq!['.', '.'] {
        None
    } else {
        match last_dot(name) {
            None => None,
            Some(i) => if i == 0 { None } else { Some(name.skip(i + 1)) },
        }
    }
}

/// ASCII letters folded to lower case (`to_ascii_lowercase`).
pub open spec fn ascii_lower(s: Seq<char>) -> Seq<char> {
    s.map_values(|c: char| if 'A' <= c <= 'Z' { (((c as u32) + 32) as u8) as char } else { c })
}

/// Extensions of files that are never indexed.
pub open spec fn is_binary_extension(e: Seq<char>) -> bool {
    e == "zip"@ || e == "tar"@ || e == "gz"@ || e == "bz2"@ || e == "xz"@ || e == "7z"@ || e == "rar"@ || e == "exe"@ || e == "dll"@ || e == "dylib"@ || e == "so"@ || e == "a"@ || e == "o"@ || e == "obj"@ || e == "wasm"@ || e == "class"@ || e == "jar"@ || e == "pdf"@ || e == "doc"@ || e == "docx"@ || e == "ppt"@ || e == "pptx"@ || e == "xls"@ || e == "xlsx"@ || e == "mp3"@ || e == "mp4"@ || e == "mov"@ || e == "avi"@ || e == "mkv"@ || e == "db"@ || e == "sqlite"@
}

/// The kind and format of an extension (lower-cased; empty when there is none).
pub open spec fn detect_by_extension(e: Seq<char>) -> Option<(FileKind, Seq<char>)> {
    if e == "c"@ {
        Some((FileKind::Code, "c"@))
    } else if e == "cc"@ || e == "cpp"@ || e == "cxx"@ || e == "h"@ || e == "hpp"@ {
        Some((FileKind::Code, "cpp"@))
    } else if e == "go"@ {
        Some((FileKind::Code, "go"@))
    } else if e == "java"@ {
        Some((FileKind::Code, "java"@))
    } else if e == "js"@ || e == "mjs"@ || e == "cjs"@ {
        Some((FileKind::Code, "javascript"@))
    } else if e == "jsx"@ {
        Some((FileKind::Code, "jsx"@))
    } else if e == "ts"@ {
        Some((FileKind::Code, "typescript"@))
    } else if e == "tsx"@ {
        Some((FileKind::Code, "tsx"@))
    } else if e == "py"@ {
        Some((FileKind::Code, "python"@))
    } else if e == "rs"@ {
        Some((FileKind::Code, "rust"@))
    } else if e == "rb"@ {
        Some((FileKind::Code, "ruby"@))
    } else if e == "php"@ {
        Some((FileKind::Code, "php"@))
    } else if e == "swift"@ {
        Some((FileKind::Code, "swift"@))
    } else if e == "kt"@ || e == "kts"@ {
        Some((FileKind::Code, "kotlin"@))
    } else if e == "cs"@ {
        Some((FileKind::Code, "csharp"@))
    } else if e == "scala"@ {
        Some((FileKind::Code, "scala"@))
    } else if e == "sh"@ || e == "bash"@ || e == "zsh"@ {
        Some((FileKind::Code, "bash"@))
    } else if e == "sql"@ {
        Some((FileKind::Code, "sql"@))
    } else if e == "css"@ {
        Some((FileKind::Code, "css"@))
    } else if e == "scss"@ {
        Some((FileKind::Code, "scss"@))
    } else if e == "less"@ {
        Some((FileKind::Code, "less"@))
    } else if e == "vue"@ {
        Some((FileKind::Code, "vue"@))
    } else if e == "svelte"@ {
        Some((FileKind::Code, "svelte"@))
    } else if e == "csv"@ {
        Some((FileKind::Data, "csv"@))
    } else if e == "json"@ || e == "jsonc"@ {
        Some((FileKind::Data, "json"@))
    } else if e == "toml"@ {
        Some((FileKind::Data, "toml"@))
    } else if e == "yaml"@ || e == "yml"@ {
        Some((FileKind::Data, "yaml"@))
    } else if e == "md"@ || e == "mdx"@ {
        Some((FileKind::Text, "markdown"@))
    } else if e == "rst"@ {
        Some((FileKind::Text, "rst"@))
    } else if e == "txt"@ {
        Some((FileKind::Text, "text"@))
    } else if e == "html"@ || e == "htm"@ {
        Some((FileKind::Text, "html"@))
    } else if e == "xml"@ {
        Some((FileKind::Text, "xml"@))
    } else if e == "gif"@ {
        Some((FileKind::Image, "gif"@))
    } else if e == "jpeg"@ || e == "jpg"@ {
        Some((FileKind::Image, "jpeg"@))
    } else if e == "png"@ {
        Some((FileKind::Image, "png"@))
    } else if e == "webp"@ {
        Some((FileKind::Image, "webp"@))
    } else if is_binary_extension(e) {
        None
    } else if e.len() == 0 {
        Some((FileKind::Text, "text"@))
    } else {
        Some((FileKind::Text, e))
    }
}

/// The kind and format of a path: `Dockerfile` and `Makefile` by name, every other file by
/// its lower-cased extension; known binary extensions and paths without a file name give
/// none, unknown extensions are text named after the extension.
pub open spec fn detect_spec(path: Seq<char>) -> Option<(FileKind, Seq<char>)> {
    match file_name_spec(path) {
        None => None,
        Some(name) => if name == "Dockerfile"@ {
            Some((FileKind::Code, "dockerfile"@))
        } else if name == "Makefile"@ {
            Some((FileKind::Code, "makefile"@))
        } else {
            detect_by_extension(match extension_of(name) { Some(x) => ascii_lower(x), None => seq![] })
        },
    }
}

fn file_type(kind: FileKind, format: &str) -> (t: DetectedFileType)
    ensures
        t.kind == kind,
        t.format@ == format@,
{
    DetectedFileType { kind, format: format.to_owned() }
}

/// Whether an extension belongs to a known binary format.
pub fn is_known_binary_extension(e: &[char]) -> (r: bool)
    ensures
        r == is_binary_extension(e@),
{
    chars_eq(e, "zip") || chars_eq(e, "tar") || chars_eq(e, "gz") || chars_eq(e, "bz2") || chars_eq(e, "xz") || chars_eq(e, "7z") || chars_eq(e, "rar") || chars_eq(e, "exe") || chars_eq(e, "dll") || chars_eq(e, "dylib") || chars_eq(e, "so") || chars_eq(e, "a") || chars_eq(e, "o") || chars_eq(e, "obj") || chars_eq(e, "wasm") || chars_eq(e, "class") || chars_eq(e, "jar") || chars_eq(e, "pdf") || chars_eq(e, "doc") || chars_eq(e, "docx") || chars_eq(e, "ppt") || chars_eq(e, "pptx") || chars_eq(e, "xls") || chars_eq(e, "xlsx") || chars_eq(e, "mp3") || chars_eq(e, "mp4") || chars_eq(e, "mov") || chars_eq(e, "avi") || chars_eq(e, "mkv") || chars_eq(e, "db") || chars_eq(e, "sqlite")
}

fn detect_extension(e: &[char]) -> (r: Option<DetectedFileType>)
    ensures
        match r {
            Some(t) => detect_by_extension(e@) == Some((t.kind, t.format@)),
            None => detect_by_extension(e@) is None,
        },
{
    if chars_eq(e, "c") {
        Some(file_type(FileKind::Code, "c"))
    } else if chars_eq(e, "cc") || chars_eq(e, "cpp") || chars_eq(e, "cxx") || chars_eq(e, "h") || chars_eq(e, "hpp") {
        Some(file_type(FileKind::Code, "cpp"))
    } else if chars_eq(e, "go") {
        Some(file_type(FileKind::Code, "go"))
    } else if chars_eq(e, "java") {
        Some(file_type(FileKind::Code, "java"))
    } else if chars_eq(e, "js") || chars_eq(e, "mjs") || chars_eq(e, "cjs") {
        Some(file_type(FileKind::Code, "javascript"))
    } else if chars_eq(e, "jsx") {
        Some(file_type(FileKind::Code, "jsx"))
    } else if chars_eq(e, "ts") {
        Some(file_type(FileKind::Code, "typescript"))
    } else if chars_eq(e, "tsx") {
        Some(file_type(FileKind::Code, "tsx"))
    } else if chars_eq(e, "py") {
        Some(file_type(FileKind::Code, "python"))
    } else if chars_eq(e, "rs") {
        Some(file_type(FileKind::Code, "rust"))
    } else if chars_eq(e, "rb") {
        Some(file_type(FileKind::Code, "ruby"))
    } else if chars_eq(e, "php") {
        Some(file_type(FileKind::Code, "php"))
    } else if chars_eq(e, "swift") {
        Some(file_type(FileKind::Code, "swift"))
    } else if chars_eq(e, "kt") || chars_eq(e, "kts") {
        Some(file_type(FileKind::Code, "kotlin"))
    } else if chars_eq(e, "cs") {
        Some(file_type(FileKind::Code, "csharp"))
    } else if chars_eq(e, "scala") {
        Some(file_type(FileKind::Code, "scala"))
    } else if chars_eq(e, "sh") || chars_eq(e, "bash") || chars_eq(e, "zsh") {
        Some(file_type(FileKind::Code, "bash"))
    } else if chars_eq(e, "sql") {
        Some(file_type(FileKind::Code, "sql"))
    } else if chars_eq(e, "css") {
        Some(file_type(FileKind::Code, "css"))
    } else if chars_eq(e, "scss") {
        Some(file_type(FileKind::Code, "scss"))
    } else if chars_eq(e, "less") {
        Some(file_type(FileKind::Code, "less"))
    } else if chars_eq(e, "vue") {
        Some(file_type(FileKind::Code, "vue"))
    } else if chars_eq(e, "svelte") {
        Some(file_type(FileKind::Code, "svelte"))
    } else if chars_eq(e, "csv") {
        Some(file_type(FileKind::Data, "csv"))
    } else if chars_eq(e, "json") || chars_eq(e, "jsonc") {
        Some(file_type(FileKind::Data, "json"))
    } else if chars_eq(e, "toml") {
        Some(file_type(FileKind::Data, "toml"))
    } else if chars_eq(e, "yaml") || chars_eq(e, "yml") {
        Some(file_type(FileKind::Data, "yaml"))
    } else if chars_eq(e, "md") || chars_eq(e, "mdx") {
        Some(file_type(FileKind::Text, "markdown"))
    } else if chars_eq(e, "rst") {
        Some(file_type(FileKind::Text, "rst"))
    } else if chars_eq(e, "txt") {
        Some(file_type(FileKind::Text, "text"))
    } else if chars_eq(e, "html") || chars_eq(e, "htm") {
        Some(file_type(FileKind::Text, "html"))
    } else if chars_eq(e, "xml") {
        Some(file_type(FileKind::Text, "xml"))
    } else if chars_eq(e, "gif") {
        Some(file_type(FileKind::Image, "gif"))
    } else if chars_eq(e, "jpeg") || chars_eq(e, "jpg") {
        Some(file_type(FileKind::Image, "jpeg"))
    } else if chars_eq(e, "png") {
        Some(file_type(FileKind::Image, "png"))
    } else if chars_eq(e, "webp") {
        Some(file_type(FileKind::Image, "webp"))
    } else if is_known_binary_extension(e) {
        None
    } else if e.len() == 0 {
        Some(file_type(FileKind::Text, "text"))
    } else {
        Some(DetectedFileType { kind: FileKind::Text, format: string_from_chars(e) })
    }
}

fn last_dot_index(s: &[char]) -> (r: Option<usize>)
    ensures
        match r {
            Some(i) => last_dot(s@) == Some(i as int) && i < s@.len(),
            None => last_dot(s@) is None,
        },
{
    let mut k = s.len();
    assert(s@.take(k as int) =~= s@);
    while k > 0 && s[k - 1] != '.'
        invariant
            k <= s@.len(),
            last_dot(s@) == last_dot(s@.take(k as int)),
        decreases k,
    {
        assert(s@.take(k as int).drop_last() =~= s@.take(k - 1));
        k -= 1;
    }
    if k == 0 {
        None
    } else {
        assert(s@.take(k as int).last() == '.');
        Some(k - 1)
    }
}

fn lower_ascii(s: &[char]) -> (out: Vec<char>)
    ensures
        out@ == ascii_lower(s@),
{
    let mut out: Vec<char> = Vec::new();
    let mut i: usize = 0;
    while i < s.len()
        invariant
            0 <= i <= s@.len(),
            out@ == ascii_lower(s@.take(i as int)),
        decreases s@.len() - i,
    {
        let c = s[i];
        let d = if 'A' <= c && c <= 'Z' { (((c as u32) + 32) as u8) as char } else { c };
        out.push(d);
        assert(ascii_lower(s@.take(i + 1)) =~= ascii_lower(s@.take(i as int)).push(d));
        i += 1;
    }
    assert(s@.take(s@.len() as int) =~= s@);
    out
}

/// The kind and format of a file (see [`detect_spec`]).
pub fn detect_file_type(path: &str) -> (r: Option<DetectedFileType>)
    ensures
        match r {
            Some(t) => detect_spec(path@) == Some((t.kind, t.format@)),
            None => detect_spec(path@) is None,
        },
{
    let comps = path_components(path);
    let ghost cs = crate::path::comps_view(comps@);
    if comps.len() == 0 {
        return None;
    }
    let last = &comps[comps.len() - 1];
    assert(cs.last() == last@);
    let name = match last {
        PathComponent::Normal(n) => chars_of(n.as_str()),
        _ => { return None; },
    };
    if chars_eq(name.as_slice(), "Dockerfile") {
        return Some(file_type(FileKind::Code, "dockerfile"));
    }
    if chars_eq(name.as_slice(), "Makefile") {
        return Some(file_type(FileKind::Code, "makefile"));
    }
    let is_dotdot = name.len() == 2 && name[0] == '.' && name[1] == '.';
    proof {
        if name@ == seq!['.', '.'] {
            assert(name@.len() == 2 && name@[0] == '.' && name@[1] == '.');
        }
        if is_dotdot {
            assert(name@ =~= seq!['.', '.']);
        }
    }
    let ext: Vec<char> = if is_dotdot {
        Vec::new()
    } else {
        match last_dot_index(name.as_slice()) {
            None => Vec::new(),
            Some(i) => if i == 0 {
                Vec::new()
            } else {
                let raw = crate::text::slice_chars(name.as_slice(), i + 1, name.len());
                assert(raw@ =~= name@.skip(i + 1));
                lower_ascii(raw.as_slice())
            },
        }
    };
    proof {
        if extension_of(name@) is None {
            assert(ext@ =~= seq![]);
        }
    }
    detect_extension(ext.as_slice())
}

/// The size limit of a file kind: the explicit limit when given, else the kind's default.
pub open spec fn max_file_size_spec(kind: FileKind, explicit: Option<u64>) -> u64 {
    match explicit {
        Some(v) => v,
        None => match kind {
            FileKind::Code => DEFAULT_MAX_CODE_FILE_SIZE_BYTES,
            FileKind::Text => DEFAULT_MAX_TEXT_FILE_SIZE_BYTES,
            FileKind::Data => DEFAULT_MAX_DATA_FILE_SIZE_BYTES,
            FileKind::Image => DEFAULT_MAX_IMAGE_FILE_SIZE_BYTES,
        },
    }
}

/// The size limit of a file kind.
pub fn max_file_size(kind: FileKind, explicit: Option<u64>) -> (n: u64)
    ensures
        n == max_file_size_spec(kind, explicit),
{
    match explicit {
        Some(v) => v,
        None => match kind {
            FileKind::Code => DEFAULT_MAX_CODE_FILE_SIZE_BYTES,
            FileKind::Text => DEFAULT_MAX_TEXT_FILE_SIZE_BYTES,
            FileKind::Data => DEFAULT_MAX_DATA_FILE_SIZE_BYTES,
            FileKind::Image => DEFAULT_MAX_IMAGE_FILE_SIZE_BYTES,
        },
    }
}

} // verus!
