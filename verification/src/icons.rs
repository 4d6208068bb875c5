//! Icon choices: the icon of a device's operating system, and the icon of
//! a file in the file panel (a folder picture, a themed icon, or a
//! generated badge with the file's kind and a short label).
use vstd::prelude::*;
use crate::text::{chars_of, string_from_chars, str_eq, split_on, split_chars, lemma_split_nonempty, lowercase, to_lowercase, ends_with, has_suffix};

verus! {

/// The icon name of an operating system.
pub fn os_icon_name(os: &str) -> (res: &'static str)
    ensures
        res@ == (if os@ == "macos"@ || os@ == "darwin"@ { "os-mac"@ }
            else if os@ == "windows"@ { "os-win"@ }
            else if os@ == "android"@ { "os-android"@ }
            else if os@ == "ios"@ { "os-iphone"@ }
            else if os@ == "linux"@ { "os-linux"@ }
            else { "desktop-pc"@ }),
{
    if str_eq(os, "macos") || str_eq(os, "darwin") {
        "os-mac"
    } else if str_eq(os, "windows") {
        "os-win"
    } else if str_eq(os, "android") {
        "os-android"
    } else if str_eq(os, "ios") {
        "os-iphone"
    } else if str_eq(os, "linux") {
        "os-linux"
    } else {
        "desktop-pc"
    }
}

/// The display name of an operating system.
pub open spec fn pretty_os(os: Seq<char>) -> Seq<char> {
    if os == "macos"@ || os == "darwin"@ { "macOS"@ }
    else if os == "windows"@ { "Windows"@ }
    else if os == "android"@ { "Android"@ }
    else if os == "ios"@ { "iOS"@ }
    else if os == "linux"@ { "Linux"@ }
    else { "Desktop"@ }
}

/// The display name of an operating system.
pub fn os_pretty(os: &str) -> (res: &'static str)
    ensures
        res@ == pretty_os(os@),
{
    if str_eq(os, "macos") || str_eq(os, "darwin") {
        "macOS"
    } else if str_eq(os, "windows") {
        "Windows"
    } else if str_eq(os, "android") {
        "Android"
    } else if str_eq(os, "ios") {
        "iOS"
    } else if str_eq(os, "linux") {
        "Linux"
    } else {
        "Desktop"
    }
}

/// The large desktop picture for an operating system.
pub fn desktop_hero_name(os: &str) -> (res: &'static str)
    ensures
        res@ == (if os@ == "macos"@ || os@ == "darwin"@ { "desktop-mac"@ } else { "desktop-pc"@ }),
{
    if str_eq(os, "macos") || str_eq(os, "darwin") { "desktop-mac" } else { "desktop-pc" }
}

/// The kinds of file badge.
#[derive(Clone, Copy, Debug, PartialEq, Eq, Structural)]
pub enum FileKind {
    Archive,
    Document,
    Photo,
    Developer,
    Media,
    ConfigText,
    Executable,
}

/// The icon of a file.
pub enum FileIcon {
    /// A picture shipped with the application.
    Resource(String),
    /// An icon of the icon theme.
    IconName(String),
    /// A generated badge of a kind, with a label, drawn at a size in
    /// pixels.
    Generated(FileKind, String, u32),
}

/// The extension of a name as the icon chooser reads it: the lowercase
/// text after the last `.` (the whole name when there is none).
pub open spec fn icon_ext(name: Seq<char>) -> Seq<char> {
    lowercase(split_on(name, '.').last())
}

/// ASCII letters made uppercase.
pub open spec fn ascii_upper(s: Seq<char>) -> Seq<char> {
    s.map_values(|c: char| if 97 <= (c as u32) <= 122 { ((c as u32) - 32) as char } else { c })
}

/// Whether an extension marks an archive.
pub open spec fn is_archive_ext(e: Seq<char>) -> bool {
    e == "zip"@ || e == "rar"@ || e == "7z"@ || e == "tar"@ || e == "gz"@ || e == "tgz"@
}

/// Whether an extension marks an office document.
pub open spec fn is_document_ext(e: Seq<char>) -> bool {
    e == "pdf"@ || e == "doc"@ || e == "docx"@ || e == "xls"@ || e == "xlsx"@ || e == "ppt"@ || e == "pptx"@
}

/// Whether an extension marks a picture.
pub open spec fn is_photo_ext(e: Seq<char>) -> bool {
    e == "png"@ || e == "jpg"@ || e == "jpeg"@ || e == "gif"@ || e == "webp"@ || e == "svg"@
}

/// Whether an extension marks a camera raw picture.
pub open spec fn is_raw_ext(e: Seq<char>) -> bool {
    e == "nef"@ || e == "cr2"@ || e == "cr3"@ || e == "arw"@ || e == "dng"@ || e == "raf"@ || e == "orf"@
        || e == "rw2"@ || e == "pef"@
}

/// Whether an extension marks source code.
pub open spec fn is_code_ext(e: Seq<char>) -> bool {
    e == "rs"@ || e == "js"@ || e == "ts"@ || e == "html"@ || e == "css"@ || e == "go"@ || e == "py"@
        || e == "cpp"@ || e == "c"@ || e == "h"@ || e == "cs"@ || e == "java"@
}

/// Whether an extension marks audio or video.
pub open spec fn is_media_ext(e: Seq<char>) -> bool {
    e == "mp3"@ || e == "wav"@ || e == "ogg"@ || e == "flac"@ || e == "mp4"@ || e == "mkv"@ || e == "avi"@
        || e == "mov"@
}

/// Whether an extension marks plain text or configuration.
pub open spec fn is_text_ext(e: Seq<char>) -> bool {
    e == "txt"@ || e == "ini"@ || e == "conf"@ || e == "toml"@ || e == "yaml"@ || e == "yml"@ || e == "json"@
}

/// The badge a file gets, if any: its kind and label.
pub open spec fn badge(name: Seq<char>, permissions: Option<u32>) -> Option<(FileKind, Seq<char>)> {
    let e = icon_ext(name);
    if ends_with(lowercase(name), ".tar.gz"@) {
        Some((FileKind::Archive, "TAR"@))
    } else if is_archive_ext(e) {
        Some((FileKind::Archive, ascii_upper(e)))
    } else if is_document_ext(e) {
        Some((FileKind::Document, ascii_upper(e)))
    } else if is_photo_ext(e) {
        Some((FileKind::Photo, if e == "jpeg"@ { "JPG"@ } else { ascii_upper(e) }))
    } else if is_raw_ext(e) {
        Some((FileKind::Photo, "RAW"@))
    } else if is_code_ext(e) {
        Some((FileKind::Developer, ascii_upper(e)))
    } else if is_media_ext(e) {
        Some((FileKind::Media, ascii_upper(e)))
    } else if is_text_ext(e) {
        Some((FileKind::ConfigText, ascii_upper(e)))
    } else if e == "apk"@ {
        Some((FileKind::Executable, "APK"@))
    } else if e == "exe"@ {
        Some((FileKind::Executable, "EXE"@))
    } else if e == "dll"@ {
        Some((FileKind::Developer, "DLL"@))
    } else {
        match permissions {
            Some(mode) => if mode & 0o111 != 0 { Some((FileKind::Executable, "BIN"@)) } else { None },
            None => None,
        }
    }
}

/// The themed icon of a file without a badge, in the small list size.
pub open spec fn themed_icon(e: Seq<char>) -> Seq<char> {
    if e == "png"@ || e == "jpg"@ || e == "jpeg"@ || e == "gif"@ || e == "svg"@ || e == "webp"@ || is_raw_ext(e) {
        "image-x-generic"@
    } else if e == "mp4"@ || e == "mkv"@ || e == "avi"@ || e == "webm"@ || e == "mov"@ {
        "video-x-generic"@
    } else if e == "mp3"@ || e == "wav"@ || e == "ogg"@ || e == "flac"@ {
        "audio-x-generic"@
    } else if e == "rs"@ || e == "js"@ || e == "ts"@ || e == "html"@ || e == "css"@ || e == "json"@ || e == "toml"@
        || e == "yml"@ || e == "txt"@ || e == "ini"@ {
        "text-x-script"@
    } else if e == "pdf"@ {
        "application-pdf"@
    } else if e == "exe"@ || e == "sh"@ || e == "bash"@ || e == "bin"@ {
        "application-x-executable"@
    } else {
        "text-x-generic"@
    }
}

/// What the icon of a file is: the folder picture for a folder; a badge
/// when the file has one; in the 30-pixel list size a themed icon (the
/// plain file picture for text and generic files); otherwise the plain
/// file picture.
pub open spec fn file_icon_spec(name: Seq<char>, is_dir: bool, size: u32, permissions: Option<u32>, icon: FileIcon) -> bool {
    if is_dir {
        icon matches FileIcon::Resource(r) && r@ == "/com/fm-ui/gtk/folder.svg"@
    } else {
        match badge(name, permissions) {
            Some((kind, label)) => icon matches FileIcon::Generated(k, l, s) && k == kind && l@ == label && s == size,
            None => if size == 30 && !(themed_icon(icon_ext(name)) == "text-x-generic"@ || themed_icon(icon_ext(name)) == "text-x-script"@) {
                icon matches FileIcon::IconName(n) && n@ == themed_icon(icon_ext(name))
            } else {
                icon matches FileIcon::Resource(r) && r@ == "/com/fm-ui/gtk/file.svg"@
            },
        }
    }
}

fn upper_ascii(s: &str) -> (res: String)
    ensures
        res@ == ascii_upper(s@),
{
    let cs = chars_of(s);
    let mut out: Vec<char> = Vec::new();
    let mut i: usize = 0;
    while i < cs.len()
        invariant
            i <= cs@.len(),
            out@ == ascii_upper(cs@.take(i as int)),
        decreases cs.len() - i,
    {
        let c = cs[i];
        let u = c as u32;
        let d = if 97 <= u && u <= 122 { ((u - 32) as u8) as char } else { c };
        out.push(d);
        assert(ascii_upper(cs@.take(i + 1)) =~= ascii_upper(cs@.take(i as int)).push(d));
        i += 1;
    }
    assert(cs@.take(cs@.len() as int) =~= cs@);
    string_from_chars(out.as_slice())
}

fn one_of(e: &str, opts: &[&str]) -> (res: bool)
    ensures
        res == exists|i: int| 0 <= i < opts@.len() && opts@[i]@ == e@,
{
    let mut i: usize = 0;
    while i < opts.len()
        invariant
            i <= opts@.len(),
            forall|k: int| 0 <= k < i ==> opts@[k]@ != e@,
        decreases opts.len() - i,
    {
        if str_eq(opts[i], e) {
            return true;
        }
        i += 1;
    }
    false
}

/// The extension the icon chooser reads from a name.
pub fn icon_extension(name: &str) -> (res: String)
    ensures
        res@ == icon_ext(name@),
{
    let cs = chars_of(name);
    let parts = split_chars(cs.as_slice(), '.');
    proof { lemma_split_nonempty(cs@, '.'); }
    let last = string_from_chars(parts[parts.len() - 1].as_slice());
    to_lowercase(last.as_str())
}

/// The icon of a file in the file panel; `size` is the icon size in
/// pixels.
pub fn get_file_icon(name: &str, is_dir: bool, size: u32, permissions: Option<u32>) -> (res: FileIcon)
    ensures
        file_icon_spec(name@, is_dir, size, permissions, res),
{
    if is_dir {
        return FileIcon::Resource("/com/fm-ui/gtk/folder.svg".to_owned());
    }
    let ext = icon_extension(name);
    let e = ext.as_str();
    let lower = to_lowercase(name);
    let lc = chars_of(lower.as_str());
    let targz = chars_of(".tar.gz");
    let ghost ev = e@;
    let archive = ["zip", "rar", "7z", "tar", "gz", "tgz"];
    let document = ["pdf", "doc", "docx", "xls", "xlsx", "ppt", "pptx"];
    let photo = ["png", "jpg", "jpeg", "gif", "webp", "svg"];
    let raw = ["nef", "cr2", "cr3", "arw", "dng", "raf", "orf", "rw2", "pef"];
    let code = ["rs", "js", "ts", "html", "css", "go", "py", "cpp", "c", "h", "cs", "java"];
    let media = ["mp3", "wav", "ogg", "flac", "mp4", "mkv", "avi", "mov"];
    let text = ["txt", "ini", "conf", "toml", "yaml", "yml", "json"];
    proof {
        assert(is_archive_ext(ev) == exists|i: int| 0 <= i < archive@.len() && archive@[i]@ == ev) by {
            if is_archive_ext(ev) {
                if ev == "zip"@ { assert(archive@[0]@ == ev); }
                else if ev == "rar"@ { assert(archive@[1]@ == ev); }
                else if ev == "7z"@ { assert(archive@[2]@ == ev); }
                else if ev == "tar"@ { assert(archive@[3]@ == ev); }
                else if ev == "gz"@ { assert(archive@[4]@ == ev); }
                else { assert(archive@[5]@ == ev); }
            }
        }
        assert(is_document_ext(ev) == exists|i: int| 0 <= i < document@.len() && document@[i]@ == ev) by {
            if is_document_ext(ev) {
                if ev == "pdf"@ { assert(document@[0]@ == ev); }
                else if ev == "doc"@ { assert(document@[1]@ == ev); }
                else if ev == "docx"@ { assert(document@[2]@ == ev); }
                else if ev == "xls"@ { assert(document@[3]@ == ev); }
                else if ev == "xlsx"@ { assert(document@[4]@ == ev); }
                else if ev == "ppt"@ { assert(document@[5]@ == ev); }
                else { assert(document@[6]@ == ev); }
            }
        }
        assert(is_photo_ext(ev) == exists|i: int| 0 <= i < photo@.len() && photo@[i]@ == ev) by {
            if is_photo_ext(ev) {
                if ev == "png"@ { assert(photo@[0]@ == ev); }
                else if ev == "jpg"@ { assert(photo@[1]@ == ev); }
                else if ev == "jpeg"@ { assert(photo@[2]@ == ev); }
                else if ev == "gif"@ { assert(photo@[3]@ == ev); }
                else if ev == "webp"@ { assert(photo@[4]@ == ev); }
                else { assert(photo@[5]@ == ev); }
            }
        }
        assert(is_raw_ext(ev) == exists|i: int| 0 <= i < raw@.len() && raw@[i]@ == ev) by {
            if is_raw_ext(ev) {
                if ev == "nef"@ { assert(raw@[0]@ == ev); }
                else if ev == "cr2"@ { assert(raw@[1]@ == ev); }
                else if ev == "cr3"@ { assert(raw@[2]@ == ev); }
                else if ev == "arw"@ { assert(raw@[3]@ == ev); }
                else if ev == "dng"@ { assert(raw@[4]@ == ev); }
                else if ev == "raf"@ { assert(raw@[5]@ == ev); }
                else if ev == "orf"@ { assert(raw@[6]@ == ev); }
                else if ev == "rw2"@ { assert(raw@[7]@ == ev); }
                else { assert(raw@[8]@ == ev); }
            }
        }
        assert(is_code_ext(ev) == exists|i: int| 0 <= i < code@.len() && code@[i]@ == ev) by {
            if is_code_ext(ev) {
                if ev == "rs"@ { assert(code@[0]@ == ev); }
                else if ev == "js"@ { assert(code@[1]@ == ev); }
                else if ev == "ts"@ { assert(code@[2]@ == ev); }
                else if ev == "html"@ { assert(code@[3]@ == ev); }
                else if ev == "css"@ { assert(code@[4]@ == ev); }
                else if ev == "go"@ { assert(code@[5]@ == ev); }
                else if ev == "py"@ { assert(code@[6]@ == ev); }
                else if ev == "cpp"@ { assert(code@[7]@ == ev); }
                else if ev == "c"@ { assert(code@[8]@ == ev); }
                else if ev == "h"@ { assert(code@[9]@ == ev); }
                else if ev == "cs"@ { assert(code@[10]@ == ev); }
                else { assert(code@[11]@ == ev); }
            }
        }
        assert(is_media_ext(ev) == exists|i: int| 0 <= i < media@.len() && media@[i]@ == ev) by {
            if is_media_ext(ev) {
                if ev == "mp3"@ { assert(media@[0]@ == ev); }
                else if ev == "wav"@ { assert(media@[1]@ == ev); }
                else if ev == "ogg"@ { assert(media@[2]@ == ev); }
                else if ev == "flac"@ { assert(media@[3]@ == ev); }
                else if ev == "mp4"@ { assert(media@[4]@ == ev); }
                else if ev == "mkv"@ { assert(media@[5]@ == ev); }
                else if ev == "avi"@ { assert(media@[6]@ == ev); }
                else { assert(media@[7]@ == ev); }
            }
        }
        assert(is_text_ext(ev) == exists|i: int| 0 <= i < text@.len() && text@[i]@ == ev) by {
            if is_text_ext(ev) {
                if ev == "txt"@ { assert(text@[0]@ == ev); }
                else if ev == "ini"@ { assert(text@[1]@ == ev); }
                else if ev == "conf"@ { assert(text@[2]@ == ev); }
                else if ev == "toml"@ { assert(text@[3]@ == ev); }
                else if ev == "yaml"@ { assert(text@[4]@ == ev); }
                else if ev == "yml"@ { assert(text@[5]@ == ev); }
                else { assert(text@[6]@ == ev); }
            }
        }
    }
    let badge_of: Option<(FileKind, String)> = if has_suffix(lc.as_slice(), targz.as_slice()) {
        Some((FileKind::Archive, "TAR".to_owned()))
    } else if one_of(e, &archive) {
        Some((FileKind::Archive, upper_ascii(e)))
    } else if one_of(e, &document) {
        Some((FileKind::Document, upper_ascii(e)))
    } else if one_of(e, &photo) {
        Some((FileKind::Photo, if str_eq(e, "jpeg") { "JPG".to_owned() } else { upper_ascii(e) }))
    } else if one_of(e, &raw) {
        Some((FileKind::Photo, "RAW".to_owned()))
    } else if one_of(e, &code) {
        Some((FileKind::Developer, upper_ascii(e)))
    } else if one_of(e, &media) {
        Some((FileKind::Media, upper_ascii(e)))
    } else if one_of(e, &text) {
        Some((FileKind::ConfigText, upper_ascii(e)))
    } else if str_eq(e, "apk") {
        Some((FileKind::Executable, "APK".to_owned()))
    } else if str_eq(e, "exe") {
        Some((FileKind::Executable, "EXE".to_owned()))
    } else if str_eq(e, "dll") {
        Some((FileKind::Developer, "DLL".to_owned()))
    } else {
        match permissions {
            Some(mode) => if mode & 0o111 != 0 { Some((FileKind::Executable, "BIN".to_owned())) } else { None },
            None => None,
        }
    };
    match badge_of {
        Some((kind, label)) => FileIcon::Generated(kind, label, size),
        None => {
            if size == 30 {
                let icon = themed_icon_exec(e);
                if str_eq(icon, "text-x-generic") || str_eq(icon, "text-x-script") {
                    FileIcon::Resource("/com/fm-ui/gtk/file.svg".to_owned())
                } else {
                    FileIcon::IconName(icon.to_owned())
                }
            } else {
                FileIcon::Resource("/com/fm-ui/gtk/file.svg".to_owned())
            }
        },
    }
}

fn themed_icon_exec(e: &str) -> (res: &'static str)
    ensures
        res@ == themed_icon(e@),
{
    let raw = ["nef", "cr2", "cr3", "arw", "dng", "raf", "orf", "rw2", "pef"];
    let ghost ev = e@;
    proof {
        assert(is_raw_ext(ev) == exists|i: int| 0 <= i < raw@.len() && raw@[i]@ == ev) by {
            if is_raw_ext(ev) {
                if ev == "nef"@ { assert(raw@[0]@ == ev); }
                else if ev == "cr2"@ { assert(raw@[1]@ == ev); }
                else if ev == "cr3"@ { assert(raw@[2]@ == ev); }
                else if ev == "arw"@ { assert(raw@[3]@ == ev); }
                else if ev == "dng"@ { assert(raw@[4]@ == ev); }
                else if ev == "raf"@ { assert(raw@[5]@ == ev); }
                else if ev == "orf"@ { assert(raw@[6]@ == ev); }
                else if ev == "rw2"@ { assert(raw@[7]@ == ev); }
                else { assert(raw@[8]@ == ev); }
            }
        }
    }
    if str_eq(e, "png") || str_eq(e, "jpg") || str_eq(e, "jpeg") || str_eq(e, "gif") || str_eq(e, "svg")
        || str_eq(e, "webp") || one_of(e, &raw) {
        "image-x-generic"
    } else if str_eq(e, "mp4") || str_eq(e, "mkv") || str_eq(e, "avi") || str_eq(e, "webm") || str_eq(e, "mov") {
        "video-x-generic"
    } else if str_eq(e, "mp3") || str_eq(e, "wav") || str_eq(e, "ogg") || str_eq(e, "flac") {
        "audio-x-generic"
    } else if str_eq(e, "rs") || str_eq(e, "js") || str_eq(e, "ts") || str_eq(e, "html") || str_eq(e, "css")
        || str_eq(e, "json") || str_eq(e, "toml") || str_eq(e, "yml") || str_eq(e, "txt") || str_eq(e, "ini") {
        "text-x-script"
    } else if str_eq(e, "pdf") {
        "application-pdf"
    } else if str_eq(e, "exe") || str_eq(e, "sh") || str_eq(e, "bash") || str_eq(e, "bin") {
        "application-x-executable"
    } else {
        "text-x-generic"
    }
}

/// Whether the grid may show a thumbnail for a row: files only, and not
/// archives or PDF documents.
pub fn wants_thumbnail(name: &str, is_dir: bool) -> (res: bool)
    ensures
        res == (!is_dir && !(ends_with(lowercase(name@), ".tar.gz"@)
            || icon_ext(name@) == "zip"@ || icon_ext(name@) == "tar"@ || icon_ext(name@) == "tgz"@
            || icon_ext(name@) == "gz"@ || icon_ext(name@) == "rar"@ || icon_ext(name@) == "7z"@
            || icon_ext(name@) == "pdf"@)),
{
    if is_dir {
        return false;
    }
    let lower = to_lowercase(name);
    let lc = chars_of(lower.as_str());
    let targz = chars_of(".tar.gz");
    let ext = icon_extension(name);
    let e = ext.as_str();
    let skip = has_suffix(lc.as_slice(), targz.as_slice()) || str_eq(e, "zip") || str_eq(e, "tar")
        || str_eq(e, "tgz") || str_eq(e, "gz") || str_eq(e, "rar") || str_eq(e, "7z") || str_eq(e, "pdf");
    !skip
}

} // verus!
