//! Classification of directory entries and file names: which entries of the
//! games directory are games, which files of the source-ports directory are
//! configurations, which imported files are archives, and how an absolute
//! game-file path is made relative to the games directory.

use vstd::prelude::*;
use vstd::string::StrSliceExecFns;
use crate::text::{
    ends_with_ignore_ascii_case, is_prefix, is_suffix, str_concat, str_ends_with,
    str_ends_with_ignore_ascii_case, str_starts_with,
};

verus! {

/// The game id an entry of the games directory stands for: hidden entries
/// are skipped, and a directory-backed game is marked with a trailing `/`.
pub open spec fn entry_game_id(name: Seq<char>, is_dir: bool) -> Option<Seq<char>> {
    if name.len() > 0 && name[0] == '.' {
        None
    } else if is_dir {
        Some(name + "/"@)
    } else {
        Some(name)
    }
}

pub fn game_id_for_entry(name: &str, is_dir: bool) -> (r: Option<String>)
    ensures
        r.deep_view() == entry_game_id(name@, is_dir),
{
    let n: usize = name.unicode_len();
    if n > 0 && name.get_char(0) == '.' {
        None
    } else if is_dir {
        Some(str_concat(name, "/"))
    } else {
        Some(name.to_owned())
    }
}

/// The source-port id a file of the source-ports directory stands for:
/// hidden files and files without the `.json` suffix are skipped.
pub open spec fn source_port_id_of_file(name: Seq<char>) -> Option<Seq<char>> {
    if name.len() > 0 && name[0] == '.' {
        None
    } else if is_suffix(name, ".json"@) {
        Some(name.subrange(0, name.len() - ".json"@.len()))
    } else {
        None
    }
}

pub fn source_port_id_from_file_name(name: &str) -> (r: Option<String>)
    ensures
        r.deep_view() == source_port_id_of_file(name@),
{
    let n: usize = name.unicode_len();
    if n > 0 && name.get_char(0) == '.' {
        return None;
    }
    if str_ends_with(name, ".json") {
        proof {
            reveal_strlit(".json");
        }
        let stem = name.substring_char(0, n - 5);
        Some(stem.to_owned())
    } else {
        None
    }
}

/// `path` made relative to `base`: the part after `base` and one separator.
pub open spec fn relative_to(path: Seq<char>, base: Seq<char>) -> Option<Seq<char>> {
    if is_prefix(path, base + "/"@) {
        Some(path.subrange(base.len() as int + 1, path.len() as int))
    } else {
        None
    }
}

pub fn strip_path_prefix(path: &str, base: &str) -> (r: Option<String>)
    ensures
        r.deep_view() == relative_to(path@, base@),
{
    let with_sep = str_concat(base, "/");
    if str_starts_with(path, with_sep.as_str()) {
        proof {
            reveal_strlit("/");
        }
        let n: usize = path.unicode_len();
        let m: usize = with_sep.as_str().unicode_len();
        let rest = path.substring_char(m, n);
        Some(rest.to_owned())
    } else {
        None
    }
}

/// The name of a bundled helper executable: on Windows the `.exe` suffix
/// is appended, elsewhere the name stands as given.  Which platform is
/// running is the caller's to say.
pub fn add_exe_on_windows(exe: &str, is_windows: bool) -> (r: String)
    ensures
        r@ == if is_windows {
            exe@ + ".exe"@
        } else {
            exe@
        },
{
    if is_windows {
        str_concat(exe, ".exe")
    } else {
        exe.to_owned()
    }
}

/// Whether an imported file is an archive, judged by its extension
/// (letter case is ignored).
pub open spec fn is_archive_name(name: Seq<char>) -> bool {
    ||| ends_with_ignore_ascii_case(name, ".zip"@)
    ||| ends_with_ignore_ascii_case(name, ".7z"@)
    ||| ends_with_ignore_ascii_case(name, ".rar"@)
    ||| ends_with_ignore_ascii_case(name, ".gz"@)
    ||| ends_with_ignore_ascii_case(name, ".bz2"@)
    ||| ends_with_ignore_ascii_case(name, ".xz"@)
    ||| ends_with_ignore_ascii_case(name, ".zst"@)
}

pub fn is_archive_path(name: &str) -> (r: bool)
    ensures
        r == is_archive_name(name@),
{
    str_ends_with_ignore_ascii_case(name, ".zip")
        || str_ends_with_ignore_ascii_case(name, ".7z")
        || str_ends_with_ignore_ascii_case(name, ".rar")
        || str_ends_with_ignore_ascii_case(name, ".gz")
        || str_ends_with_ignore_ascii_case(name, ".bz2")
        || str_ends_with_ignore_ascii_case(name, ".xz")
        || str_ends_with_ignore_ascii_case(name, ".zst")
}

} // verus!
