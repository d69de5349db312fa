//! The directory layout of the catalog under its data directory, and the
//! normalization of game identifiers.  The data directory itself is chosen
//! by the surrounding application; every function here takes it as a plain
//! path string and joins components with `/`.

use vstd::prelude::*;
use vstd::string::StrSliceExecFns;
use crate::text::str_concat;

verus! {

/// `base` and `name` joined by a single path separator: when `base`
/// already ends with one, none is added.
pub open spec fn joined(base: Seq<char>, name: Seq<char>) -> Seq<char> {
    if base.len() > 0 && base.last() == '/' {
        base + name
    } else {
        base + "/"@ + name
    }
}

pub fn join_path(base: &str, name: &str) -> (r: String)
    ensures
        r@ == joined(base@, name@),
{
    let n: usize = base.unicode_len();
    if n > 0 && base.get_char(n - 1) == '/' {
        str_concat(base, name)
    } else {
        let with_sep = str_concat(base, "/");
        str_concat(with_sep.as_str(), name)
    }
}

/// Where game files live under the data directory.
pub fn get_games_directory(data_dir: &str) -> (r: String)
    ensures
        r@ == joined(data_dir@, "Games"@),
{
    join_path(data_dir, "Games")
}

/// Where source-port configurations live under the data directory.
pub fn get_source_ports_directory(data_dir: &str) -> (r: String)
    ensures
        r@ == joined(data_dir@, "SourcePorts"@),
{
    join_path(data_dir, "SourcePorts")
}

/// Where per-game metadata lives under the data directory.
pub fn get_meta_directory(data_dir: &str) -> (r: String)
    ensures
        r@ == joined(data_dir@, "Meta"@),
{
    join_path(data_dir, "Meta")
}

/// A game id with a single trailing `/` (the mark of a directory-backed
/// game) removed.
pub open spec fn normalized_id(id: Seq<char>) -> Seq<char> {
    if id.len() > 0 && id.last() == '/' {
        id.drop_last()
    } else {
        id
    }
}

/// The directory name a game's metadata is filed under: its id without the
/// trailing directory mark.
pub fn normalize_name_from_id(id: &str) -> (r: &str)
    ensures
        r@ == normalized_id(id@),
{
    let n: usize = id.unicode_len();
    if n > 0 && id.get_char(n - 1) == '/' {
        let r = id.substring_char(0, n - 1);
        assert(r@ =~= id@.drop_last());
        r
    } else {
        id
    }
}

/// The file a game's metadata is read from: `<meta>/<game_id>/meta.json`.
pub fn meta_file_path(meta_dir: &str, game_id: &str) -> (r: String)
    ensures
        r@ == joined(joined(meta_dir@, game_id@), "meta.json"@),
{
    let dir = join_path(meta_dir, game_id);
    join_path(dir.as_str(), "meta.json")
}

/// The file a game's metadata is written to: the id is normalized first.
pub fn normalized_meta_file_path(meta_dir: &str, game_id: &str) -> (r: String)
    ensures
        r@ == joined(joined(meta_dir@, normalized_id(game_id@)), "meta.json"@),
{
    let dir = join_path(meta_dir, normalize_name_from_id(game_id));
    join_path(dir.as_str(), "meta.json")
}

/// The file a game's play sessions are kept in:
/// `<meta>/<game_id>/playSessions.json`.
pub fn play_sessions_path(meta_dir: &str, game_id: &str) -> (r: String)
    ensures
        r@ == joined(joined(meta_dir@, game_id@), "playSessions.json"@),
{
    let dir = join_path(meta_dir, game_id);
    join_path(dir.as_str(), "playSessions.json")
}

/// The file a source-port configuration is kept in:
/// `<ports>/<source_port_id>.json`.
pub fn source_port_file_path(ports_dir: &str, source_port_id: &str) -> (r: String)
    ensures
        r@ == joined(ports_dir@, source_port_id@ + ".json"@),
{
    let name = str_concat(source_port_id, ".json");
    join_path(ports_dir, name.as_str())
}

/// The catalog's directory layout, exposed as one type for callers that
/// prefer the grouped form.
pub struct DataSource;

impl DataSource {
    pub fn get_games_directory(data_dir: &str) -> (r: String)
        ensures
            r@ == joined(data_dir@, "Games"@),
    {
        get_games_directory(data_dir)
    }

    pub fn get_source_ports_directory(data_dir: &str) -> (r: String)
        ensures
            r@ == joined(data_dir@, "SourcePorts"@),
    {
        get_source_ports_directory(data_dir)
    }

    pub fn get_meta_directory(data_dir: &str) -> (r: String)
        ensures
            r@ == joined(data_dir@, "Meta"@),
    {
        get_meta_directory(data_dir)
    }
}

} // verus!
