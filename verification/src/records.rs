//! The persisted record types of the catalog — game metadata, source-port
//! configurations and play sessions — together with their spec-level views
//! and the conversions into the presentation types of the API.

use vstd::prelude::*;
use vstd::string::StringExecFns;
use crate::api::{
    CreateSourcePortInput, FileStateItemView, Game, GameInput, GameInputView, GameView,
    PreviousFileStateItem, PreviousFileStateItemInput, SourcePort, SourcePortView,
    UpdateSourcePortInput,
};
use crate::paths::normalize_name_from_id;
use crate::paths::normalized_id;

verus! {

// ---------------------------------------------------------------------------
// Persisted record types.  Every field is optional: a record read from disk
// may carry any subset of them.
// ---------------------------------------------------------------------------
/// One entry of a game's remembered file list: whether the file is enabled
/// for launching, and its path relative to the games directory as well as
/// absolute.
#[derive(Debug, Clone)]
pub struct DbPreviousFileStateItem {
    pub is_enabled: bool,
    pub relative: String,
    pub absolute: String,
}

/// Persisted metadata of one game.
#[derive(Debug, Clone)]
pub struct DbGameMeta {
    pub id: Option<String>,
    pub name: Option<String>,
    pub rating: Option<i32>,
    pub description: Option<String>,
    pub notes: Option<String>,
    pub tags: Option<Vec<String>>,
    pub iwad_id: Option<String>,
    pub source_port: Option<String>,
    pub extra_mod_ids: Option<Vec<String>>,
    pub previous_file_state: Option<Vec<DbPreviousFileStateItem>>,
    pub use_custom_config: Option<bool>,
    pub installed_at: Option<String>,
}

/// One recorded play session: the moments the game was started and left.
#[derive(Debug, Clone)]
pub struct DbPlaySessionEntry {
    pub started_at: Option<String>,
    pub ended_at: Option<String>,
}

/// The persisted, append-only list of a game's play sessions.
#[derive(Debug, Clone)]
pub struct DbPlaySession {
    pub sessions: Option<Vec<DbPlaySessionEntry>>,
}

/// A user-created source-port configuration: the command line of the engine
/// executable and a reference into the built-in engine profiles.
#[derive(Debug, Clone)]
pub struct DbSourcePort {
    pub id: Option<String>,
    pub command: Option<Vec<String>>,
    pub known_source_port_id: Option<String>,
    pub is_default: Option<bool>,
}

// ---------------------------------------------------------------------------
// Spec-level views of the records.
// ---------------------------------------------------------------------------
#[verifier::ext_equal]
pub struct FileStateView {
    pub is_enabled: bool,
    pub relative: Seq<char>,
    pub absolute: Seq<char>,
}

#[verifier::ext_equal]
pub struct GameMetaView {
    pub id: Option<Seq<char>>,
    pub name: Option<Seq<char>>,
    pub rating: Option<i32>,
    pub description: Option<Seq<char>>,
    pub notes: Option<Seq<char>>,
    pub tags: Option<Seq<Seq<char>>>,
    pub iwad_id: Option<Seq<char>>,
    pub source_port: Option<Seq<char>>,
    pub extra_mod_ids: Option<Seq<Seq<char>>>,
    pub previous_file_state: Option<Seq<FileStateView>>,
    pub use_custom_config: Option<bool>,
    pub installed_at: Option<Seq<char>>,
}

#[verifier::ext_equal]
pub struct PlaySessionEntryView {
    pub started_at: Option<Seq<char>>,
    pub ended_at: Option<Seq<char>>,
}

#[verifier::ext_equal]
pub struct PlaySessionListView {
    pub sessions: Option<Seq<PlaySessionEntryView>>,
}

#[verifier::ext_equal]
pub struct SourcePortConfigView {
    pub id: Option<Seq<char>>,
    pub command: Option<Seq<Seq<char>>>,
    pub known_source_port_id: Option<Seq<char>>,
    pub is_default: Option<bool>,
}

impl DeepView for DbPreviousFileStateItem {
    type V = FileStateView;

    open spec fn deep_view(&self) -> FileStateView {
        FileStateView {
            is_enabled: self.is_enabled,
            relative: self.relative.deep_view(),
            absolute: self.absolute.deep_view(),
        }
    }
}

impl DeepView for DbGameMeta {
    type V = GameMetaView;

    open spec fn deep_view(&self) -> GameMetaView {
        GameMetaView {
            id: self.id.deep_view(),
            name: self.name.deep_view(),
            rating: self.rating,
            description: self.description.deep_view(),
            notes: self.notes.deep_view(),
            tags: self.tags.deep_view(),
            iwad_id: self.iwad_id.deep_view(),
            source_port: self.source_port.deep_view(),
            extra_mod_ids: self.extra_mod_ids.deep_view(),
            previous_file_state: self.previous_file_state.deep_view(),
            use_custom_config: self.use_custom_config,
            installed_at: self.installed_at.deep_view(),
        }
    }
}

impl DeepView for DbPlaySessionEntry {
    type V = PlaySessionEntryView;

    open spec fn deep_view(&self) -> PlaySessionEntryView {
        PlaySessionEntryView {
            started_at: self.started_at.deep_view(),
            ended_at: self.ended_at.deep_view(),
        }
    }
}

impl DeepView for DbPlaySession {
    type V = PlaySessionListView;

    open spec fn deep_view(&self) -> PlaySessionListView {
        PlaySessionListView { sessions: self.sessions.deep_view() }
    }
}

impl DeepView for DbSourcePort {
    type V = SourcePortConfigView;

    open spec fn deep_view(&self) -> SourcePortConfigView {
        SourcePortConfigView {
            id: self.id.deep_view(),
            command: self.command.deep_view(),
            known_source_port_id: self.known_source_port_id.deep_view(),
            is_default: self.is_default.deep_view(),
        }
    }
}

// ---------------------------------------------------------------------------
// Cloning helpers with exact view-level contracts.
// ---------------------------------------------------------------------------
pub fn clone_opt_string(o: &Option<String>) -> (r: Option<String>)
    ensures
        r.deep_view() == o.deep_view(),
{
    match o {
        Some(s) => Some(s.clone()),
        None => None,
    }
}

pub fn clone_string_vec(v: &Vec<String>) -> (r: Vec<String>)
    ensures
        r.deep_view() == v.deep_view(),
{
    let mut r: Vec<String> = Vec::new();
    let mut i: usize = 0;
    while i < v.len()
        invariant
            i <= v.len(),
            r.deep_view() =~= v.deep_view().take(i as int),
        decreases v.len() - i,
    {
        let x = v[i].clone();
        let ghost xv = x@;
        let ghost pre = r.deep_view();
        r.push(x);
        proof {
            assert(r.deep_view() =~= pre.push(xv));
            assert(xv == v.deep_view()[i as int]);
            assert(r.deep_view() =~= v.deep_view().take(i as int + 1));
        }
        i += 1;
    }
    assert(r.deep_view() =~= v.deep_view());
    r
}

// ---------------------------------------------------------------------------
// Conversions into the presentation types.
// ---------------------------------------------------------------------------
/// The given optional text, or the empty text.
pub open spec fn opt_or_empty(s: Option<Seq<char>>) -> Seq<char> {
    match s {
        Some(v) => v,
        None => Seq::empty(),
    }
}

/// The game a metadata record presents: every missing field resolved to its
/// default, the missing install moment resolved to the epoch.
pub open spec fn game_of_meta(m: GameMetaView) -> GameView {
    GameView {
        id: opt_or_empty(m.id),
        name: opt_or_empty(m.name),
        rating: match m.rating {
            Some(r) => r,
            None => 0,
        },
        description: opt_or_empty(m.description),
        notes: opt_or_empty(m.notes),
        tags: match m.tags {
            Some(t) => t,
            None => Seq::empty(),
        },
        iwad_id: Some(opt_or_empty(m.iwad_id)),
        source_port: Some(opt_or_empty(m.source_port)),
        extra_mod_ids: Some(
            match m.extra_mod_ids {
                Some(t) => t,
                None => Seq::empty(),
            },
        ),
        use_custom_config: match m.use_custom_config {
            Some(b) => b,
            None => false,
        },
        installed_at: match m.installed_at {
            Some(s) => s,
            None => "1970-01-01T00:00:00+00:00"@,
        },
    }
}

/// The configuration a source-port record presents: missing command
/// resolved to an empty one, missing engine reference resolved to GZDoom.
pub open spec fn source_port_of_record(m: SourcePortConfigView) -> SourcePortView {
    SourcePortView {
        id: opt_or_empty(m.id),
        command: match m.command {
            Some(c) => c,
            None => Seq::empty(),
        },
        known_source_port_id: match m.known_source_port_id {
            Some(k) => k,
            None => "gzdoom"@,
        },
        is_default: false,
    }
}

fn opt_string_or(o: &Option<String>, default: String) -> (r: String)
    ensures
        r@ == match o.deep_view() {
            Some(s) => s,
            None => default@,
        },
{
    match o {
        Some(s) => s.clone(),
        None => default,
    }
}

impl DbGameMeta {
    /// This record as a presentation game.
    pub fn to_game(&self) -> (r: Game)
        requires
            self.id is Some,
        ensures
            r.deep_view() == game_of_meta(self.deep_view()),
    {
        let r = Game {
            id: opt_string_or(&self.id, String::new()),
            name: opt_string_or(&self.name, String::new()),
            rating: match self.rating {
                Some(x) => x,
                None => 0,
            },
            description: opt_string_or(&self.description, String::new()),
            notes: opt_string_or(&self.notes, String::new()),
            tags: match &self.tags {
                Some(t) => clone_string_vec(t),
                None => Vec::new(),
            },
            iwad_id: Some(opt_string_or(&self.iwad_id, String::new())),
            source_port: Some(opt_string_or(&self.source_port, String::new())),
            extra_mod_ids: Some(
                match &self.extra_mod_ids {
                    Some(t) => clone_string_vec(t),
                    None => Vec::new(),
                },
            ),
            use_custom_config: match self.use_custom_config {
                Some(b) => b,
                None => false,
            },
            installed_at: opt_string_or(
                &self.installed_at,
                String::from_str("1970-01-01T00:00:00+00:00"),
            ),
        };
        proof {
            assert(r.deep_view() =~= game_of_meta(self.deep_view()));
        }
        r
    }
}

impl DbSourcePort {
    /// This record as a presentation source port.
    pub fn to_source_port(&self) -> (r: SourcePort)
        requires
            self.id is Some,
        ensures
            r.deep_view() == source_port_of_record(self.deep_view()),
    {
        let r = SourcePort {
            id: opt_string_or(&self.id, String::new()),
            command: match &self.command {
                Some(c) => clone_string_vec(c),
                None => Vec::new(),
            },
            known_source_port_id: opt_string_or(
                &self.known_source_port_id,
                String::from_str("gzdoom"),
            ),
            is_default: false,
        };
        proof {
            assert(r.deep_view() =~= source_port_of_record(self.deep_view()));
        }
        r
    }
}

/// One file-list entry as presented to the application.
pub open spec fn file_item_of(f: FileStateView) -> FileStateItemView {
    FileStateItemView { absolute: f.absolute, relative: f.relative, is_enabled: f.is_enabled }
}

/// The file list a metadata record presents, in its stored order.
pub open spec fn file_items_of(m: GameMetaView) -> Seq<FileStateItemView> {
    match m.previous_file_state {
        None => Seq::empty(),
        Some(s) => s.map_values(|f: FileStateView| file_item_of(f)),
    }
}

/// The file list of a game's metadata, as presentation items and in the
/// stored order.
pub fn previous_file_state_items(meta: &DbGameMeta) -> (r: Vec<PreviousFileStateItem>)
    ensures
        r.deep_view() == file_items_of(meta.deep_view()),
{
    let mut r: Vec<PreviousFileStateItem> = Vec::new();
    match &meta.previous_file_state {
        None => {},
        Some(items) => {
            let mut i: usize = 0;
            while i < items.len()
                invariant
                    i <= items.len(),
                    r.deep_view() =~= items.deep_view().take(i as int).map_values(
                        |f: FileStateView| file_item_of(f),
                    ),
                decreases items.len() - i,
            {
                let item = &items[i];
                let x = PreviousFileStateItem {
                    absolute: item.absolute.clone(),
                    relative: item.relative.clone(),
                    is_enabled: item.is_enabled,
                };
                let ghost xv = x.deep_view();
                let ghost pre = r.deep_view();
                r.push(x);
                proof {
                    assert(r.deep_view() =~= pre.push(xv));
                    assert(xv =~= file_item_of(items.deep_view()[i as int]));
                    assert(r.deep_view() =~= items.deep_view().take(i as int + 1).map_values(
                        |f: FileStateView| file_item_of(f),
                    ));
                }
                i += 1;
            }
            proof {
                assert(items.deep_view().take(items@.len() as int) =~= items.deep_view());
            }
        },
    }
    proof {
        assert(r.deep_view() =~= file_items_of(meta.deep_view()));
    }
    r
}

// ---------------------------------------------------------------------------
// Applying update requests.
// ---------------------------------------------------------------------------
/// A metadata record with an update request applied: fields the request
/// leaves `None` keep their stored value; identity and install moment are
/// never touched.
pub open spec fn merged_game(m: GameMetaView, u: GameInputView) -> GameMetaView {
    GameMetaView {
        id: m.id,
        name: m.name,
        rating: match u.rating {
            Some(x) => Some(x),
            None => m.rating,
        },
        description: match u.description {
            Some(x) => Some(x),
            None => m.description,
        },
        notes: match u.notes {
            Some(x) => Some(x),
            None => m.notes,
        },
        tags: match u.tags {
            Some(x) => Some(x),
            None => m.tags,
        },
        iwad_id: match u.iwad_id {
            Some(x) => Some(x),
            None => m.iwad_id,
        },
        source_port: match u.source_port {
            Some(x) => Some(x),
            None => m.source_port,
        },
        extra_mod_ids: match u.extra_mod_ids {
            Some(x) => Some(x),
            None => m.extra_mod_ids,
        },
        previous_file_state: match u.previous_file_state {
            Some(items) => Some(
                items.map_values(
                    |x: FileStateItemView| FileStateView {
                        is_enabled: x.is_enabled,
                        relative: x.relative,
                        absolute: x.absolute,
                    },
                ),
            ),
            None => m.previous_file_state,
        },
        use_custom_config: match u.use_custom_config {
            Some(x) => Some(x),
            None => m.use_custom_config,
        },
        installed_at: m.installed_at,
    }
}

fn file_items_from_inputs(items: Vec<PreviousFileStateItemInput>) -> (r: Vec<
    DbPreviousFileStateItem,
>)
    ensures
        r.deep_view() == items.deep_view().map_values(
            |x: FileStateItemView| FileStateView {
                is_enabled: x.is_enabled,
                relative: x.relative,
                absolute: x.absolute,
            },
        ),
{
    let mut r: Vec<DbPreviousFileStateItem> = Vec::new();
    let mut i: usize = 0;
    while i < items.len()
        invariant
            i <= items.len(),
            r.deep_view() =~= items.deep_view().take(i as int).map_values(
                |x: FileStateItemView| FileStateView {
                    is_enabled: x.is_enabled,
                    relative: x.relative,
                    absolute: x.absolute,
                },
            ),
        decreases items.len() - i,
    {
        let item = &items[i];
        let x = DbPreviousFileStateItem {
            is_enabled: item.is_enabled,
            relative: item.relative.clone(),
            absolute: item.absolute.clone(),
        };
        let ghost xv = x.deep_view();
        let ghost pre = r.deep_view();
        r.push(x);
        proof {
            let ghost source = items.deep_view()[i as int];
            assert(r.deep_view() =~= pre.push(xv));
            assert(xv =~= (FileStateView {
                is_enabled: source.is_enabled,
                relative: source.relative,
                absolute: source.absolute,
            }));
            assert(r.deep_view() =~= items.deep_view().take(i as int + 1).map_values(
                |x: FileStateItemView| FileStateView {
                    is_enabled: x.is_enabled,
                    relative: x.relative,
                    absolute: x.absolute,
                },
            ));
        }
        i += 1;
    }
    proof {
        assert(items.deep_view().take(items@.len() as int) =~= items.deep_view());
    }
    r
}

/// Applies an update request to a stored game record.
pub fn merge_game_input(meta: DbGameMeta, input: GameInput) -> (r: DbGameMeta)
    ensures
        r.deep_view() == merged_game(meta.deep_view(), input.deep_view()),
{
    let mut g = meta;
    match input.rating {
        Some(x) => {
            g.rating = Some(x);
        },
        None => {},
    }
    match input.description {
        Some(x) => {
            g.description = Some(x);
        },
        None => {},
    }
    match input.notes {
        Some(x) => {
            g.notes = Some(x);
        },
        None => {},
    }
    match input.tags {
        Some(x) => {
            g.tags = Some(x);
        },
        None => {},
    }
    match input.source_port {
        Some(x) => {
            g.source_port = Some(x);
        },
        None => {},
    }
    match input.iwad_id {
        Some(x) => {
            g.iwad_id = Some(x);
        },
        None => {},
    }
    match input.extra_mod_ids {
        Some(x) => {
            g.extra_mod_ids = Some(x);
        },
        None => {},
    }
    match input.use_custom_config {
        Some(x) => {
            g.use_custom_config = Some(x);
        },
        None => {},
    }
    match input.previous_file_state {
        Some(items) => {
            g.previous_file_state = Some(file_items_from_inputs(items));
        },
        None => {},
    }
    proof {
        assert(g.deep_view() =~= merged_game(meta.deep_view(), input.deep_view()));
    }
    g
}

/// The stored record a creation request produces.
pub fn source_port_from_input(input: CreateSourcePortInput) -> (r: DbSourcePort)
    ensures
        r.deep_view() == (SourcePortConfigView {
            id: Some(input.deep_view().id),
            command: Some(input.deep_view().command),
            known_source_port_id: Some(input.deep_view().known_source_port_id),
            is_default: input.deep_view().is_default,
        }),
{
    DbSourcePort {
        id: Some(input.id),
        command: Some(input.command),
        known_source_port_id: Some(input.known_source_port_id),
        is_default: input.is_default,
    }
}

/// A stored source-port record with an update request applied: the stored
/// id is kept, the other fields are replaced.
pub fn updated_source_port(port: DbSourcePort, input: UpdateSourcePortInput) -> (r: DbSourcePort)
    ensures
        r.deep_view() == (SourcePortConfigView {
            id: port.deep_view().id,
            command: Some(input.deep_view().command),
            known_source_port_id: Some(input.deep_view().known_source_port_id),
            is_default: input.deep_view().is_default,
        }),
{
    DbSourcePort {
        id: port.id,
        command: Some(input.command),
        known_source_port_id: Some(input.known_source_port_id),
        is_default: input.is_default,
    }
}

// ---------------------------------------------------------------------------
// The default record of a freshly seen game, and play-session bookkeeping.
// ---------------------------------------------------------------------------
/// The metadata record written the first time a game is seen: only its id,
/// its normalized name and the given install moment are set.
pub fn default_game_meta(id: &str, installed_at: String) -> (r: DbGameMeta)
    ensures
        r.deep_view() == (GameMetaView {
            id: Some(id@),
            name: Some(normalized_id(id@)),
            rating: None,
            description: None,
            notes: None,
            tags: None,
            iwad_id: None,
            source_port: None,
            extra_mod_ids: None,
            previous_file_state: None,
            use_custom_config: None,
            installed_at: Some(installed_at@),
        }),
{
    DbGameMeta {
        id: Some(id.to_owned()),
        name: Some(normalize_name_from_id(id).to_owned()),
        rating: None,
        description: None,
        notes: None,
        tags: None,
        iwad_id: None,
        source_port: None,
        extra_mod_ids: None,
        previous_file_state: None,
        use_custom_config: None,
        installed_at: Some(installed_at),
    }
}

/// A play-session entry opened at the given moment: its end is not set yet.
pub fn open_play_session(started_at: String) -> (e: DbPlaySessionEntry)
    ensures
        e.deep_view() == (PlaySessionEntryView {
            started_at: Some(started_at@),
            ended_at: None::<Seq<char>>,
        }),
{
    DbPlaySessionEntry { started_at: Some(started_at), ended_at: None }
}

/// Closes a play-session entry at the given moment; its start is kept.
pub fn close_play_session(e: &mut DbPlaySessionEntry, ended_at: String)
    ensures
        final(e).deep_view() == (PlaySessionEntryView {
            started_at: old(e).deep_view().started_at,
            ended_at: Some(ended_at@),
        }),
{
    e.ended_at = Some(ended_at);
}

/// The session list of `all` with `e` appended at the end.
pub open spec fn appended_sessions(
    all: PlaySessionListView,
    e: PlaySessionEntryView,
) -> Seq<PlaySessionEntryView> {
    (match all.sessions {
        Some(s) => s,
        None => Seq::empty(),
    }).push(e)
}

/// Appends one finished play session to a game's session list.
pub fn append_play_session(all: DbPlaySession, entry: DbPlaySessionEntry) -> (r: DbPlaySession)
    ensures
        r.deep_view().sessions == Some(appended_sessions(all.deep_view(), entry.deep_view())),
{
    let ghost previous = all.deep_view();
    let mut sessions: Vec<DbPlaySessionEntry> = match all.sessions {
        Some(s) => s,
        None => Vec::new(),
    };
    sessions.push(entry);
    let r = DbPlaySession { sessions: Some(sessions) };
    proof {
        assert(r.deep_view().sessions matches Some(s) && s =~= appended_sessions(
            previous,
            entry.deep_view(),
        ));
    }
    r
}

} // verus!
