//! The presentation types handed to the surrounding application: fully
//! defaulted copies of the persisted records, plus the input types used by
//! the mutation operations.

use vstd::prelude::*;

verus! {

/// A game as presented to the application, with every optional field of the
/// persisted record resolved to a concrete value.
#[derive(Debug, Clone)]
pub struct Game {
    pub id: String,
    pub name: String,
    pub rating: i32,
    pub description: String,
    pub notes: String,
    pub tags: Vec<String>,
    pub iwad_id: Option<String>,
    pub source_port: Option<String>,
    pub extra_mod_ids: Option<Vec<String>>,
    pub use_custom_config: bool,
    pub installed_at: String,
}

/// A source-port configuration as presented to the application.
#[derive(Debug, Clone)]
pub struct SourcePort {
    pub id: String,
    pub command: Vec<String>,
    pub known_source_port_id: String,
    pub is_default: bool,
}

/// A built-in engine profile as presented to the application.
#[derive(Debug, Clone)]
pub struct KnownSourcePort {
    pub id: String,
    pub name: String,
    pub description: String,
    pub supports_custom_config: bool,
    pub supports_save_dir: bool,
    pub home_page_url: String,
    pub download_page_url: String,
    pub example_command: Vec<String>,
}

/// One finished play session with its duration in seconds.
#[derive(Debug, Clone)]
pub struct PlaySession {
    pub duration: i32,
    pub started_at: String,
    pub ended_at: String,
}

/// One entry of a game's file list as presented to the application.
#[derive(Debug, Clone)]
pub struct PreviousFileStateItem {
    pub absolute: String,
    pub relative: String,
    pub is_enabled: bool,
}

/// One entry of a game's file list as supplied by an update request.
#[derive(Debug, Clone)]
pub struct PreviousFileStateItemInput {
    pub absolute: String,
    pub relative: String,
    pub is_enabled: bool,
}

/// A partial update of a game record: fields left `None` keep their value.
#[derive(Debug, Clone)]
pub struct GameInput {
    pub id: String,
    pub rating: Option<i32>,
    pub description: Option<String>,
    pub notes: Option<String>,
    pub tags: Option<Vec<String>>,
    pub source_port: Option<String>,
    pub iwad_id: Option<String>,
    pub extra_mod_ids: Option<Vec<String>>,
    pub use_custom_config: Option<bool>,
    pub previous_file_state: Option<Vec<PreviousFileStateItemInput>>,
}

/// The fields of a newly created source-port configuration.
#[derive(Debug, Clone)]
pub struct CreateSourcePortInput {
    pub id: String,
    pub command: Vec<String>,
    pub known_source_port_id: String,
    pub is_default: Option<bool>,
}

/// Replacement fields for an existing source-port configuration.
#[derive(Debug, Clone)]
pub struct UpdateSourcePortInput {
    pub id: String,
    pub command: Vec<String>,
    pub known_source_port_id: String,
    pub is_default: Option<bool>,
}

#[verifier::ext_equal]
pub struct GameView {
    pub id: Seq<char>,
    pub name: Seq<char>,
    pub rating: i32,
    pub description: Seq<char>,
    pub notes: Seq<char>,
    pub tags: Seq<Seq<char>>,
    pub iwad_id: Option<Seq<char>>,
    pub source_port: Option<Seq<char>>,
    pub extra_mod_ids: Option<Seq<Seq<char>>>,
    pub use_custom_config: bool,
    pub installed_at: Seq<char>,
}

#[verifier::ext_equal]
pub struct SourcePortView {
    pub id: Seq<char>,
    pub command: Seq<Seq<char>>,
    pub known_source_port_id: Seq<char>,
    pub is_default: bool,
}

#[verifier::ext_equal]
pub struct KnownSourcePortView {
    pub id: Seq<char>,
    pub name: Seq<char>,
    pub description: Seq<char>,
    pub supports_custom_config: bool,
    pub supports_save_dir: bool,
    pub home_page_url: Seq<char>,
    pub download_page_url: Seq<char>,
    pub example_command: Seq<Seq<char>>,
}

#[verifier::ext_equal]
pub struct PlaySessionView {
    pub duration: i32,
    pub started_at: Seq<char>,
    pub ended_at: Seq<char>,
}

#[verifier::ext_equal]
pub struct FileStateItemView {
    pub absolute: Seq<char>,
    pub relative: Seq<char>,
    pub is_enabled: bool,
}

#[verifier::ext_equal]
pub struct GameInputView {
    pub id: Seq<char>,
    pub rating: Option<i32>,
    pub description: Option<Seq<char>>,
    pub notes: Option<Seq<char>>,
    pub tags: Option<Seq<Seq<char>>>,
    pub source_port: Option<Seq<char>>,
    pub iwad_id: Option<Seq<char>>,
    pub extra_mod_ids: Option<Seq<Seq<char>>>,
    pub use_custom_config: Option<bool>,
    pub previous_file_state: Option<Seq<FileStateItemView>>,
}

#[verifier::ext_equal]
pub struct SourcePortInputView {
    pub id: Seq<char>,
    pub command: Seq<Seq<char>>,
    pub known_source_port_id: Seq<char>,
    pub is_default: Option<bool>,
}

impl DeepView for GameInput {
    type V = GameInputView;

    open spec fn deep_view(&self) -> GameInputView {
        GameInputView {
            id: self.id.deep_view(),
            rating: self.rating,
            description: self.description.deep_view(),
            notes: self.notes.deep_view(),
            tags: self.tags.deep_view(),
            source_port: self.source_port.deep_view(),
            iwad_id: self.iwad_id.deep_view(),
            extra_mod_ids: self.extra_mod_ids.deep_view(),
            use_custom_config: self.use_custom_config,
            previous_file_state: self.previous_file_state.deep_view(),
        }
    }
}

impl DeepView for CreateSourcePortInput {
    type V = SourcePortInputView;

    open spec fn deep_view(&self) -> SourcePortInputView {
        SourcePortInputView {
            id: self.id.deep_view(),
            command: self.command.deep_view(),
            known_source_port_id: self.known_source_port_id.deep_view(),
            is_default: self.is_default,
        }
    }
}

impl DeepView for UpdateSourcePortInput {
    type V = SourcePortInputView;

    open spec fn deep_view(&self) -> SourcePortInputView {
        SourcePortInputView {
            id: self.id.deep_view(),
            command: self.command.deep_view(),
            known_source_port_id: self.known_source_port_id.deep_view(),
            is_default: self.is_default,
        }
    }
}

impl DeepView for Game {
    type V = GameView;

    open spec fn deep_view(&self) -> GameView {
        GameView {
            id: self.id.deep_view(),
            name: self.name.deep_view(),
            rating: self.rating,
            description: self.description.deep_view(),
            notes: self.notes.deep_view(),
            tags: self.tags.deep_view(),
            iwad_id: self.iwad_id.deep_view(),
            source_port: self.source_port.deep_view(),
            extra_mod_ids: self.extra_mod_ids.deep_view(),
            use_custom_config: self.use_custom_config,
            installed_at: self.installed_at.deep_view(),
        }
    }
}

impl DeepView for SourcePort {
    type V = SourcePortView;

    open spec fn deep_view(&self) -> SourcePortView {
        SourcePortView {
            id: self.id.deep_view(),
            command: self.command.deep_view(),
            known_source_port_id: self.known_source_port_id.deep_view(),
            is_default: self.is_default,
        }
    }
}

impl DeepView for KnownSourcePort {
    type V = KnownSourcePortView;

    open spec fn deep_view(&self) -> KnownSourcePortView {
        KnownSourcePortView {
            id: self.id.deep_view(),
            name: self.name.deep_view(),
            description: self.description.deep_view(),
            supports_custom_config: self.supports_custom_config,
            supports_save_dir: self.supports_save_dir,
            home_page_url: self.home_page_url.deep_view(),
            download_page_url: self.download_page_url.deep_view(),
            example_command: self.example_command.deep_view(),
        }
    }
}

impl DeepView for PlaySession {
    type V = PlaySessionView;

    open spec fn deep_view(&self) -> PlaySessionView {
        PlaySessionView {
            duration: self.duration,
            started_at: self.started_at.deep_view(),
            ended_at: self.ended_at.deep_view(),
        }
    }
}

impl DeepView for PreviousFileStateItem {
    type V = FileStateItemView;

    open spec fn deep_view(&self) -> FileStateItemView {
        FileStateItemView {
            absolute: self.absolute.deep_view(),
            relative: self.relative.deep_view(),
            is_enabled: self.is_enabled,
        }
    }
}

impl DeepView for PreviousFileStateItemInput {
    type V = FileStateItemView;

    open spec fn deep_view(&self) -> FileStateItemView {
        FileStateItemView {
            absolute: self.absolute.deep_view(),
            relative: self.relative.deep_view(),
            is_enabled: self.is_enabled,
        }
    }
}

} // verus!
