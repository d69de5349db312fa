//! The built-in registry of known engine profiles and the command
//! synthesizer: given a profile and a launch request, it emits the ordered
//! argument vector honoring that engine's save-directory, configuration and
//! file-flag conventions.

use vstd::prelude::*;
use vstd::string::StringExecFns;
use crate::api::{KnownSourcePort, KnownSourcePortView};
use crate::paths::{join_path, joined, normalize_name_from_id, normalized_id};
use crate::text::{ends_with_ignore_ascii_case, str_eq, str_ends_with_ignore_ascii_case};

verus! {

/// A structured launch request: everything the command synthesizer needs to
/// emit the argument vector for one game.
#[derive(Debug, Clone)]
pub struct BuildCommandArgs {
    pub executable: String,
    pub iwad: String,
    pub files: Vec<String>,
    pub use_custom_config: bool,
    pub game_id: String,
    pub meta_directory: String,
}

#[verifier::ext_equal]
pub struct BuildCommandArgsView {
    pub executable: Seq<char>,
    pub iwad: Seq<char>,
    pub files: Seq<Seq<char>>,
    pub use_custom_config: bool,
    pub game_id: Seq<char>,
    pub meta_directory: Seq<char>,
}

impl DeepView for BuildCommandArgs {
    type V = BuildCommandArgsView;

    open spec fn deep_view(&self) -> BuildCommandArgsView {
        BuildCommandArgsView {
            executable: self.executable.deep_view(),
            iwad: self.iwad.deep_view(),
            files: self.files.deep_view(),
            use_custom_config: self.use_custom_config,
            game_id: self.game_id.deep_view(),
            meta_directory: self.meta_directory.deep_view(),
        }
    }
}

/// The closed set of engine families the launcher knows how to drive.
#[derive(Debug, Clone, Copy, PartialEq, Eq, Structural)]
pub enum DbKnownSourcePort {
    GZDoom,
    EternityEngine,
    ChocolateDoom,
    DSDA,
    Woof,
}

pub open spec fn id_spec(port: DbKnownSourcePort) -> Seq<char> {
    match port {
        DbKnownSourcePort::GZDoom => "gzdoom"@,
        DbKnownSourcePort::EternityEngine => "eternity"@,
        DbKnownSourcePort::ChocolateDoom => "chocolate-doom"@,
        DbKnownSourcePort::DSDA => "dsda"@,
        DbKnownSourcePort::Woof => "woof"@,
    }
}

pub open spec fn name_spec(port: DbKnownSourcePort) -> Seq<char> {
    match port {
        DbKnownSourcePort::GZDoom => "GZDoom"@,
        DbKnownSourcePort::EternityEngine => "Eternity Engine"@,
        DbKnownSourcePort::ChocolateDoom => "Chocolate Doom"@,
        DbKnownSourcePort::DSDA => "DSDA"@,
        DbKnownSourcePort::Woof => "Woof"@,
    }
}

pub open spec fn home_page_url_spec(port: DbKnownSourcePort) -> Seq<char> {
    match port {
        DbKnownSourcePort::GZDoom => "https://zdoom.org/"@,
        DbKnownSourcePort::EternityEngine => "https://eternity.youfailit.net/wiki/Eternity_Engine"@,
        DbKnownSourcePort::ChocolateDoom => "https://www.chocolate-doom.org/"@,
        DbKnownSourcePort::DSDA => "https://github.com/kraflab/dsda-doom"@,
        DbKnownSourcePort::Woof => "https://github.com/fabiangreffrath/woof"@,
    }
}

pub open spec fn download_page_url_spec(port: DbKnownSourcePort) -> Seq<char> {
    match port {
        DbKnownSourcePort::GZDoom => "https://github.com/ZDoom/gzdoom/releases"@,
        DbKnownSourcePort::EternityEngine => "https://github.com/team-eternity/eternity/releases/latest"@,
        DbKnownSourcePort::ChocolateDoom => "https://www.chocolate-doom.org/wiki/index.php/Downloads"@,
        DbKnownSourcePort::DSDA => "https://drive.google.com/drive/folders/1KMU1dY0HZrY5h2EyPzxxXuyH8DunAJV_?usp=sharing"@,
        DbKnownSourcePort::Woof => "https://github.com/fabiangreffrath/woof/releases/latest"@,
    }
}

/// Every known engine accepts a custom configuration file.
pub open spec fn supports_custom_config_spec(port: DbKnownSourcePort) -> bool {
    true
}

/// Every known engine accepts a save-directory flag.
pub open spec fn supports_save_dir_spec(port: DbKnownSourcePort) -> bool {
    true
}

/// The flag each engine family uses for its save directory.
pub open spec fn save_dir_flag_spec(port: DbKnownSourcePort) -> Seq<char> {
    match port {
        DbKnownSourcePort::GZDoom => "-savedir"@,
        DbKnownSourcePort::ChocolateDoom => "-savedir"@,
        DbKnownSourcePort::EternityEngine => "-save"@,
        DbKnownSourcePort::DSDA => "-save"@,
        DbKnownSourcePort::Woof => "-save"@,
    }
}

/// The flag each engine family uses for a dehacked patch.
pub open spec fn dehacked_flag_spec(port: DbKnownSourcePort) -> Seq<char> {
    "-deh"@
}

/// The flag each engine family uses for an ordinary supplemental file.
pub open spec fn default_file_flag_spec(port: DbKnownSourcePort) -> Seq<char> {
    match port {
        DbKnownSourcePort::ChocolateDoom => "-merge"@,
        _ => "-file"@,
    }
}

/// A file that carries a dehacked patch: its extension is `.deh` or `.bex`,
/// in any letter case.
pub open spec fn is_dehacked_file(file: Seq<char>) -> bool {
    ends_with_ignore_ascii_case(file, ".deh"@) || ends_with_ignore_ascii_case(file, ".bex"@)
}

/// The flag a profile emits for one supplemental file, resolved from the
/// file's extension.
pub open spec fn file_flag(port: DbKnownSourcePort, file: Seq<char>) -> Seq<char> {
    if is_dehacked_file(file) {
        dehacked_flag_spec(port)
    } else {
        default_file_flag_spec(port)
    }
}

/// The flag-and-path pairs a profile emits for the supplemental files, in
/// the order the files were given.
pub open spec fn file_args(port: DbKnownSourcePort, files: Seq<Seq<char>>) -> Seq<Seq<char>>
    decreases files.len(),
{
    if files.len() == 0 {
        Seq::empty()
    } else {
        file_args(port, files.drop_last()) + seq![
            file_flag(port, files.last()),
            files.last(),
        ]
    }
}

/// The per-game configuration file: `<meta>/<normalized id>/config.ini`.
pub open spec fn config_file_path(meta_dir: Seq<char>, game_id: Seq<char>) -> Seq<char> {
    joined(joined(meta_dir, normalized_id(game_id)), "config.ini"@)
}

/// The per-game save directory: `<meta>/<normalized id>/saves`.
pub open spec fn save_dir_path(meta_dir: Seq<char>, game_id: Seq<char>) -> Seq<char> {
    joined(joined(meta_dir, normalized_id(game_id)), "saves"@)
}

/// The full argument vector the synthesizer emits for `port` and `args`:
/// the executable; `-config` and its path when a custom configuration is
/// requested and supported; the save-dir flag and its path when supported;
/// `-iwad` and the IWAD path; then one flag-and-path pair per file.
pub open spec fn build_command_spec(
    port: DbKnownSourcePort,
    args: BuildCommandArgsView,
) -> Seq<Seq<char>> {
    seq![args.executable] + (if args.use_custom_config && supports_custom_config_spec(port) {
        seq!["-config"@, config_file_path(args.meta_directory, args.game_id)]
    } else {
        Seq::empty()
    }) + (if supports_save_dir_spec(port) {
        seq![save_dir_flag_spec(port), save_dir_path(args.meta_directory, args.game_id)]
    } else {
        Seq::empty()
    }) + seq!["-iwad"@, args.iwad] + file_args(port, args.files)
}

impl DbKnownSourcePort {
    pub fn id(&self) -> (r: String)
        ensures
            r@ == id_spec(*self),
    {
        match self {
            Self::GZDoom => String::from_str("gzdoom"),
            Self::EternityEngine => String::from_str("eternity"),
            Self::ChocolateDoom => String::from_str("chocolate-doom"),
            Self::DSDA => String::from_str("dsda"),
            Self::Woof => String::from_str("woof"),
        }
    }

    pub fn name(&self) -> (r: String)
        ensures
            r@ == name_spec(*self),
    {
        match self {
            Self::GZDoom => String::from_str("GZDoom"),
            Self::EternityEngine => String::from_str("Eternity Engine"),
            Self::ChocolateDoom => String::from_str("Chocolate Doom"),
            Self::DSDA => String::from_str("DSDA"),
            Self::Woof => String::from_str("Woof"),
        }
    }

    pub fn supports_custom_config(&self) -> (r: bool)
        ensures
            r == supports_custom_config_spec(*self),
    {
        match self {
            Self::GZDoom => true,
            Self::EternityEngine => true,
            Self::ChocolateDoom => true,
            Self::DSDA => true,
            Self::Woof => true,
        }
    }

    pub fn supports_save_dir(&self) -> (r: bool)
        ensures
            r == supports_save_dir_spec(*self),
    {
        match self {
            Self::GZDoom => true,
            Self::EternityEngine => true,
            Self::ChocolateDoom => true,
            Self::DSDA => true,
            Self::Woof => true,
        }
    }

    pub fn home_page_url(&self) -> (r: String)
        ensures
            r@ == home_page_url_spec(*self),
    {
        match self {
            Self::GZDoom => String::from_str("https://zdoom.org/"),
            Self::EternityEngine => String::from_str(
                "https://eternity.youfailit.net/wiki/Eternity_Engine",
            ),
            Self::ChocolateDoom => String::from_str("https://www.chocolate-doom.org/"),
            Self::DSDA => String::from_str("https://github.com/kraflab/dsda-doom"),
            Self::Woof => String::from_str("https://github.com/fabiangreffrath/woof"),
        }
    }

    pub fn download_page_url(&self) -> (r: String)
        ensures
            r@ == download_page_url_spec(*self),
    {
        match self {
            Self::GZDoom => String::from_str("https://github.com/ZDoom/gzdoom/releases"),
            Self::EternityEngine => String::from_str(
                "https://github.com/team-eternity/eternity/releases/latest",
            ),
            Self::ChocolateDoom => String::from_str(
                "https://www.chocolate-doom.org/wiki/index.php/Downloads",
            ),
            Self::DSDA => String::from_str(
                "https://drive.google.com/drive/folders/1KMU1dY0HZrY5h2EyPzxxXuyH8DunAJV_?usp=sharing",
            ),
            Self::Woof => String::from_str(
                "https://github.com/fabiangreffrath/woof/releases/latest",
            ),
        }
    }

    /// The flag this profile emits for a supplemental file with the given
    /// path, resolved from the path's extension (letter case is ignored).
    pub fn file_flag_for_extension(&self, file: &str) -> (r: String)
        ensures
            r@ == file_flag(*self, file@),
    {
        if str_ends_with_ignore_ascii_case(file, ".deh") || str_ends_with_ignore_ascii_case(
            file,
            ".bex",
        ) {
            String::from_str("-deh")
        } else {
            match self {
                Self::ChocolateDoom => String::from_str("-merge"),
                _ => String::from_str("-file"),
            }
        }
    }

    fn save_dir_flag(&self) -> (r: String)
        ensures
            r@ == save_dir_flag_spec(*self),
    {
        match self {
            Self::GZDoom | Self::ChocolateDoom => String::from_str("-savedir"),
            Self::EternityEngine | Self::DSDA | Self::Woof => String::from_str("-save"),
        }
    }

    /// Synthesizes the ordered argument vector for one launch of this
    /// engine.
    pub fn build_command(&self, args: &BuildCommandArgs) -> (r: Vec<String>)
        ensures
            r.deep_view() == build_command_spec(*self, args.deep_view()),
    {
        let port = *self;
        let mut command: Vec<String> = Vec::new();
        command.push(args.executable.clone());

        if args.use_custom_config && self.supports_custom_config() {
            let meta_game_dir = join_path(
                args.meta_directory.as_str(),
                normalize_name_from_id(args.game_id.as_str()),
            );
            let config_path = join_path(meta_game_dir.as_str(), "config.ini");
            command.push(String::from_str("-config"));
            command.push(config_path);
        }

        if self.supports_save_dir() {
            let meta_game_dir = join_path(
                args.meta_directory.as_str(),
                normalize_name_from_id(args.game_id.as_str()),
            );
            let save_dir = join_path(meta_game_dir.as_str(), "saves");
            command.push(self.save_dir_flag());
            command.push(save_dir);
        }

        command.push(String::from_str("-iwad"));
        command.push(args.iwad.clone());

        let ghost head = command.deep_view();
        assert(head =~= build_command_spec(port, args.deep_view()).subrange(
            0,
            head.len() as int,
        ));

        let mut i: usize = 0;
        while i < args.files.len()
            invariant
                i <= args.files.len(),
                port == *self,
                command.deep_view() =~= head + file_args(port, args.files.deep_view().take(i as int)),
            decreases args.files.len() - i,
        {
            let file = &args.files[i];
            let flag_string = self.file_flag_for_extension(file.as_str());
            let ghost fv = flag_string@;
            let ghost pre = command.deep_view();
            command.push(flag_string);
            command.push(file.clone());
            proof {
                let files = args.files.deep_view();
                let sub = files.take(i as int + 1);
                assert(sub.len() == i + 1);
                assert(file_args(port, sub) == file_args(port, sub.drop_last()) + seq![
                    file_flag(port, sub.last()),
                    sub.last(),
                ]);
                assert(sub.drop_last() =~= files.take(i as int));
                assert(sub.last() == files[i as int]);
                assert(command.deep_view() =~= pre.push(fv).push(file@));
                assert(files[i as int] == file@);
                assert(fv == file_flag(port, file@));
                assert(fv == file_flag(port, sub.last()));
                assert(file_args(port, sub) =~= file_args(port, files.take(i as int)) + seq![
                    fv,
                    file@,
                ]);
                assert(pre == head + file_args(port, files.take(i as int)));
                assert(head + file_args(port, sub) =~= (head + file_args(
                    port,
                    files.take(i as int),
                )).push(fv).push(file@));
                assert(command.deep_view() =~= head + file_args(port, sub));
            }
            i += 1;
        }
        proof {
            assert(args.files.deep_view().take(args.files.len() as int) =~= args.files.deep_view());
            assert(command.deep_view() =~= build_command_spec(port, args.deep_view()));
        }
        command
    }

    /// This profile as a presentation record, with an example command built
    /// for the game `doom2` under the given metadata directory.
    pub fn to_known_source_port(&self, meta_dir: &str) -> (r: KnownSourcePort)
        ensures
            r.deep_view() == known_source_port_view(*self, meta_dir@),
    {
        let example_args = BuildCommandArgs {
            executable: self.id(),
            iwad: String::from_str("doom2.iwad"),
            files: vec![String::from_str("example.wad")],
            use_custom_config: true,
            game_id: String::from_str("doom2"),
            meta_directory: meta_dir.to_owned(),
        };
        proof {
            assert(example_args.deep_view() =~= example_launch_request(*self, meta_dir@));
        }
        KnownSourcePort {
            id: self.id(),
            name: self.name(),
            description: String::new(),
            supports_custom_config: self.supports_custom_config(),
            supports_save_dir: self.supports_save_dir(),
            home_page_url: self.home_page_url(),
            download_page_url: self.download_page_url(),
            example_command: self.build_command(&example_args),
        }
    }
}

/// The launch request whose synthesized command serves as each profile's
/// example: the game `doom2` with one supplemental file.
pub open spec fn example_launch_request(
    port: DbKnownSourcePort,
    meta_dir: Seq<char>,
) -> BuildCommandArgsView {
    BuildCommandArgsView {
        executable: id_spec(port),
        iwad: "doom2.iwad"@,
        files: seq!["example.wad"@],
        use_custom_config: true,
        game_id: "doom2"@,
        meta_directory: meta_dir,
    }
}

/// A profile's presentation record.
pub open spec fn known_source_port_view(
    port: DbKnownSourcePort,
    meta_dir: Seq<char>,
) -> KnownSourcePortView {
    KnownSourcePortView {
        id: id_spec(port),
        name: name_spec(port),
        description: Seq::empty(),
        supports_custom_config: supports_custom_config_spec(port),
        supports_save_dir: supports_save_dir_spec(port),
        home_page_url: home_page_url_spec(port),
        download_page_url: download_page_url_spec(port),
        example_command: build_command_spec(port, example_launch_request(port, meta_dir)),
    }
}

/// The fixed, ordered registry of known engine profiles.
pub open spec fn all_ports() -> Seq<DbKnownSourcePort> {
    seq![
        DbKnownSourcePort::GZDoom,
        DbKnownSourcePort::EternityEngine,
        DbKnownSourcePort::ChocolateDoom,
        DbKnownSourcePort::DSDA,
        DbKnownSourcePort::Woof,
    ]
}

pub fn get_all_known_source_ports() -> (r: Vec<DbKnownSourcePort>)
    ensures
        r@ == all_ports(),
{
    let r = vec![
        DbKnownSourcePort::GZDoom,
        DbKnownSourcePort::EternityEngine,
        DbKnownSourcePort::ChocolateDoom,
        DbKnownSourcePort::DSDA,
        DbKnownSourcePort::Woof,
    ];
    proof {
        assert(r@ =~= all_ports());
    }
    r
}

/// The first profile of `ports` whose id is `id`; the GZDoom profile when
/// none matches.
pub open spec fn find_port_in(ports: Seq<DbKnownSourcePort>, id: Seq<char>) -> DbKnownSourcePort
    decreases ports.len(),
{
    if ports.len() == 0 {
        DbKnownSourcePort::GZDoom
    } else if id_spec(ports.first()) == id {
        ports.first()
    } else {
        find_port_in(ports.drop_first(), id)
    }
}

/// The profile registered under `id`, falling back to the GZDoom profile —
/// the most compatible default — when `id` is unknown.
pub open spec fn found_port(id: Seq<char>) -> DbKnownSourcePort {
    find_port_in(all_ports(), id)
}

pub fn find_known_source_port_from_id(id: &str) -> (r: DbKnownSourcePort)
    ensures
        r == found_port(id@),
{
    let ports = get_all_known_source_ports();
    proof {
        assert(ports@.skip(0) =~= ports@);
    }
    let mut i: usize = 0;
    while i < ports.len()
        invariant
            i <= ports.len(),
            ports@ == all_ports(),
            find_port_in(ports@.skip(i as int), id@) == found_port(id@),
        decreases ports.len() - i,
    {
        let port = ports[i];
        if str_eq(port.id().as_str(), id) {
            assert(ports@.skip(i as int).first() == port);
            return port;
        }
        proof {
            assert(ports@.skip(i as int).drop_first() =~= ports@.skip(i + 1 as int));
        }
        i += 1;
    }
    proof {
        assert(ports@.skip(ports@.len() as int).len() == 0);
    }
    DbKnownSourcePort::GZDoom
}

/// Law: the flag-and-path pairs for the supplemental files stand in the
/// synthesized vector two by two, each file preceded by its resolved flag,
/// in the order the files were given.
pub proof fn lemma_file_args_shape(port: DbKnownSourcePort, files: Seq<Seq<char>>)
    ensures
        file_args(port, files).len() == 2 * files.len(),
        forall|k: int|
            0 <= k < files.len() ==> file_args(port, files)[2 * k] == file_flag(port, files[k])
                && file_args(port, files)[2 * k + 1] == files[k],
    decreases files.len(),
{
    if files.len() > 0 {
        lemma_file_args_shape(port, files.drop_last());
        assert forall|k: int| 0 <= k < files.len() implies file_args(port, files)[2 * k]
            == file_flag(port, files[k]) && file_args(port, files)[2 * k + 1] == files[k] by {
            if k < files.len() - 1 {
                assert(files.drop_last()[k] == files[k]);
            } else {
                assert(files.last() == files[k]);
            }
        }
    }
}

/// Law: for every engine profile the synthesized vector keeps one fixed
/// shape — the executable first, then (when a custom configuration is
/// requested) `-config` and its path, then the save-directory flag and its
/// path, then `-iwad` and the IWAD path, and then the supplemental file
/// flags; so `-config` always precedes the save-dir flag, which precedes
/// `-iwad`, which precedes every file flag, whatever the engine variant.
pub proof fn lemma_build_command_order(port: DbKnownSourcePort, args: BuildCommandArgsView)
    ensures
        ({
            let cmd = build_command_spec(port, args);
            let c: int = if args.use_custom_config {
                2int
            } else {
                0int
            };
            &&& cmd.len() == 5 + c + 2 * args.files.len()
            &&& cmd[0] == args.executable
            &&& (args.use_custom_config ==> cmd[1] == "-config"@ && cmd[2] == config_file_path(
                args.meta_directory,
                args.game_id,
            ))
            &&& cmd[1 + c] == save_dir_flag_spec(port)
            &&& cmd[2 + c] == save_dir_path(args.meta_directory, args.game_id)
            &&& cmd[3 + c] == "-iwad"@
            &&& cmd[4 + c] == args.iwad
            &&& (forall|k: int|
                0 <= k < args.files.len() ==> cmd[5 + c + 2 * k] == file_flag(port, args.files[k])
                    && cmd[6 + c + 2 * k] == args.files[k])
        }),
{
    lemma_file_args_shape(port, args.files);
}

/// Law: a file whose extension is `.deh` or `.bex`, in any letter case, is
/// always given the dehacked flag and never the profile's default file
/// flag.
pub proof fn lemma_dehacked_files_use_dehacked_flag(port: DbKnownSourcePort, file: Seq<char>)
    requires
        is_dehacked_file(file),
    ensures
        file_flag(port, file) == dehacked_flag_spec(port),
        file_flag(port, file) != default_file_flag_spec(port),
{
    reveal_strlit("-deh");
    reveal_strlit("-file");
    reveal_strlit("-merge");
    assert(dehacked_flag_spec(port)[1] == 'd');
}

} // verus!
