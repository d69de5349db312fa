//! The launch resolver: given a game's persisted configuration and the
//! configured source ports, it selects the effective source port, resolves
//! the application-bundle indirection of the executable, determines the
//! IWAD and the ordered enabled files, and assembles the full command line.

use vstd::prelude::*;
use vstd::string::StringExecFns;
use crate::ports::{build_command_spec, find_known_source_port_from_id, found_port, BuildCommandArgs, BuildCommandArgsView};
use crate::records::{
    clone_opt_string, clone_string_vec, opt_or_empty, DbGameMeta, DbSourcePort, FileStateView,
    GameMetaView, SourcePortConfigView,
};
use crate::text::{eq_ignore_ascii_case, is_prefix, str_concat, str_eq, str_eq_ignore_ascii_case, str_starts_with};

verus! {

// ---------------------------------------------------------------------------
// Failures of a launch, each carrying the offending record's id.
// ---------------------------------------------------------------------------
/// Why a launch could not even be attempted.
#[derive(Debug, Clone)]
pub enum LaunchError {
    /// No game record exists under the requested id.
    GameNotFound { game_id: String },
    /// The game asks for the default source port, but none is configured.
    NoSourcePortsConfigured,
    /// The game names no source port at all.
    NoSourcePortConfigured { game_id: String },
    /// The source port the game names does not exist.
    SourcePortNotFound { source_port_id: String },
    /// The selected source port has no command line to run.
    SourcePortHasNoCommand { source_port_id: String },
    /// The game is not an IWAD itself and names no IWAD.
    NoIwadConfigured { game_id: String },
    /// No enabled file matches the resolved IWAD id.
    NoEnabledIwadFiles { game_id: String },
    /// The executable's bundle manifest exists but yields no executable name.
    BundleResolutionFailed { executable: String },
}

#[verifier::ext_equal]
pub enum LaunchErrorView {
    GameNotFound { game_id: Seq<char> },
    NoSourcePortsConfigured,
    NoSourcePortConfigured { game_id: Seq<char> },
    SourcePortNotFound { source_port_id: Seq<char> },
    SourcePortHasNoCommand { source_port_id: Seq<char> },
    NoIwadConfigured { game_id: Seq<char> },
    NoEnabledIwadFiles { game_id: Seq<char> },
    BundleResolutionFailed { executable: Seq<char> },
}

impl DeepView for LaunchError {
    type V = LaunchErrorView;

    open spec fn deep_view(&self) -> LaunchErrorView {
        match self {
            LaunchError::GameNotFound { game_id } => LaunchErrorView::GameNotFound {
                game_id: game_id.deep_view(),
            },
            LaunchError::NoSourcePortsConfigured => LaunchErrorView::NoSourcePortsConfigured,
            LaunchError::NoSourcePortConfigured { game_id } => LaunchErrorView::NoSourcePortConfigured {
                game_id: game_id.deep_view(),
            },
            LaunchError::SourcePortNotFound { source_port_id } => LaunchErrorView::SourcePortNotFound {
                source_port_id: source_port_id.deep_view(),
            },
            LaunchError::SourcePortHasNoCommand { source_port_id } => LaunchErrorView::SourcePortHasNoCommand {
                source_port_id: source_port_id.deep_view(),
            },
            LaunchError::NoIwadConfigured { game_id } => LaunchErrorView::NoIwadConfigured {
                game_id: game_id.deep_view(),
            },
            LaunchError::NoEnabledIwadFiles { game_id } => LaunchErrorView::NoEnabledIwadFiles {
                game_id: game_id.deep_view(),
            },
            LaunchError::BundleResolutionFailed { executable } => LaunchErrorView::BundleResolutionFailed {
                executable: executable.deep_view(),
            },
        }
    }
}

/// The human-readable description of each failure.
pub open spec fn error_message(e: LaunchErrorView) -> Seq<char> {
    match e {
        LaunchErrorView::GameNotFound { game_id } => "game "@ + game_id + " not found"@,
        LaunchErrorView::NoSourcePortsConfigured => "No source ports configured"@,
        LaunchErrorView::NoSourcePortConfigured { game_id } => "game "@ + game_id
            + " has no source port configured"@,
        LaunchErrorView::SourcePortNotFound { source_port_id } => "source port "@ + source_port_id
            + " not found"@,
        LaunchErrorView::SourcePortHasNoCommand { source_port_id } => "source port "@
            + source_port_id + " has no command configured"@,
        LaunchErrorView::NoIwadConfigured { game_id } => "game "@ + game_id
            + " has no IWAD configured"@,
        LaunchErrorView::NoEnabledIwadFiles { game_id } => "game "@ + game_id
            + " has no enabled IWAD files"@,
        LaunchErrorView::BundleResolutionFailed { executable } => "could not read the bundle manifest of "@
            + executable,
    }
}

impl LaunchError {
    /// The human-readable description of this failure.
    pub fn message(&self) -> (r: String)
        ensures
            r@ == error_message(self.deep_view()),
    {
        match self {
            LaunchError::GameNotFound { game_id } => {
                let head = str_concat("game ", game_id.as_str());
                str_concat(head.as_str(), " not found")
            },
            LaunchError::NoSourcePortsConfigured => String::from_str(
                "No source ports configured",
            ),
            LaunchError::NoSourcePortConfigured { game_id } => {
                let head = str_concat("game ", game_id.as_str());
                str_concat(head.as_str(), " has no source port configured")
            },
            LaunchError::SourcePortNotFound { source_port_id } => {
                let head = str_concat("source port ", source_port_id.as_str());
                str_concat(head.as_str(), " not found")
            },
            LaunchError::SourcePortHasNoCommand { source_port_id } => {
                let head = str_concat("source port ", source_port_id.as_str());
                str_concat(head.as_str(), " has no command configured")
            },
            LaunchError::NoIwadConfigured { game_id } => {
                let head = str_concat("game ", game_id.as_str());
                str_concat(head.as_str(), " has no IWAD configured")
            },
            LaunchError::NoEnabledIwadFiles { game_id } => {
                let head = str_concat("game ", game_id.as_str());
                str_concat(head.as_str(), " has no enabled IWAD files")
            },
            LaunchError::BundleResolutionFailed { executable } => {
                str_concat("could not read the bundle manifest of ", executable.as_str())
            },
        }
    }
}

// ---------------------------------------------------------------------------
// The launch plan: what the resolver hands back for one launch.
// ---------------------------------------------------------------------------
/// Everything resolved for one launch: the raw executable (before bundle
/// indirection), the configuration's own base arguments, the effective
/// engine profile reference, the IWAD, and the enabled files in order.
#[derive(Debug, Clone)]
pub struct LaunchPlan {
    pub executable: String,
    pub base_args: Vec<String>,
    pub known_source_port_id: String,
    pub iwad: String,
    pub files: Vec<String>,
    pub use_custom_config: bool,
    pub game_id: String,
}

#[verifier::ext_equal]
pub struct LaunchPlanView {
    pub executable: Seq<char>,
    pub base_args: Seq<Seq<char>>,
    pub known_source_port_id: Seq<char>,
    pub iwad: Seq<char>,
    pub files: Seq<Seq<char>>,
    pub use_custom_config: bool,
    pub game_id: Seq<char>,
}

impl DeepView for LaunchPlan {
    type V = LaunchPlanView;

    open spec fn deep_view(&self) -> LaunchPlanView {
        LaunchPlanView {
            executable: self.executable.deep_view(),
            base_args: self.base_args.deep_view(),
            known_source_port_id: self.known_source_port_id.deep_view(),
            iwad: self.iwad.deep_view(),
            files: self.files.deep_view(),
            use_custom_config: self.use_custom_config,
            game_id: self.game_id.deep_view(),
        }
    }
}

// ---------------------------------------------------------------------------
// Source-port selection.
// ---------------------------------------------------------------------------
/// The first configuration flagged as the default, if any.
pub open spec fn find_default_port(ports: Seq<SourcePortConfigView>) -> Option<
    SourcePortConfigView,
>
    decreases ports.len(),
{
    if ports.len() == 0 {
        None
    } else {
        let earlier = find_default_port(ports.drop_last());
        if earlier is Some {
            earlier
        } else if ports.last().is_default == Some(true) {
            Some(ports.last())
        } else {
            None
        }
    }
}

/// The first configuration registered under `id`, if any.
pub open spec fn find_port_by_id(ports: Seq<SourcePortConfigView>, id: Seq<char>) -> Option<
    SourcePortConfigView,
>
    decreases ports.len(),
{
    if ports.len() == 0 {
        None
    } else {
        let earlier = find_port_by_id(ports.drop_last(), id);
        if earlier is Some {
            earlier
        } else if ports.last().id == Some(id) {
            Some(ports.last())
        } else {
            None
        }
    }
}

/// The source port a game's reference resolves to.  The sentinel `-1` means
/// "use the default": the first configuration flagged default, or — a
/// deliberate leniency — the first configuration at all when none is
/// flagged; with no configurations this fails.  Any other reference names a
/// configuration directly and fails when it is missing.
pub open spec fn selected_port_spec(
    source_port: Option<Seq<char>>,
    game_id: Seq<char>,
    ports: Seq<SourcePortConfigView>,
) -> Result<SourcePortConfigView, LaunchErrorView> {
    if source_port == Some("-1"@) {
        if ports.len() == 0 {
            Err(LaunchErrorView::NoSourcePortsConfigured)
        } else {
            match find_default_port(ports) {
                Some(p) => Ok(p),
                None => Ok(ports[0]),
            }
        }
    } else {
        match source_port {
            None => Err(LaunchErrorView::NoSourcePortConfigured { game_id }),
            Some(id) => match find_port_by_id(ports, id) {
                Some(p) => Ok(p),
                None => Err(LaunchErrorView::SourcePortNotFound { source_port_id: id }),
            },
        }
    }
}

fn clone_source_port(p: &DbSourcePort) -> (r: DbSourcePort)
    ensures
        r.deep_view() == p.deep_view(),
{
    let r = DbSourcePort {
        id: clone_opt_string(&p.id),
        command: match &p.command {
            Some(c) => Some(clone_string_vec(c)),
            None => None,
        },
        known_source_port_id: clone_opt_string(&p.known_source_port_id),
        is_default: p.is_default,
    };
    proof {
        assert(r.deep_view() =~= p.deep_view());
    }
    r
}

/// Resolves a game's source-port reference against the configured ports.
pub fn select_source_port(
    source_port: &Option<String>,
    game_id: &str,
    ports: &Vec<DbSourcePort>,
) -> (r: Result<DbSourcePort, LaunchError>)
    ensures
        ({
            let expected = selected_port_spec(source_port.deep_view(), game_id@, ports.deep_view());
            match r {
                Ok(p) => expected == Ok::<SourcePortConfigView, LaunchErrorView>(p.deep_view()),
                Err(e) => expected == Err::<SourcePortConfigView, LaunchErrorView>(e.deep_view()),
            }
        }),
{
    let is_sentinel = match source_port {
        Some(s) => str_eq(s.as_str(), "-1"),
        None => false,
    };
    if is_sentinel {
        proof {
            assert(source_port.deep_view() == Some("-1"@));
        }
        if ports.len() == 0 {
            return Err(LaunchError::NoSourcePortsConfigured);
        }
        let mut default_idx: Option<usize> = None;
        let mut i: usize = 0;
        while i < ports.len()
            invariant
                i <= ports.len(),
                match default_idx {
                    None => find_default_port(ports.deep_view().take(i as int)) is None,
                    Some(d) => d < i && find_default_port(ports.deep_view().take(i as int))
                        == Some(ports.deep_view()[d as int]),
                },
            decreases ports.len() - i,
        {
            let item = &ports[i];
            let item_default = match item.is_default {
                Some(b) => b,
                None => false,
            };
            proof {
                let pv = ports.deep_view();
                let sub = pv.take(i as int + 1);
                assert(sub.drop_last() =~= pv.take(i as int));
                assert(sub.last() == pv[i as int]);
                assert(pv[i as int].is_default == item.is_default);
            }
            if default_idx.is_none() && item_default {
                default_idx = Some(i);
            }
            i += 1;
        }
        proof {
            assert(ports.deep_view().take(ports@.len() as int) =~= ports.deep_view());
        }
        let chosen: usize = match default_idx {
            Some(d) => d,
            None => 0,
        };
        Ok(clone_source_port(&ports[chosen]))
    } else {
        match source_port {
            None => Err(
                LaunchError::NoSourcePortConfigured { game_id: game_id.to_owned() },
            ),
            Some(spid) => {
                proof {
                    assert(source_port.deep_view() != Some("-1"@));
                }
                let mut found: Option<usize> = None;
                let mut i: usize = 0;
                while i < ports.len()
                    invariant
                        i <= ports.len(),
                        match found {
                            None => find_port_by_id(ports.deep_view().take(i as int), spid@)
                                is None,
                            Some(d) => d < i && find_port_by_id(
                                ports.deep_view().take(i as int),
                                spid@,
                            ) == Some(ports.deep_view()[d as int]),
                        },
                    decreases ports.len() - i,
                {
                    let item = &ports[i];
                    let matches_id = match &item.id {
                        Some(s) => str_eq(s.as_str(), spid.as_str()),
                        None => false,
                    };
                    proof {
                        let pv = ports.deep_view();
                        let sub = pv.take(i as int + 1);
                        assert(sub.drop_last() =~= pv.take(i as int));
                        assert(sub.last() == pv[i as int]);
                        assert(pv[i as int].id == item.id.deep_view());
                    }
                    if found.is_none() && matches_id {
                        found = Some(i);
                    }
                    i += 1;
                }
                proof {
                    assert(ports.deep_view().take(ports@.len() as int) =~= ports.deep_view());
                }
                match found {
                    Some(d) => Ok(clone_source_port(&ports[d])),
                    None => Err(
                        LaunchError::SourcePortNotFound { source_port_id: spid.clone() },
                    ),
                }
            },
        }
    }
}

/// Law: when no configuration is flagged as the default, resolving "use
/// default" selects the first configuration — deterministically, since the
/// selection is a function of the list alone.
pub proof fn lemma_no_default_falls_back_to_first(
    game_id: Seq<char>,
    ports: Seq<SourcePortConfigView>,
)
    requires
        ports.len() > 0,
        forall|i: int| 0 <= i < ports.len() ==> ports[i].is_default != Some(true),
    ensures
        selected_port_spec(Some("-1"@), game_id, ports) == Ok::<
            SourcePortConfigView,
            LaunchErrorView,
        >(ports[0]),
    decreases ports.len(),
{
    lemma_no_default_is_none(ports);
}

proof fn lemma_no_default_is_none(ports: Seq<SourcePortConfigView>)
    requires
        forall|i: int| 0 <= i < ports.len() ==> ports[i].is_default != Some(true),
    ensures
        find_default_port(ports) is None,
    decreases ports.len(),
{
    if ports.len() > 0 {
        assert(forall|i: int|
            0 <= i < ports.drop_last().len() ==> ports.drop_last()[i] == ports[i]);
        lemma_no_default_is_none(ports.drop_last());
    }
}

// ---------------------------------------------------------------------------
// IWAD and file resolution.
// ---------------------------------------------------------------------------
/// The game carries the tag `iwad`, in any letter case: the game's own data
/// file is the IWAD.
pub open spec fn has_iwad_tag(tags: Seq<Seq<char>>) -> bool {
    exists|i: int| 0 <= i < tags.len() && #[trigger] eq_ignore_ascii_case(tags[i], "iwad"@)
}

fn has_iwad_tag_exec(tags: &Vec<String>) -> (r: bool)
    ensures
        r == has_iwad_tag(tags.deep_view()),
{
    let mut i: usize = 0;
    while i < tags.len()
        invariant
            i <= tags.len(),
            forall|j: int| 0 <= j < i ==> !eq_ignore_ascii_case(
                #[trigger] tags.deep_view()[j],
                "iwad"@,
            ),
        decreases tags.len() - i,
    {
        if str_eq_ignore_ascii_case(tags[i].as_str(), "iwad") {
            assert(eq_ignore_ascii_case(tags.deep_view()[i as int], "iwad"@));
            return true;
        }
        i += 1;
    }
    false
}

/// The IWAD id of a game: its own id when it is tagged as an IWAD, else the
/// IWAD it names; a game with neither fails.
pub open spec fn resolved_iwad_id(game_id: Seq<char>, g: GameMetaView) -> Result<
    Seq<char>,
    LaunchErrorView,
> {
    let tags = match g.tags {
        Some(t) => t,
        None => Seq::empty(),
    };
    if has_iwad_tag(tags) {
        Ok(game_id)
    } else {
        match g.iwad_id {
            Some(x) => Ok(x),
            None => Err(LaunchErrorView::NoIwadConfigured { game_id }),
        }
    }
}

/// The absolute paths of the enabled files, in stored order.
pub open spec fn enabled_absolutes(state: Seq<FileStateView>) -> Seq<Seq<char>>
    decreases state.len(),
{
    if state.len() == 0 {
        Seq::empty()
    } else {
        let rest = enabled_absolutes(state.drop_last());
        if state.last().is_enabled {
            rest + seq![state.last().absolute]
        } else {
            rest
        }
    }
}

/// The absolute path of the first enabled file whose relative path begins
/// with the IWAD id, if any.
pub open spec fn first_enabled_iwad(state: Seq<FileStateView>, iwad_id: Seq<char>) -> Option<
    Seq<char>,
>
    decreases state.len(),
{
    if state.len() == 0 {
        None
    } else {
        let earlier = first_enabled_iwad(state.drop_last(), iwad_id);
        if earlier is Some {
            earlier
        } else {
            let f = state.last();
            if f.is_enabled && is_prefix(f.relative, iwad_id) {
                Some(f.absolute)
            } else {
                None
            }
        }
    }
}

// ---------------------------------------------------------------------------
// The launch plan.
// ---------------------------------------------------------------------------
/// What resolving a launch yields for any game record, source-port list and
/// game id: either a complete plan or the first failure encountered, in the
/// fixed order — missing game, source-port selection, empty command,
/// missing IWAD reference, no enabled IWAD file.
pub open spec fn plan_launch_spec(
    game_id: Seq<char>,
    game: Option<GameMetaView>,
    ports: Seq<SourcePortConfigView>,
) -> Result<LaunchPlanView, LaunchErrorView> {
    match game {
        None => Err(LaunchErrorView::GameNotFound { game_id }),
        Some(g) => match selected_port_spec(g.source_port, game_id, ports) {
            Err(e) => Err(e),
            Ok(p) => {
                let port_id = opt_or_empty(p.id);
                if p.command is None || p.command.unwrap().len() == 0 {
                    Err(LaunchErrorView::SourcePortHasNoCommand { source_port_id: port_id })
                } else {
                    let cmd = p.command.unwrap();
                    match resolved_iwad_id(game_id, g) {
                        Err(e) => Err(e),
                        Ok(iwad_id) => {
                            let state = match g.previous_file_state {
                                Some(s) => s,
                                None => Seq::empty(),
                            };
                            match first_enabled_iwad(state, iwad_id) {
                                None => Err(LaunchErrorView::NoEnabledIwadFiles { game_id }),
                                Some(iwad) => Ok(
                                    LaunchPlanView {
                                        executable: cmd[0],
                                        base_args: cmd.drop_first(),
                                        known_source_port_id: match p.known_source_port_id {
                                            Some(k) => k,
                                            None => "gzdoom"@,
                                        },
                                        iwad,
                                        files: enabled_absolutes(state),
                                        use_custom_config: match g.use_custom_config {
                                            Some(b) => b,
                                            None => false,
                                        },
                                        game_id,
                                    },
                                ),
                            }
                        },
                    }
                }
            },
        },
    }
}

/// Resolves everything a launch needs from the game record and the
/// configured source ports.
pub fn plan_launch(game_id: &str, game: &Option<DbGameMeta>, ports: &Vec<DbSourcePort>) -> (r:
    Result<LaunchPlan, LaunchError>)
    ensures
        ({
            let expected = plan_launch_spec(game_id@, game.deep_view(), ports.deep_view());
            match r {
                Ok(p) => expected == Ok::<LaunchPlanView, LaunchErrorView>(p.deep_view()),
                Err(e) => expected == Err::<LaunchPlanView, LaunchErrorView>(e.deep_view()),
            }
        }),
{
    let g = match game {
        Some(g) => g,
        None => {
            return Err(LaunchError::GameNotFound { game_id: game_id.to_owned() });
        },
    };
    let port = match select_source_port(&g.source_port, game_id, ports) {
        Ok(p) => p,
        Err(e) => {
            return Err(e);
        },
    };
    let port_id = match &port.id {
        Some(s) => s.clone(),
        None => String::new(),
    };
    let cmd = match port.command {
        Some(c) => c,
        None => {
            return Err(LaunchError::SourcePortHasNoCommand { source_port_id: port_id });
        },
    };
    if cmd.len() == 0 {
        return Err(LaunchError::SourcePortHasNoCommand { source_port_id: port_id });
    }
    let executable = cmd[0].clone();
    let mut base_args: Vec<String> = Vec::new();
    let mut i: usize = 1;
    while i < cmd.len()
        invariant
            1 <= i <= cmd.len(),
            base_args.deep_view() =~= cmd.deep_view().subrange(1, i as int),
        decreases cmd.len() - i,
    {
        let x = cmd[i].clone();
        let ghost xv = x@;
        let ghost pre = base_args.deep_view();
        base_args.push(x);
        proof {
            assert(base_args.deep_view() =~= pre.push(xv));
            assert(xv == cmd.deep_view()[i as int]);
            assert(base_args.deep_view() =~= cmd.deep_view().subrange(1, i as int + 1));
        }
        i += 1;
    }
    proof {
        assert(base_args.deep_view() =~= cmd.deep_view().drop_first());
    }
    let known_source_port_id = match &port.known_source_port_id {
        Some(k) => k.clone(),
        None => String::from_str("gzdoom"),
    };
    let tagged_iwad = match &g.tags {
        Some(t) => has_iwad_tag_exec(t),
        None => false,
    };
    let iwad_id: String = if tagged_iwad {
        game_id.to_owned()
    } else {
        match &g.iwad_id {
            Some(x) => x.clone(),
            None => {
                return Err(LaunchError::NoIwadConfigured { game_id: game_id.to_owned() });
            },
        }
    };
    let mut files: Vec<String> = Vec::new();
    let mut iwad: Option<String> = None;
    match &g.previous_file_state {
        None => {},
        Some(state) => {
            let mut k: usize = 0;
            while k < state.len()
                invariant
                    k <= state.len(),
                    files.deep_view() =~= enabled_absolutes(state.deep_view().take(k as int)),
                    iwad.deep_view() == first_enabled_iwad(
                        state.deep_view().take(k as int),
                        iwad_id@,
                    ),
                decreases state.len() - k,
            {
                let item = &state[k];
                proof {
                    let sv = state.deep_view();
                    let sub = sv.take(k as int + 1);
                    assert(sub.drop_last() =~= sv.take(k as int));
                    assert(sub.last() == sv[k as int]);
                    assert(sv[k as int] == item.deep_view());
                }
                if item.is_enabled {
                    if iwad.is_none() && str_starts_with(
                        item.relative.as_str(),
                        iwad_id.as_str(),
                    ) {
                        iwad = Some(item.absolute.clone());
                    }
                    let x = item.absolute.clone();
                    let ghost xv = x@;
                    let ghost pre = files.deep_view();
                    files.push(x);
                    proof {
                        assert(files.deep_view() =~= pre.push(xv));
                        assert(files.deep_view() =~= enabled_absolutes(
                            state.deep_view().take(k as int + 1),
                        ));
                    }
                }
                k += 1;
            }
            proof {
                assert(state.deep_view().take(state@.len() as int) =~= state.deep_view());
            }
        },
    }
    let iwad = match iwad {
        Some(x) => x,
        None => {
            return Err(LaunchError::NoEnabledIwadFiles { game_id: game_id.to_owned() });
        },
    };
    let plan = LaunchPlan {
        executable,
        base_args,
        known_source_port_id,
        iwad,
        files,
        use_custom_config: match g.use_custom_config {
            Some(b) => b,
            None => false,
        },
        game_id: game_id.to_owned(),
    };
    proof {
        assert(plan_launch_spec(game_id@, game.deep_view(), ports.deep_view()) matches Ok(v)
            && v =~= plan.deep_view());
    }
    Ok(plan)
}

// ---------------------------------------------------------------------------
// Application-bundle indirection of the executable.
// ---------------------------------------------------------------------------
/// Where an application bundle keeps its manifest.
pub open spec fn bundle_manifest_path_spec(exe: Seq<char>) -> Seq<char> {
    exe + "/Contents/Info.plist"@
}

/// The manifest file to probe for an application bundle at `executable`.
pub fn bundle_manifest_path(executable: &str) -> (r: String)
    ensures
        r@ == bundle_manifest_path_spec(executable@),
{
    str_concat(executable, "/Contents/Info.plist")
}

/// The executable name a bundle manifest declares, as a function of the
/// manifest's bytes alone.
pub uninterp spec fn plist_bundle_executable(bytes: Seq<u8>) -> Option<Seq<char>>;

/// Relies on `plist::Value::from_reader` together with the accessors
/// `Value::as_dictionary`, `Dictionary::get` and `Value::as_string`:
/// parsing a property-list document is a function of its bytes alone, and
/// the result here is the string value of the document's
/// `CFBundleExecutable` key, when the document parses to a dictionary that
/// holds a string under that key.
#[verifier::external_body]
fn read_bundle_executable(manifest: &Vec<u8>) -> (r: Option<String>)
    ensures
        r.deep_view() == plist_bundle_executable(manifest@),
{
    match plist::Value::from_reader(std::io::Cursor::new(manifest.as_slice())) {
        Err(_) => None,
        Ok(value) => match value.as_dictionary() {
            None => None,
            Some(dict) => match dict.get("CFBundleExecutable") {
                None => None,
                Some(entry) => match entry.as_string() {
                    None => None,
                    Some(s) => Some(s.to_string()),
                },
            },
        },
    }
}

/// What the executable path resolves to: unchanged when no bundle manifest
/// exists; rewritten to the bundle's declared executable when the manifest
/// names one; a failure when the manifest yields none.
pub open spec fn resolved_executable_spec(exe: Seq<char>, manifest: Option<Seq<u8>>) -> Result<
    Seq<char>,
    LaunchErrorView,
> {
    match manifest {
        None => Ok(exe),
        Some(bytes) => match plist_bundle_executable(bytes) {
            Some(name) => Ok(exe + "/Contents/MacOS/"@ + name),
            None => Err(LaunchErrorView::BundleResolutionFailed { executable: exe }),
        },
    }
}

/// Resolves the true executable path.  `manifest` holds the bytes of the
/// bundle manifest when one exists beside the executable (the caller reads
/// `bundle_manifest_path`), `None` when there is none.
pub fn resolve_executable(executable: &str, manifest: &Option<Vec<u8>>) -> (r: Result<
    String,
    LaunchError,
>)
    ensures
        ({
            let expected = resolved_executable_spec(executable@, manifest.deep_view());
            match r {
                Ok(p) => expected == Ok::<Seq<char>, LaunchErrorView>(p@),
                Err(e) => expected == Err::<Seq<char>, LaunchErrorView>(e.deep_view()),
            }
        }),
{
    match manifest {
        None => Ok(executable.to_owned()),
        Some(bytes) => {
            proof {
                assert(bytes.deep_view() =~= bytes@);
            }
            match read_bundle_executable(bytes) {
                Some(name) => {
                    let base = str_concat(executable, "/Contents/MacOS/");
                    Ok(str_concat(base.as_str(), name.as_str()))
                },
                None => Err(
                    LaunchError::BundleResolutionFailed { executable: executable.to_owned() },
                ),
            }
        },
    }
}

// ---------------------------------------------------------------------------
// Assembling the full command line.
// ---------------------------------------------------------------------------
/// The launch request handed to the command synthesizer for a plan, with
/// the executable already resolved.
pub open spec fn launch_request_of(
    plan: LaunchPlanView,
    resolved_exe: Seq<char>,
    meta_dir: Seq<char>,
) -> BuildCommandArgsView {
    BuildCommandArgsView {
        executable: resolved_exe,
        iwad: plan.iwad,
        files: plan.files,
        use_custom_config: plan.use_custom_config,
        game_id: plan.game_id,
        meta_directory: meta_dir,
    }
}

/// The full command line of a launch: the synthesized vector with the
/// configuration's own base arguments spliced in between the executable and
/// the synthesized arguments.  The engine profile is the one the plan
/// references, resolved with the registry's fallback.
pub open spec fn assembled_command_spec(
    plan: LaunchPlanView,
    resolved_exe: Seq<char>,
    meta_dir: Seq<char>,
) -> Seq<Seq<char>> {
    let port = found_port(plan.known_source_port_id);
    let synth = build_command_spec(port, launch_request_of(plan, resolved_exe, meta_dir));
    seq![synth[0]] + plan.base_args + synth.drop_first()
}

/// Assembles the full command line for a resolved launch plan.
pub fn assemble_command(plan: &LaunchPlan, resolved_exe: &str, meta_directory: &str) -> (r: Vec<
    String,
>)
    ensures
        r.deep_view() == assembled_command_spec(plan.deep_view(), resolved_exe@, meta_directory@),
{
    let port = find_known_source_port_from_id(plan.known_source_port_id.as_str());
    let args = BuildCommandArgs {
        executable: resolved_exe.to_owned(),
        iwad: plan.iwad.clone(),
        files: clone_string_vec(&plan.files),
        use_custom_config: plan.use_custom_config,
        game_id: plan.game_id.clone(),
        meta_directory: meta_directory.to_owned(),
    };
    proof {
        assert(args.deep_view() =~= launch_request_of(
            plan.deep_view(),
            resolved_exe@,
            meta_directory@,
        ));
    }
    let synth = port.build_command(&args);
    let ghost synth_view = synth.deep_view();
    proof {
        assert(synth_view.len() >= 1);
        assert(synth@.len() == synth_view.len());
    }
    let mut r: Vec<String> = Vec::new();
    r.push(synth[0].clone());
    proof {
        assert(r.deep_view() =~= seq![synth_view[0]]);
    }
    let mut i: usize = 0;
    while i < plan.base_args.len()
        invariant
            i <= plan.base_args.len(),
            synth_view.len() >= 1,
            r.deep_view() =~= seq![synth_view[0]] + plan.base_args.deep_view().take(i as int),
        decreases plan.base_args.len() - i,
    {
        let x = plan.base_args[i].clone();
        let ghost xv = x@;
        let ghost pre = r.deep_view();
        r.push(x);
        proof {
            assert(r.deep_view() =~= pre.push(xv));
            assert(xv == plan.base_args.deep_view()[i as int]);
            assert(r.deep_view() =~= seq![synth_view[0]] + plan.base_args.deep_view().take(
                i as int + 1,
            ));
        }
        i += 1;
    }
    proof {
        assert(plan.base_args.deep_view().take(plan.base_args@.len() as int)
            =~= plan.base_args.deep_view());
    }
    let mut j: usize = 1;
    while j < synth.len()
        invariant
            1 <= j <= synth.len(),
            synth.deep_view() == synth_view,
            synth_view.len() >= 1,
            r.deep_view() =~= seq![synth_view[0]] + plan.base_args.deep_view()
                + synth_view.subrange(1, j as int),
        decreases synth.len() - j,
    {
        let x = synth[j].clone();
        let ghost xv = x@;
        let ghost pre = r.deep_view();
        r.push(x);
        proof {
            assert(r.deep_view() =~= pre.push(xv));
            assert(xv == synth_view[j as int]);
            assert(r.deep_view() =~= seq![synth_view[0]] + plan.base_args.deep_view()
                + synth_view.subrange(1, j as int + 1));
        }
        j += 1;
    }
    proof {
        assert(synth_view.subrange(1, synth_view.len() as int) =~= synth_view.drop_first());
        assert(r.deep_view() =~= assembled_command_spec(
            plan.deep_view(),
            resolved_exe@,
            meta_directory@,
        ));
    }
    r
}

} // verus!
