//! The command line: which subcommand to run and with what options.
use vstd::prelude::*;

use crate::chars::{
    chars_of, has_prefix, lower_of, starts_with, str_eq, string_of_range, strings_view, to_lowercase,
};

verus! {

/// Prefix that names a tracker or model type that the application does not know.
pub const CUSTOM_PREFIX: &'static str = "custom:";

/// A tracking source to start with.
#[derive(Debug, Clone, PartialEq, Eq)]
pub enum Tracker {
    MediaPipe,
    IFacialMocap,
    VTubeStudio,
    MeowFace,
    OpenSeeFace,
    Custom(String),
}

/// What a [`Tracker`] stands for.
pub enum TrackerModel {
    MediaPipe,
    IFacialMocap,
    VTubeStudio,
    MeowFace,
    OpenSeeFace,
    Custom(Seq<char>),
}

impl View for Tracker {
    type V = TrackerModel;

    open spec fn view(&self) -> TrackerModel {
        match self {
            Tracker::MediaPipe => TrackerModel::MediaPipe,
            Tracker::IFacialMocap => TrackerModel::IFacialMocap,
            Tracker::VTubeStudio => TrackerModel::VTubeStudio,
            Tracker::MeowFace => TrackerModel::MeowFace,
            Tracker::OpenSeeFace => TrackerModel::OpenSeeFace,
            Tracker::Custom(s) => TrackerModel::Custom(s@),
        }
    }
}

/// A kind of model to load.
#[derive(Debug, Clone, PartialEq, Eq)]
pub enum ModelType {
    Glb,
    Vrm,
    PngTuber,
    Custom(String),
}

/// What a [`ModelType`] stands for.
pub enum ModelTypeModel {
    Glb,
    Vrm,
    PngTuber,
    Custom(Seq<char>),
}

impl View for ModelType {
    type V = ModelTypeModel;

    open spec fn view(&self) -> ModelTypeModel {
        match self {
            ModelType::Glb => ModelTypeModel::Glb,
            ModelType::Vrm => ModelTypeModel::Vrm,
            ModelType::PngTuber => ModelTypeModel::PngTuber,
            ModelType::Custom(s) => ModelTypeModel::Custom(s@),
        }
    }
}

/// The name after [`CUSTOM_PREFIX`], when `s` has that prefix and something follows it.
pub open spec fn custom_name(s: Seq<char>) -> Option<Seq<char>> {
    if has_prefix(s, CUSTOM_PREFIX@) && s.len() > CUSTOM_PREFIX@.len() {
        Some(s.subrange(CUSTOM_PREFIX@.len() as int, s.len() as int))
    } else {
        None
    }
}

/// The tracker that `s` names, given `folded`, its lowercase form: a known name
/// or abbreviation in any case, or a custom name.
pub open spec fn tracker_named(folded: Seq<char>, s: Seq<char>) -> Option<TrackerModel> {
    if folded == "mediapipe"@ || folded == "mp"@ {
        Some(TrackerModel::MediaPipe)
    } else if folded == "ifacialmocap"@ || folded == "ifm"@ {
        Some(TrackerModel::IFacialMocap)
    } else if folded == "vtubestudio"@ || folded == "vts"@ {
        Some(TrackerModel::VTubeStudio)
    } else if folded == "meowface"@ || folded == "mf"@ {
        Some(TrackerModel::MeowFace)
    } else if folded == "openseeface"@ || folded == "osf"@ {
        Some(TrackerModel::OpenSeeFace)
    } else {
        match custom_name(s) {
            Some(n) => Some(TrackerModel::Custom(n)),
            None => None,
        }
    }
}

/// The model type that `s` names, given `folded`, its lowercase form.
pub open spec fn model_type_named(folded: Seq<char>, s: Seq<char>) -> Option<ModelTypeModel> {
    if folded == "glb"@ {
        Some(ModelTypeModel::Glb)
    } else if folded == "vrm"@ {
        Some(ModelTypeModel::Vrm)
    } else if folded == "pngtuber"@ || folded == "png tuber"@ {
        Some(ModelTypeModel::PngTuber)
    } else {
        match custom_name(s) {
            Some(n) => Some(ModelTypeModel::Custom(n)),
            None => None,
        }
    }
}

/// Splits off the custom name of `s`, as [`custom_name`] says.
fn strip_custom(s: &str) -> (r: Option<String>)
    ensures
        r matches Some(n) ==> custom_name(s@) == Some(n@),
        r is None ==> custom_name(s@) is None,
{
    let v = chars_of(s);
    let p = chars_of(CUSTOM_PREFIX);
    if starts_with(&v, &p) && v.len() > p.len() {
        Some(string_of_range(&v, p.len(), v.len()))
    } else {
        None
    }
}

impl Tracker {
    /// The tracker that `s` names, where `folded` is `s` in lowercase.
    pub fn from_folded(s: &str, folded: &str) -> (r: Result<Tracker, CliError>)
        ensures
            r matches Ok(t) ==> tracker_named(folded@, s@) == Some(t@),
            r matches Err(e) ==> (tracker_named(folded@, s@) is None
                && e@ == (CliErrorModel::UnknownTracker { input: s@ })),
    {
        if str_eq(folded, "mediapipe") || str_eq(folded, "mp") {
            Ok(Tracker::MediaPipe)
        } else if str_eq(folded, "ifacialmocap") || str_eq(folded, "ifm") {
            Ok(Tracker::IFacialMocap)
        } else if str_eq(folded, "vtubestudio") || str_eq(folded, "vts") {
            Ok(Tracker::VTubeStudio)
        } else if str_eq(folded, "meowface") || str_eq(folded, "mf") {
            Ok(Tracker::MeowFace)
        } else if str_eq(folded, "openseeface") || str_eq(folded, "osf") {
            Ok(Tracker::OpenSeeFace)
        } else {
            match strip_custom(s) {
                Some(n) => Ok(Tracker::Custom(n)),
                None => Err(CliError::UnknownTracker { input: s.to_owned() }),
            }
        }
    }

    /// The tracker that `s` names, in any case; see [`tracker_named`].
    pub fn parse_name(s: &str) -> (r: Result<Tracker, CliError>)
        ensures
            r matches Ok(t) ==> tracker_named(lower_of(s@), s@) == Some(t@),
            r matches Err(e) ==> (tracker_named(lower_of(s@), s@) is None
                && e@ == (CliErrorModel::UnknownTracker { input: s@ })),
    {
        let folded = to_lowercase(s);
        Tracker::from_folded(s, folded.as_str())
    }

    /// The name of the tracker as the application writes it.
    pub fn as_str(&self) -> (r: &str)
        ensures
            r@ == tracker_text(self@),
    {
        match self {
            Tracker::MediaPipe => "mediapipe",
            Tracker::IFacialMocap => "ifacialmocap",
            Tracker::VTubeStudio => "vtubestudio",
            Tracker::MeowFace => "meowface",
            Tracker::OpenSeeFace => "openseeface",
            Tracker::Custom(v) => v.as_str(),
        }
    }
}

impl std::str::FromStr for Tracker {
    type Err = CliError;

    fn from_str(s: &str) -> Result<Tracker, CliError> {
        Tracker::parse_name(s)
    }
}

impl AsRef<str> for Tracker {
    fn as_ref(&self) -> &str {
        self.as_str()
    }
}

/// The name of a tracker as the application writes it.
pub open spec fn tracker_text(t: TrackerModel) -> Seq<char> {
    match t {
        TrackerModel::MediaPipe => "mediapipe"@,
        TrackerModel::IFacialMocap => "ifacialmocap"@,
        TrackerModel::VTubeStudio => "vtubestudio"@,
        TrackerModel::MeowFace => "meowface"@,
        TrackerModel::OpenSeeFace => "openseeface"@,
        TrackerModel::Custom(v) => v,
    }
}

impl ModelType {
    /// The model type that `s` names, where `folded` is `s` in lowercase.
    pub fn from_folded(s: &str, folded: &str) -> (r: Result<ModelType, CliError>)
        ensures
            r matches Ok(t) ==> model_type_named(folded@, s@) == Some(t@),
            r matches Err(e) ==> (model_type_named(folded@, s@) is None
                && e@ == (CliErrorModel::UnknownModelType { input: s@ })),
    {
        if str_eq(folded, "glb") {
            Ok(ModelType::Glb)
        } else if str_eq(folded, "vrm") {
            Ok(ModelType::Vrm)
        } else if str_eq(folded, "pngtuber") || str_eq(folded, "png tuber") {
            Ok(ModelType::PngTuber)
        } else {
            match strip_custom(s) {
                Some(n) => Ok(ModelType::Custom(n)),
                None => Err(CliError::UnknownModelType { input: s.to_owned() }),
            }
        }
    }

    /// The model type that `s` names, in any case; see [`model_type_named`].
    pub fn parse_name(s: &str) -> (r: Result<ModelType, CliError>)
        ensures
            r matches Ok(t) ==> model_type_named(lower_of(s@), s@) == Some(t@),
            r matches Err(e) ==> (model_type_named(lower_of(s@), s@) is None
                && e@ == (CliErrorModel::UnknownModelType { input: s@ })),
    {
        let folded = to_lowercase(s);
        ModelType::from_folded(s, folded.as_str())
    }

    /// The name of the model type as the application writes it.
    pub fn as_str(&self) -> (r: &str)
        ensures
            r@ == model_type_text(self@),
    {
        match self {
            ModelType::Glb => "glb",
            ModelType::Vrm => "vrm",
            ModelType::PngTuber => "pngtuber",
            ModelType::Custom(v) => v.as_str(),
        }
    }
}

impl std::str::FromStr for ModelType {
    type Err = CliError;

    fn from_str(s: &str) -> Result<ModelType, CliError> {
        ModelType::parse_name(s)
    }
}

impl AsRef<str> for ModelType {
    fn as_ref(&self) -> &str {
        self.as_str()
    }
}

/// The name of a model type as the application writes it.
pub open spec fn model_type_text(t: ModelTypeModel) -> Seq<char> {
    match t {
        ModelTypeModel::Glb => "glb"@,
        ModelTypeModel::Vrm => "vrm"@,
        ModelTypeModel::PngTuber => "pngtuber"@,
        ModelTypeModel::Custom(v) => v,
    }
}

/// Why the command line was not accepted.
#[derive(Debug, Clone)]
pub enum CliError {
    ParseFailure(ArgError),
    UnknownTracker { input: String },
    UnknownModelType { input: String },
}

/// What a [`CliError`] stands for.
pub enum CliErrorModel {
    ParseFailure(ArgErrorModel),
    UnknownTracker { input: Seq<char> },
    UnknownModelType { input: Seq<char> },
}

impl View for CliError {
    type V = CliErrorModel;

    open spec fn view(&self) -> CliErrorModel {
        match self {
            CliError::ParseFailure(e) => CliErrorModel::ParseFailure(e@),
            CliError::UnknownTracker { input } => CliErrorModel::UnknownTracker { input: input@ },
            CliError::UnknownModelType { input } => CliErrorModel::UnknownModelType {
                input: input@,
            },
        }
    }
}

/// Why the arguments could not be read, or that usage help was asked for.
#[derive(Debug, Clone)]
pub enum ArgError {
    /// Usage help was asked for, for the command named by this path.
    HelpRequested { command: Vec<String> },
    /// Options followed a request for help.
    TrailingAfterHelp,
    /// An argument that no option, subcommand or positional takes.
    Unrecognized { arg: String },
    /// An option that takes a value came last.
    MissingValue { option: String },
    /// An option was given twice.
    DuplicateValue { option: String },
    /// An option's value does not name anything that the option accepts.
    InvalidValue { option: String, value: String },
    /// A required positional argument is missing.
    MissingPositional { name: String },
}

/// What an [`ArgError`] stands for.
pub enum ArgErrorModel {
    HelpRequested { command: Seq<Seq<char>> },
    TrailingAfterHelp,
    Unrecognized { arg: Seq<char> },
    MissingValue { option: Seq<char> },
    DuplicateValue { option: Seq<char> },
    InvalidValue { option: Seq<char>, value: Seq<char> },
    MissingPositional { name: Seq<char> },
}

impl View for ArgError {
    type V = ArgErrorModel;

    open spec fn view(&self) -> ArgErrorModel {
        match self {
            ArgError::HelpRequested { command } => ArgErrorModel::HelpRequested {
                command: strings_view(command@),
            },
            ArgError::TrailingAfterHelp => ArgErrorModel::TrailingAfterHelp,
            ArgError::Unrecognized { arg } => ArgErrorModel::Unrecognized { arg: arg@ },
            ArgError::MissingValue { option } => ArgErrorModel::MissingValue { option: option@ },
            ArgError::DuplicateValue { option } => ArgErrorModel::DuplicateValue {
                option: option@,
            },
            ArgError::InvalidValue { option, value } => ArgErrorModel::InvalidValue {
                option: option@,
                value: value@,
            },
            ArgError::MissingPositional { name } => ArgErrorModel::MissingPositional {
                name: name@,
            },
        }
    }
}

/// The characters of each argument.
pub open spec fn strs_view(v: Seq<&str>) -> Seq<Seq<char>> {
    v.map_values(|s: &str| s@)
}

/// Whether argument `a` asks for usage help.
pub open spec fn is_help_trigger(a: Seq<char>) -> bool {
    a == "--help"@ || a == "help"@
}

/// Whether argument `a` reads as an option.
pub open spec fn is_dashed(a: Seq<char>) -> bool {
    a.len() > 0 && a[0] == '-'
}

/// `Some` of the view of `o`'s string, or `None`.
pub open spec fn opt_view(o: Option<String>) -> Option<Seq<char>> {
    match o {
        Some(s) => Some(s@),
        None => None,
    }
}

/// The program's own command line.
#[derive(Debug)]
pub struct Args {
    /// Enable verbose logging; `quiet` wins over it.
    pub verbose: bool,
    /// Disable all logging.
    pub quiet: bool,
    /// The subcommand, if one was given.
    pub commands: Option<Commands>,
}

/// The subcommands.
#[derive(Debug)]
pub enum Commands {
    Launch(LaunchCommand),
    WithModel(WithModelCommand),
}

/// Launch with some options.
#[derive(Debug)]
pub struct LaunchCommand {
    /// Name of the runner data to launch.
    pub runner_data: String,
    /// Tracker to start upon launch.
    pub tracker: Option<Tracker>,
}

/// Launch and load a new model.
#[derive(Debug)]
pub struct WithModelCommand {
    /// Path to the model to load.
    pub model_path: String,
    /// Force loading as this model type.
    pub model_type: Option<ModelType>,
    /// Path to a custom runner.
    pub runner_path: Option<String>,
    /// Path to a custom gui.
    pub gui_path: Option<String>,
}

/// What an [`Args`] stands for.
pub struct ArgsModel {
    pub verbose: bool,
    pub quiet: bool,
    pub commands: Option<CommandsModel>,
}

/// What a [`Commands`] stands for.
pub enum CommandsModel {
    Launch(LaunchModel),
    WithModel(WithModelModel),
}

/// What a [`LaunchCommand`] stands for.
pub struct LaunchModel {
    pub runner_data: Seq<char>,
    pub tracker: Option<TrackerModel>,
}

/// What a [`WithModelCommand`] stands for.
pub struct WithModelModel {
    pub model_path: Seq<char>,
    pub model_type: Option<ModelTypeModel>,
    pub runner_path: Option<Seq<char>>,
    pub gui_path: Option<Seq<char>>,
}

impl View for LaunchCommand {
    type V = LaunchModel;

    open spec fn view(&self) -> LaunchModel {
        LaunchModel {
            runner_data: self.runner_data@,
            tracker: match self.tracker {
                Some(t) => Some(t@),
                None => None,
            },
        }
    }
}

impl View for WithModelCommand {
    type V = WithModelModel;

    open spec fn view(&self) -> WithModelModel {
        WithModelModel {
            model_path: self.model_path@,
            model_type: match self.model_type {
                Some(t) => Some(t@),
                None => None,
            },
            runner_path: opt_view(self.runner_path),
            gui_path: opt_view(self.gui_path),
        }
    }
}

impl View for Commands {
    type V = CommandsModel;

    open spec fn view(&self) -> CommandsModel {
        match self {
            Commands::Launch(c) => CommandsModel::Launch(c@),
            Commands::WithModel(c) => CommandsModel::WithModel(c@),
        }
    }
}

impl View for Args {
    type V = ArgsModel;

    open spec fn view(&self) -> ArgsModel {
        ArgsModel {
            verbose: self.verbose,
            quiet: self.quiet,
            commands: match self.commands {
                Some(c) => Some(c@),
                None => None,
            },
        }
    }
}

/// How far the arguments of `launch` have been read.
pub struct LaunchState {
    pub help: bool,
    pub ended: bool,
    pub runner_data: Option<Seq<char>>,
    pub tracker: Option<TrackerModel>,
}

/// The `launch` subcommand read from `args[i..]` on top of `st`; `cmd` is the
/// command path that a request for help names.
pub open spec fn parse_launch(
    cmd: Seq<Seq<char>>,
    args: Seq<Seq<char>>,
    i: int,
    st: LaunchState,
) -> Result<LaunchModel, ArgErrorModel>
    decreases args.len() - i,
{
    if i >= args.len() {
        if st.help {
            Err(ArgErrorModel::HelpRequested { command: cmd })
        } else {
            match st.runner_data {
                Some(r) => Ok(LaunchModel { runner_data: r, tracker: st.tracker }),
                None => Err(ArgErrorModel::MissingPositional { name: "runner_data"@ }),
            }
        }
    } else {
        let a = args[i];
        if !st.ended && is_help_trigger(a) {
            parse_launch(cmd, args, i + 1, LaunchState { help: true, ..st })
        } else if !st.ended && is_dashed(a) {
            if a == "--"@ {
                parse_launch(cmd, args, i + 1, LaunchState { ended: true, ..st })
            } else if st.help {
                Err(ArgErrorModel::TrailingAfterHelp)
            } else if a == "--tracker"@ {
                if i + 1 >= args.len() {
                    Err(ArgErrorModel::MissingValue { option: a })
                } else if st.tracker is Some {
                    Err(ArgErrorModel::DuplicateValue { option: a })
                } else {
                    match tracker_named(lower_of(args[i + 1]), args[i + 1]) {
                        Some(t) => parse_launch(
                            cmd,
                            args,
                            i + 2,
                            LaunchState { tracker: Some(t), ..st },
                        ),
                        None => Err(ArgErrorModel::InvalidValue { option: a, value: args[i + 1] }),
                    }
                }
            } else {
                Err(ArgErrorModel::Unrecognized { arg: a })
            }
        } else if st.runner_data is None {
            parse_launch(cmd, args, i + 1, LaunchState { runner_data: Some(a), ..st })
        } else {
            Err(ArgErrorModel::Unrecognized { arg: a })
        }
    }
}

/// How far the arguments of `with-model` have been read.
pub struct WithModelState {
    pub help: bool,
    pub ended: bool,
    pub model_path: Option<Seq<char>>,
    pub model_type: Option<ModelTypeModel>,
    pub runner_path: Option<Seq<char>>,
    pub gui_path: Option<Seq<char>>,
}

/// The `with-model` subcommand read from `args[i..]` on top of `st`.
pub open spec fn parse_with_model(
    cmd: Seq<Seq<char>>,
    args: Seq<Seq<char>>,
    i: int,
    st: WithModelState,
) -> Result<WithModelModel, ArgErrorModel>
    decreases args.len() - i,
{
    if i >= args.len() {
        if st.help {
            Err(ArgErrorModel::HelpRequested { command: cmd })
        } else {
            match st.model_path {
                Some(p) => Ok(
                    WithModelModel {
                        model_path: p,
                        model_type: st.model_type,
                        runner_path: st.runner_path,
                        gui_path: st.gui_path,
                    },
                ),
                None => Err(ArgErrorModel::MissingPositional { name: "model_path"@ }),
            }
        }
    } else {
        let a = args[i];
        if !st.ended && is_help_trigger(a) {
            parse_with_model(cmd, args, i + 1, WithModelState { help: true, ..st })
        } else if !st.ended && is_dashed(a) {
            if a == "--"@ {
                parse_with_model(cmd, args, i + 1, WithModelState { ended: true, ..st })
            } else if st.help {
                Err(ArgErrorModel::TrailingAfterHelp)
            } else if a == "--model-type"@ || a == "--runner-path"@ || a == "--gui-path"@ {
                if i + 1 >= args.len() {
                    Err(ArgErrorModel::MissingValue { option: a })
                } else {
                    let v = args[i + 1];
                    if a == "--model-type"@ {
                        if st.model_type is Some {
                            Err(ArgErrorModel::DuplicateValue { option: a })
                        } else {
                            match model_type_named(lower_of(v), v) {
                                Some(t) => parse_with_model(
                                    cmd,
                                    args,
                                    i + 2,
                                    WithModelState { model_type: Some(t), ..st },
                                ),
                                None => Err(ArgErrorModel::InvalidValue { option: a, value: v }),
                            }
                        }
                    } else if a == "--runner-path"@ {
                        if st.runner_path is Some {
                            Err(ArgErrorModel::DuplicateValue { option: a })
                        } else {
                            parse_with_model(
                                cmd,
                                args,
                                i + 2,
                                WithModelState { runner_path: Some(v), ..st },
                            )
                        }
                    } else {
                        if st.gui_path is Some {
                            Err(ArgErrorModel::DuplicateValue { option: a })
                        } else {
                            parse_with_model(
                                cmd,
                                args,
                                i + 2,
                                WithModelState { gui_path: Some(v), ..st },
                            )
                        }
                    }
                }
            } else {
                Err(ArgErrorModel::Unrecognized { arg: a })
            }
        } else if st.model_path is None {
            parse_with_model(cmd, args, i + 1, WithModelState { model_path: Some(a), ..st })
        } else {
            Err(ArgErrorModel::Unrecognized { arg: a })
        }
    }
}

/// How far the top-level arguments have been read.
pub struct TopState {
    pub verbose: bool,
    pub quiet: bool,
    pub help: bool,
    pub ended: bool,
}

/// The command line read from `args[i..]` on top of `st`; `cmd` is the
/// program's command path.
pub open spec fn parse_top(
    cmd: Seq<Seq<char>>,
    args: Seq<Seq<char>>,
    i: int,
    st: TopState,
) -> Result<ArgsModel, ArgErrorModel>
    decreases args.len() - i,
{
    if i >= args.len() {
        if st.help {
            Err(ArgErrorModel::HelpRequested { command: cmd })
        } else {
            Ok(ArgsModel { verbose: st.verbose, quiet: st.quiet, commands: None })
        }
    } else {
        let a = args[i];
        if !st.ended && is_help_trigger(a) {
            parse_top(cmd, args, i + 1, TopState { help: true, ..st })
        } else if !st.ended && is_dashed(a) {
            if a == "--"@ {
                parse_top(cmd, args, i + 1, TopState { ended: true, ..st })
            } else if st.help {
                Err(ArgErrorModel::TrailingAfterHelp)
            } else if a == "--verbose"@ || a == "-v"@ {
                parse_top(cmd, args, i + 1, TopState { verbose: true, ..st })
            } else if a == "--quiet"@ || a == "-q"@ {
                parse_top(cmd, args, i + 1, TopState { quiet: true, ..st })
            } else {
                Err(ArgErrorModel::Unrecognized { arg: a })
            }
        } else if a == "launch"@ {
            let init = LaunchState {
                help: st.help,
                ended: false,
                runner_data: None,
                tracker: None,
            };
            match parse_launch(cmd.push(a), args, i + 1, init) {
                Ok(c) => Ok(
                    ArgsModel {
                        verbose: st.verbose,
                        quiet: st.quiet,
                        commands: Some(CommandsModel::Launch(c)),
                    },
                ),
                Err(e) => Err(e),
            }
        } else if a == "with-model"@ {
            let init = WithModelState {
                help: st.help,
                ended: false,
                model_path: None,
                model_type: None,
                runner_path: None,
                gui_path: None,
            };
            match parse_with_model(cmd.push(a), args, i + 1, init) {
                Ok(c) => Ok(
                    ArgsModel {
                        verbose: st.verbose,
                        quiet: st.quiet,
                        commands: Some(CommandsModel::WithModel(c)),
                    },
                ),
                Err(e) => Err(e),
            }
        } else {
            Err(ArgErrorModel::Unrecognized { arg: a })
        }
    }
}

/// The whole command line `args`, read under the command path `cmd`.
pub open spec fn parse_command_line(cmd: Seq<Seq<char>>, args: Seq<Seq<char>>) -> Result<
    ArgsModel,
    ArgErrorModel,
> {
    parse_top(cmd, args, 0, TopState { verbose: false, quiet: false, help: false, ended: false })
}

/// `Some` of the view of `o`'s tracker, or `None`.
pub open spec fn opt_tracker_view(o: Option<Tracker>) -> Option<TrackerModel> {
    match o {
        Some(t) => Some(t@),
        None => None,
    }
}

/// `Some` of the view of `o`'s model type, or `None`.
pub open spec fn opt_model_type_view(o: Option<ModelType>) -> Option<ModelTypeModel> {
    match o {
        Some(t) => Some(t@),
        None => None,
    }
}

/// An owned copy of each argument.
fn strings_of(v: &[&str]) -> (r: Vec<String>)
    ensures
        strings_view(r@) == strs_view(v@),
{
    let mut r: Vec<String> = Vec::new();
    let mut i: usize = 0;
    while i < v.len()
        invariant
            i <= v@.len(),
            strings_view(r@) == strs_view(v@.subrange(0, i as int)),
        decreases v@.len() - i,
    {
        let s = v[i].to_owned();
        r.push(s);
        assert(strs_view(v@.subrange(0, i + 1)) == strs_view(v@.subrange(0, i as int)).push(
            v@[i as int]@,
        ));
        assert(strings_view(r@) == strings_view(r@.subrange(0, i as int)).push(s@));
        i = i + 1;
    }
    assert(v@.subrange(0, i as int) == v@);
    r
}

/// Whether argument `a` asks for usage help.
fn is_help_arg(a: &str) -> (r: bool)
    ensures
        r == is_help_trigger(a@),
{
    str_eq(a, "--help") || str_eq(a, "help")
}

/// Whether argument `a` reads as an option.
fn is_dashed_arg(a: &str) -> (r: bool)
    ensures
        r == is_dashed(a@),
{
    let v = chars_of(a);
    v.len() > 0 && v[0] == '-'
}

/// The state in which a subcommand's arguments start to be read.
pub open spec fn launch_start(help: bool) -> LaunchState {
    LaunchState { help, ended: false, runner_data: None, tracker: None }
}

/// Reads the `launch` subcommand from `args[start..]`, under command path `cmd`.
fn parse_launch_args(cmd: &Vec<String>, args: &[&str], start: usize, help0: bool) -> (r: Result<
    LaunchCommand,
    ArgError,
>)
    requires
        start <= args@.len(),
    ensures
        r matches Ok(c) ==> parse_launch(
            strings_view(cmd@),
            strs_view(args@),
            start as int,
            launch_start(help0),
        ) == Ok::<LaunchModel, ArgErrorModel>(c@),
        r matches Err(e) ==> parse_launch(
            strings_view(cmd@),
            strs_view(args@),
            start as int,
            launch_start(help0),
        ) == Err::<LaunchModel, ArgErrorModel>(e@),
{
    let ghost cv = strings_view(cmd@);
    let ghost av = strs_view(args@);
    let mut help = help0;
    let mut ended = false;
    let mut runner_data: Option<String> = None;
    let mut tracker: Option<Tracker> = None;
    let mut i = start;
    while i < args.len()
        invariant
            start <= i <= args@.len(),
            av == strs_view(args@),
            cv == strings_view(cmd@),
            parse_launch(cv, av, start as int, launch_start(help0)) == parse_launch(
                cv,
                av,
                i as int,
                LaunchState {
                    help,
                    ended,
                    runner_data: opt_view(runner_data),
                    tracker: opt_tracker_view(tracker),
                },
            ),
        decreases args@.len() - i,
    {
        let a = args[i];
        assert(av[i as int] == a@);
        if !ended && is_help_arg(a) {
            help = true;
            i = i + 1;
        } else if !ended && is_dashed_arg(a) {
            if str_eq(a, "--") {
                ended = true;
                i = i + 1;
            } else if help {
                return Err(ArgError::TrailingAfterHelp);
            } else if str_eq(a, "--tracker") {
                if i + 1 >= args.len() {
                    return Err(ArgError::MissingValue { option: a.to_owned() });
                }
                if tracker.is_some() {
                    return Err(ArgError::DuplicateValue { option: a.to_owned() });
                }
                let v = args[i + 1];
                assert(av[i + 1] == v@);
                match Tracker::parse_name(v) {
                    Ok(t) => {
                        tracker = Some(t);
                        i = i + 2;
                    },
                    Err(_) => {
                        return Err(ArgError::InvalidValue { option: a.to_owned(), value: v.to_owned() });
                    },
                }
            } else {
                return Err(ArgError::Unrecognized { arg: a.to_owned() });
            }
        } else if runner_data.is_none() {
            runner_data = Some(a.to_owned());
            i = i + 1;
        } else {
            return Err(ArgError::Unrecognized { arg: a.to_owned() });
        }
    }
    if help {
        return Err(ArgError::HelpRequested { command: cmd.clone() });
    }
    match runner_data {
        Some(r) => Ok(LaunchCommand { runner_data: r, tracker }),
        None => Err(ArgError::MissingPositional { name: "runner_data".to_owned() }),
    }
}

/// The state in which the arguments of `with-model` start to be read.
pub open spec fn with_model_start(help: bool) -> WithModelState {
    WithModelState {
        help,
        ended: false,
        model_path: None,
        model_type: None,
        runner_path: None,
        gui_path: None,
    }
}

/// Reads the `with-model` subcommand from `args[start..]`, under command path `cmd`.
fn parse_with_model_args(cmd: &Vec<String>, args: &[&str], start: usize, help0: bool) -> (r:
    Result<WithModelCommand, ArgError>)
    requires
        start <= args@.len(),
    ensures
        r matches Ok(c) ==> parse_with_model(
            strings_view(cmd@),
            strs_view(args@),
            start as int,
            with_model_start(help0),
        ) == Ok::<WithModelModel, ArgErrorModel>(c@),
        r matches Err(e) ==> parse_with_model(
            strings_view(cmd@),
            strs_view(args@),
            start as int,
            with_model_start(help0),
        ) == Err::<WithModelModel, ArgErrorModel>(e@),
{
    let ghost cv = strings_view(cmd@);
    let ghost av = strs_view(args@);
    let mut help = help0;
    let mut ended = false;
    let mut model_path: Option<String> = None;
    let mut model_type: Option<ModelType> = None;
    let mut runner_path: Option<String> = None;
    let mut gui_path: Option<String> = None;
    let mut i = start;
    while i < args.len()
        invariant
            start <= i <= args@.len(),
            av == strs_view(args@),
            cv == strings_view(cmd@),
            parse_with_model(cv, av, start as int, with_model_start(help0)) == parse_with_model(
                cv,
                av,
                i as int,
                WithModelState {
                    help,
                    ended,
                    model_path: opt_view(model_path),
                    model_type: opt_model_type_view(model_type),
                    runner_path: opt_view(runner_path),
                    gui_path: opt_view(gui_path),
                },
            ),
        decreases args@.len() - i,
    {
        let a = args[i];
        assert(av[i as int] == a@);
        if !ended && is_help_arg(a) {
            help = true;
            i = i + 1;
        } else if !ended && is_dashed_arg(a) {
            if str_eq(a, "--") {
                ended = true;
                i = i + 1;
            } else if help {
                return Err(ArgError::TrailingAfterHelp);
            } else if str_eq(a, "--model-type") || str_eq(a, "--runner-path") || str_eq(
                a,
                "--gui-path",
            ) {
                if i + 1 >= args.len() {
                    return Err(ArgError::MissingValue { option: a.to_owned() });
                }
                let v = args[i + 1];
                assert(av[i + 1] == v@);
                if str_eq(a, "--model-type") {
                    if model_type.is_some() {
                        return Err(ArgError::DuplicateValue { option: a.to_owned() });
                    }
                    match ModelType::parse_name(v) {
                        Ok(t) => {
                            model_type = Some(t);
                        },
                        Err(_) => {
                            return Err(
                                ArgError::InvalidValue { option: a.to_owned(), value: v.to_owned() },
                            );
                        },
                    }
                } else if str_eq(a, "--runner-path") {
                    if runner_path.is_some() {
                        return Err(ArgError::DuplicateValue { option: a.to_owned() });
                    }
                    runner_path = Some(v.to_owned());
                } else {
                    if gui_path.is_some() {
                        return Err(ArgError::DuplicateValue { option: a.to_owned() });
                    }
                    gui_path = Some(v.to_owned());
                }
                i = i + 2;
            } else {
                return Err(ArgError::Unrecognized { arg: a.to_owned() });
            }
        } else if model_path.is_none() {
            model_path = Some(a.to_owned());
            i = i + 1;
        } else {
            return Err(ArgError::Unrecognized { arg: a.to_owned() });
        }
    }
    if help {
        return Err(ArgError::HelpRequested { command: cmd.clone() });
    }
    match model_path {
        Some(p) => Ok(WithModelCommand { model_path: p, model_type, runner_path, gui_path }),
        None => Err(ArgError::MissingPositional { name: "model_path".to_owned() }),
    }
}

/// The program name that [`Args::parse`] reads arguments under.
pub const PROGRAM_NAME: &'static str = "vpuppr";

impl Args {
    /// Reads `args`, the arguments that follow the command path `command_name`,
    /// as [`parse_command_line`] says.
    pub fn from_args(command_name: &[&str], args: &[&str]) -> (r: Result<Args, ArgError>)
        ensures
            r matches Ok(a) ==> parse_command_line(strs_view(command_name@), strs_view(args@))
                == Ok::<ArgsModel, ArgErrorModel>(a@),
            r matches Err(e) ==> parse_command_line(strs_view(command_name@), strs_view(args@))
                == Err::<ArgsModel, ArgErrorModel>(e@),
    {
        let ghost cv = strs_view(command_name@);
        let ghost av = strs_view(args@);
        let mut verbose = false;
        let mut quiet = false;
        let mut help = false;
        let mut ended = false;
        let mut i: usize = 0;
        while i < args.len()
            invariant
                i <= args@.len(),
                av == strs_view(args@),
                cv == strs_view(command_name@),
                parse_command_line(cv, av) == parse_top(
                    cv,
                    av,
                    i as int,
                    TopState { verbose, quiet, help, ended },
                ),
            decreases args@.len() - i,
        {
            let a = args[i];
            assert(av[i as int] == a@);
            if !ended && is_help_arg(a) {
                help = true;
                i = i + 1;
            } else if !ended && is_dashed_arg(a) {
                if str_eq(a, "--") {
                    ended = true;
                } else if help {
                    return Err(ArgError::TrailingAfterHelp);
                } else if str_eq(a, "--verbose") || str_eq(a, "-v") {
                    verbose = true;
                } else if str_eq(a, "--quiet") || str_eq(a, "-q") {
                    quiet = true;
                } else {
                    return Err(ArgError::Unrecognized { arg: a.to_owned() });
                }
                i = i + 1;
            } else if str_eq(a, "launch") {
                let mut cmd = strings_of(command_name);
                let name = a.to_owned();
                cmd.push(name);
                assert(strings_view(cmd@) == cv.push(a@));
                return match parse_launch_args(&cmd, args, i + 1, help) {
                    Ok(c) => Ok(Args { verbose, quiet, commands: Some(Commands::Launch(c)) }),
                    Err(e) => Err(e),
                };
            } else if str_eq(a, "with-model") {
                let mut cmd = strings_of(command_name);
                let name = a.to_owned();
                cmd.push(name);
                assert(strings_view(cmd@) == cv.push(a@));
                return match parse_with_model_args(&cmd, args, i + 1, help) {
                    Ok(c) => Ok(Args { verbose, quiet, commands: Some(Commands::WithModel(c)) }),
                    Err(e) => Err(e),
                };
            } else {
                return Err(ArgError::Unrecognized { arg: a.to_owned() });
            }
        }
        if help {
            return Err(ArgError::HelpRequested { command: strings_of(command_name) });
        }
        Ok(Args { verbose, quiet, commands: None })
    }

    /// Reads `args` under [`PROGRAM_NAME`], as [`parse_command_line`] says.
    pub fn parse(args: &[&str]) -> (r: Result<Args, CliError>)
        ensures
            r matches Ok(a) ==> parse_command_line(seq![PROGRAM_NAME@], strs_view(args@))
                == Ok::<ArgsModel, ArgErrorModel>(a@),
            r matches Err(e) ==> exists|ae: ArgErrorModel|
                #![auto]
                e@ == CliErrorModel::ParseFailure(ae) && parse_command_line(
                    seq![PROGRAM_NAME@],
                    strs_view(args@),
                ) == Err::<ArgsModel, ArgErrorModel>(ae),
    {
        let name: [&str; 1] = [PROGRAM_NAME];
        let r = Args::from_args(name.as_slice(), args);
        assert(strs_view(name@) == seq![PROGRAM_NAME@]);
        match r {
            Ok(a) => Ok(a),
            Err(e) => Err(CliError::ParseFailure(e)),
        }
    }
}

/// A value handed to the host in a dictionary of parsed arguments.
#[derive(Debug, Clone, PartialEq, Eq)]
pub enum DictValue {
    Flag(bool),
    Text(String),
}

/// What a [`DictValue`] stands for.
pub enum DictValueModel {
    Flag(bool),
    Text(Seq<char>),
}

impl View for DictValue {
    type V = DictValueModel;

    open spec fn view(&self) -> DictValueModel {
        match self {
            DictValue::Flag(b) => DictValueModel::Flag(*b),
            DictValue::Text(s) => DictValueModel::Text(s@),
        }
    }
}

/// The keys and values of a list of dictionary entries.
pub open spec fn entries_view(v: Seq<(String, DictValue)>) -> Seq<(Seq<char>, DictValueModel)> {
    v.map_values(|e: (String, DictValue)| (e.0@, e.1@))
}

/// The text of an optional value, empty when absent.
pub open spec fn text_or_empty(o: Option<Seq<char>>) -> Seq<char> {
    match o {
        Some(s) => s,
        None => Seq::empty(),
    }
}

/// The dictionary entries, in order, that describe a parsed command line:
/// every key is always present, with an empty text for an absent value.
pub open spec fn args_entries(a: ArgsModel) -> Seq<(Seq<char>, DictValueModel)> {
    seq![("verbose"@, DictValueModel::Flag(a.verbose)), ("quiet"@, DictValueModel::Flag(a.quiet))]
        + match a.commands {
        None => seq![("has_command"@, DictValueModel::Flag(false))],
        Some(CommandsModel::Launch(c)) => seq![
            ("has_command"@, DictValueModel::Flag(true)),
            ("command"@, DictValueModel::Text("launch"@)),
            ("name"@, DictValueModel::Text(c.runner_data)),
            ("tracker"@, DictValueModel::Text(match c.tracker {
                Some(t) => tracker_text(t),
                None => Seq::empty(),
            })),
        ],
        Some(CommandsModel::WithModel(c)) => seq![
            ("has_command"@, DictValueModel::Flag(true)),
            ("command"@, DictValueModel::Text("with_model"@)),
            ("model_path"@, DictValueModel::Text(c.model_path)),
            ("model_type"@, DictValueModel::Text(match c.model_type {
                Some(t) => model_type_text(t),
                None => Seq::empty(),
            })),
            ("runner_path"@, DictValueModel::Text(text_or_empty(c.runner_path))),
            ("gui_path"@, DictValueModel::Text(text_or_empty(c.gui_path))),
        ],
    }
}

/// Appends one entry.
fn push_entry(v: &mut Vec<(String, DictValue)>, key: &str, value: DictValue)
    ensures
        entries_view(final(v)@) == entries_view(old(v)@).push((key@, value@)),
{
    let k = key.to_owned();
    v.push((k, value));
    assert(entries_view(final(v)@) =~= entries_view(old(v)@).push((key@, value@)));
}

/// The text of an optional string, empty when absent.
fn text_of(o: &Option<String>) -> (r: String)
    ensures
        r@ == text_or_empty(opt_view(*o)),
{
    match o {
        Some(s) => s.clone(),
        None => String::new(),
    }
}

impl Args {
    /// The dictionary entries that describe these arguments, as [`args_entries`] says.
    pub fn dict_entries(&self) -> (r: Vec<(String, DictValue)>)
        ensures
            entries_view(r@) == args_entries(self@),
    {
        let mut r: Vec<(String, DictValue)> = Vec::new();
        push_entry(&mut r, "verbose", DictValue::Flag(self.verbose));
        push_entry(&mut r, "quiet", DictValue::Flag(self.quiet));
        match &self.commands {
            None => {
                push_entry(&mut r, "has_command", DictValue::Flag(false));
            },
            Some(Commands::Launch(c)) => {
                push_entry(&mut r, "has_command", DictValue::Flag(true));
                push_entry(&mut r, "command", DictValue::Text("launch".to_owned()));
                push_entry(&mut r, "name", DictValue::Text(c.runner_data.clone()));
                let t = match &c.tracker {
                    Some(t) => t.as_str().to_owned(),
                    None => String::new(),
                };
                push_entry(&mut r, "tracker", DictValue::Text(t));
            },
            Some(Commands::WithModel(c)) => {
                push_entry(&mut r, "has_command", DictValue::Flag(true));
                push_entry(&mut r, "command", DictValue::Text("with_model".to_owned()));
                push_entry(&mut r, "model_path", DictValue::Text(c.model_path.clone()));
                let t = match &c.model_type {
                    Some(t) => t.as_str().to_owned(),
                    None => String::new(),
                };
                push_entry(&mut r, "model_type", DictValue::Text(t));
                push_entry(&mut r, "runner_path", DictValue::Text(text_of(&c.runner_path)));
                push_entry(&mut r, "gui_path", DictValue::Text(text_of(&c.gui_path)));
            },
        }
        assert(entries_view(r@) =~= args_entries(self@));
        r
    }
}

} // verus!
