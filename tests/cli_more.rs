use libvpuppr::cli::{
    ArgError, Args, CliError, Commands, DictValue, ModelType, Tracker,
};

fn entries(args: &[&str]) -> Vec<(String, DictValue)> {
    Args::from_args(&["vpuppr"], args).unwrap().dict_entries()
}

fn text(s: &str) -> DictValue {
    DictValue::Text(s.to_string())
}

#[test]
fn dict_without_command() {
    let e = entries(&["-v"]);
    assert_eq!(
        e,
        vec![
            ("verbose".to_string(), DictValue::Flag(true)),
            ("quiet".to_string(), DictValue::Flag(false)),
            ("has_command".to_string(), DictValue::Flag(false)),
        ]
    );
}

#[test]
fn dict_for_launch() {
    let e = entries(&["launch", "blah", "--tracker", "VTS"]);
    assert_eq!(e[2], ("has_command".to_string(), DictValue::Flag(true)));
    assert_eq!(e[3], ("command".to_string(), text("launch")));
    assert_eq!(e[4], ("name".to_string(), text("blah")));
    assert_eq!(e[5], ("tracker".to_string(), text("vtubestudio")));
    assert_eq!(e.len(), 6);
    let e = entries(&["launch", "blah"]);
    assert_eq!(e[5], ("tracker".to_string(), text("")));
}

#[test]
fn dict_for_with_model() {
    let e = entries(&["with-model", "m.vrm", "--model-type", "custom:toon", "--gui-path", "g"]);
    assert_eq!(
        e[3..].to_vec(),
        vec![
            ("command".to_string(), text("with_model")),
            ("model_path".to_string(), text("m.vrm")),
            ("model_type".to_string(), text("toon")),
            ("runner_path".to_string(), text("")),
            ("gui_path".to_string(), text("g")),
        ]
    );
}

#[test]
fn tracker_names() {
    assert_eq!(Tracker::parse_name("IFM").unwrap(), Tracker::IFacialMocap);
    assert_eq!(Tracker::parse_name("OpenSeeFace").unwrap(), Tracker::OpenSeeFace);
    assert_eq!(Tracker::parse_name("mf").unwrap(), Tracker::MeowFace);
    assert!(matches!(
        Tracker::parse_name("CUSTOM:x"),
        Err(CliError::UnknownTracker { input }) if input == "CUSTOM:x"
    ));
    assert_eq!(Tracker::from_folded("MP", "mp").unwrap(), Tracker::MediaPipe);
    assert_eq!(Tracker::MeowFace.as_str(), "meowface");
    assert_eq!(Tracker::Custom("woo".to_string()).as_str(), "woo");
}

#[test]
fn model_type_names() {
    assert_eq!(ModelType::parse_name("Png Tuber").unwrap(), ModelType::PngTuber);
    assert_eq!(ModelType::parse_name("VRM").unwrap(), ModelType::Vrm);
    assert!(matches!(
        ModelType::parse_name("obj"),
        Err(CliError::UnknownModelType { input }) if input == "obj"
    ));
    assert_eq!(ModelType::PngTuber.as_str(), "pngtuber");
}

#[test]
fn help_is_requested() {
    match Args::from_args(&["vpuppr"], &["--help"]) {
        Err(ArgError::HelpRequested { command }) => assert_eq!(command, vec!["vpuppr"]),
        other => panic!("{other:?}"),
    }
    match Args::from_args(&["vpuppr"], &["help", "launch"]) {
        Err(ArgError::HelpRequested { command }) => assert_eq!(command, vec!["vpuppr", "launch"]),
        other => panic!("{other:?}"),
    }
    assert!(matches!(
        Args::from_args(&["vpuppr"], &["help", "-v"]),
        Err(ArgError::TrailingAfterHelp)
    ));
}

#[test]
fn argument_errors() {
    assert!(matches!(
        Args::from_args(&["vpuppr"], &["--loud"]),
        Err(ArgError::Unrecognized { arg }) if arg == "--loud"
    ));
    assert!(matches!(
        Args::from_args(&["vpuppr"], &["launch", "a", "--tracker", "mp", "--tracker", "mp"]),
        Err(ArgError::DuplicateValue { option }) if option == "--tracker"
    ));
    assert!(matches!(
        Args::from_args(&["vpuppr"], &["launch", "a", "--tracker"]),
        Err(ArgError::MissingValue { option }) if option == "--tracker"
    ));
    assert!(matches!(
        Args::from_args(&["vpuppr"], &["launch", "a", "--tracker", "nope"]),
        Err(ArgError::InvalidValue { option, value }) if option == "--tracker" && value == "nope"
    ));
    assert!(matches!(
        Args::from_args(&["vpuppr"], &["with-model"]),
        Err(ArgError::MissingPositional { name }) if name == "model_path"
    ));
    assert!(matches!(
        Args::parse(&["launch"]),
        Err(CliError::ParseFailure(ArgError::MissingPositional { name })) if name == "runner_data"
    ));
}

#[test]
fn options_end_at_double_dash() {
    let a = Args::from_args(&["vpuppr"], &["-q", "launch", "--", "--odd-name"]).unwrap();
    assert!(a.quiet);
    match a.commands.unwrap() {
        Commands::Launch(c) => assert_eq!(c.runner_data, "--odd-name"),
        _ => panic!("expected launch"),
    }
}

#[test]
fn from_str_and_as_ref() {
    assert_eq!("MeDiApIpE".parse::<Tracker>().unwrap(), Tracker::MediaPipe);
    assert!("custom:".parse::<Tracker>().is_err());
    assert_eq!("glb".parse::<ModelType>().unwrap(), ModelType::Glb);
    let t = Tracker::VTubeStudio;
    let s: &str = t.as_ref();
    assert_eq!(s, "vtubestudio");
    let m = ModelType::Custom("toon".to_string());
    let s: &str = m.as_ref();
    assert_eq!(s, "toon");
}
