use libvpuppr::cli::{Args, Commands, ModelType, Tracker};

#[test]
fn parse() {
    let args = Args::parse(&["--verbose"]).unwrap();

    assert_eq!(args.verbose, true);
    assert_eq!(args.quiet, false);
}

#[test]
fn empty() {
    let args = Args::from_args(&["vpuppr"], &[]).unwrap();

    assert_eq!(args.verbose, false);
    assert_eq!(args.quiet, false);
    assert!(args.commands.is_none());
}

#[test]
fn no_command_verbose() {
    let args = Args::from_args(&["vpuppr"], &["--verbose"]).unwrap();

    assert_eq!(args.verbose, true);
    assert_eq!(args.quiet, false);
}

#[test]
fn no_command_quiet() {
    let args = Args::from_args(&["vpuppr"], &["--quiet"]).unwrap();

    assert_eq!(args.verbose, false);
    assert_eq!(args.quiet, true);
}

#[test]
fn no_command_quiet_verbose() {
    let args = Args::from_args(&["vpuppr"], &["--quiet", "--verbose"]).unwrap();

    assert_eq!(args.verbose, true);
    assert_eq!(args.quiet, true);
}

#[test]
fn name_only() {
    let args = Args::from_args(&["vpuppr"], &["launch", "blah"]).unwrap();

    match args.commands.unwrap() {
        Commands::Launch(v) => {
            assert_eq!(v.runner_data, "blah");
            assert!(v.tracker.is_none());
        }
        _ => assert!(false),
    }
}

#[test]
fn tracker_full_name() {
    let args = Args::from_args(&["vpuppr"], &["launch", "blah", "--tracker", "mediapipe"])
        .unwrap();

    match args.commands.unwrap() {
        Commands::Launch(v) => {
            assert_eq!(v.runner_data, "blah");
            assert_eq!(v.tracker.unwrap(), Tracker::MediaPipe);
        }
        _ => assert!(false),
    }
}

#[test]
fn tracker_abbreviated_name() {
    let args =
        Args::from_args(&["vpuppr"], &["launch", "blah", "--tracker", "mp"]).unwrap();

    match args.commands.unwrap() {
        Commands::Launch(v) => {
            assert_eq!(v.runner_data, "blah");
            assert_eq!(v.tracker.unwrap(), Tracker::MediaPipe);
        }
        _ => assert!(false),
    }
}

#[test]
fn tracker_ignore_case() {
    let args = Args::from_args(&["vpuppr"], &["launch", "blah", "--tracker", "meDiAPIPE"])
        .unwrap();

    match args.commands.unwrap() {
        Commands::Launch(v) => {
            assert_eq!(v.runner_data, "blah");
            assert_eq!(v.tracker.unwrap(), Tracker::MediaPipe);
        }
        _ => assert!(false),
    }
}

#[test]
fn custom_tracker() {
    let args = Args::from_args(&["vpuppr"], &["launch", "blah", "--tracker", "custom:woo"])
        .unwrap();

    match args.commands.unwrap() {
        Commands::Launch(v) => {
            assert_eq!(v.runner_data, "blah");
            assert_eq!(v.tracker.unwrap(), Tracker::Custom("woo".to_string()));
        }
        _ => assert!(false),
    }

    let args = Args::from_args(
        &["vpuppr"],
        &["launch", "blah", "--tracker", "custom:custom:"],
    )
    .unwrap();

    match args.commands.unwrap() {
        Commands::Launch(v) => {
            assert_eq!(v.runner_data, "blah");
            assert_eq!(v.tracker.unwrap(), Tracker::Custom("custom:".to_string()));
        }
        _ => assert!(false),
    }
}

#[test]
fn missing_positional_name() {
    let args = Args::from_args(&["vpuppr"], &["launch", "--tracker", "mp"]);

    assert!(args.is_err());
}

#[test]
fn unhandled_tracker() {
    let args =
        Args::from_args(&["vpuppr"], &["launch", "blah", "--tracker", "__invalid__"]);

    assert!(args.is_err());
}

#[test]
fn missing_tracker_arg() {
    let args = Args::from_args(&["vpuppr"], &["launch", "blah", "--tracker"]);

    assert!(args.is_err());
}

#[test]
fn empty_custom_tracker_name() {
    let args = Args::from_args(&["vpuppr"], &["launch", "blah", "--tracker", "custom:"]);

    assert!(args.is_err());
}

#[test]
fn out_of_order_args() {
    let args = Args::from_args(&["vpuppr"], &["launch", "mediapipe", "blah", "--tracker"]);

    assert!(args.is_err());
}

#[test]
fn model_path_only() {
    let args = Args::from_args(&["vpuppr"], &["with-model", "./blah.vrm"]).unwrap();

    match args.commands.unwrap() {
        Commands::WithModel(v) => {
            assert_eq!(v.model_path, "./blah.vrm");
            assert!(v.model_type.is_none());
            assert!(v.runner_path.is_none());
            assert!(v.gui_path.is_none());
        }
        _ => assert!(false),
    }
}

#[test]
fn force_model() {
    let args = Args::from_args(
        &["vpuppr"],
        &["with-model", "./blah.vrm", "--model-type", "glb"],
    )
    .unwrap();

    match args.commands.unwrap() {
        Commands::WithModel(v) => {
            assert_eq!(v.model_path, "./blah.vrm");
            assert_eq!(v.model_type.unwrap(), ModelType::Glb);
            assert!(v.runner_path.is_none());
            assert!(v.gui_path.is_none());
        }
        _ => assert!(false),
    }
}

#[test]
fn custom_runner_path() {
    let args = Args::from_args(
        &["vpuppr"],
        &["with-model", "./blah.vrm", "--runner-path", "./test.tscn"],
    )
    .unwrap();

    match args.commands.unwrap() {
        Commands::WithModel(v) => {
            assert_eq!(v.model_path, "./blah.vrm");
            assert!(v.model_type.is_none());
            assert_eq!(v.runner_path.unwrap(), "./test.tscn");
            assert!(v.gui_path.is_none());
        }
        _ => assert!(false),
    }
}

#[test]
fn custom_gui_path() {
    let args = Args::from_args(
        &["vpuppr"],
        &["with-model", "./blah.vrm", "--gui-path", "./gui.tscn"],
    )
    .unwrap();

    match args.commands.unwrap() {
        Commands::WithModel(v) => {
            assert_eq!(v.model_path, "./blah.vrm");
            assert!(v.model_type.is_none());
            assert!(v.runner_path.is_none());
            assert_eq!(v.gui_path.unwrap(), "./gui.tscn");
        }
        _ => assert!(false),
    }
}

#[test]
fn custom_runner_and_gui_path() {
    let args = Args::from_args(
        &["vpuppr"],
        &[
            "with-model",
            "./blah.vrm",
            "--model-type",
            "pngtuber",
            "--runner-path",
            "./test.tscn",
            "--gui-path",
            "./gui.tscn",
        ],
    )
    .unwrap();

    match args.commands.unwrap() {
        Commands::WithModel(v) => {
            assert_eq!(v.model_path, "./blah.vrm");
            assert_eq!(v.model_type.unwrap(), ModelType::PngTuber);
            assert_eq!(v.runner_path.unwrap(), "./test.tscn");
            assert_eq!(v.gui_path.unwrap(), "./gui.tscn");
        }
        _ => assert!(false),
    }
}

#[test]
fn model_type_ignore_case() {
    let args = Args::from_args(
        &["vpuppr"],
        &["with-model", "./blah.vrm", "--model-type", "PnGTUBer"],
    )
    .unwrap();

    match args.commands.unwrap() {
        Commands::WithModel(v) => {
            assert_eq!(v.model_path, "./blah.vrm");
            assert_eq!(v.model_type.unwrap(), ModelType::PngTuber);
            assert!(v.runner_path.is_none());
            assert!(v.gui_path.is_none());
        }
        _ => assert!(false),
    }
}
