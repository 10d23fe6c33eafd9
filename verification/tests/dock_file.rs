use dock::clean::clean_steps_of;
use dock::clean::CleanError;
use dock::clean::CleanStep;
use dock::cli::env_name_from_arg;
use dock::run_in::cache_image_name;
use dock::run_in::cache_volume_mount;
use dock::run_in::plan_run_in;
use dock::run_in::Rebuild;
use dock::run_in::RebuildAction;
use dock::run_in::cache_vol_name;
use dock::run_in::cache_vol_name_prefix;
use dock::run_in::check_dock_config;
use dock::run_in::check_schema_version;
use dock::run_in::find_environment;
use dock::run_in::image_name;
use dock::run_in::invalid_env_name_position;
use dock::run_in::is_env_name_char;
use dock::run_in::parse_dock_config_header;
use dock::run_in::tagged_image_name;
use dock::run_in::DockConfig;
use dock::run_in::DockEnvironmentConfig;
use dock::run_in::FindAndParseDockConfigError;
use dock::run_in::ParseDockConfigError;

fn env(cache_volumes: Option<Vec<(String, String)>>) -> DockEnvironmentConfig {
    DockEnvironmentConfig {
        context: None,
        workdir: None,
        build_args: None,
        run_args: None,
        env: None,
        cache_volumes,
        mounts: None,
        mount_local: None,
        shell: None,
    }
}

fn config(default: &str, names: &[&str]) -> DockConfig {
    DockConfig {
        schema_version: "0.1".to_string(),
        organisation: "org".to_string(),
        project: "proj".to_string(),
        default_shell_env: default.to_string(),
        environments: names.iter().map(|n| (n.to_string(), env(None))).collect(),
    }
}

#[test]
fn names_of_images_and_volumes() {
    assert_eq!(image_name("org", "proj", "build"), "org/proj.build");
    assert_eq!(tagged_image_name("org", "proj", "build"), "org/proj.build:latest");
    assert_eq!(cache_image_name("org/proj.build", "cached"), "org/proj.build:cached");
    assert_eq!(cache_vol_name_prefix("org", "proj", "build"), "org.proj.build");
    assert_eq!(cache_vol_name("org.proj.build", "tmp"), "org.proj.build.cache.tmp");
}

#[test]
fn environment_names() {
    assert!(is_env_name_char('a'));
    assert!(is_env_name_char('9'));
    assert!(is_env_name_char('.'));
    assert!(is_env_name_char('_'));
    assert!(!is_env_name_char('A'));
    assert!(!is_env_name_char('-'));
    assert_eq!(invalid_env_name_position("build.v2_x"), None);
    assert_eq!(invalid_env_name_position("buIld"), Some(2));
    assert_eq!(env_name_from_arg("build-env:"), "build");
    assert_eq!(env_name_from_arg("build"), "build");
    assert_eq!(env_name_from_arg("-env:"), "");
}

#[test]
fn environments_are_found_by_name() {
    let conf = config("b", &["a", "b"]);

    assert_eq!(find_environment(&conf.environments, "b"), Some(1));
    assert_eq!(find_environment(&conf.environments, "c"), None);
}

#[test]
fn dock_config_checks() {
    assert!(check_dock_config(&config("a", &["a", "b"])).is_ok());

    let e = check_dock_config(&config("c", &["a", "b"])).err().expect("expected an error");
    assert!(matches!(e, FindAndParseDockConfigError::DefaultShellEnvMissing { ref env } if env == "c"));
    assert_eq!(e.message(), "`default_shell_env` 'c' isn't defined");

    let e = check_dock_config(&config("ok", &["ok", "Bad", "worse!"])).err().expect("expected an error");
    assert!(matches!(e, FindAndParseDockConfigError::InvalidEnvName { ref name, pos: 0 } if name == "Bad"));
    assert_eq!(
        e.message(),
        "Invalid character 'B' at position 0 in environment name 'Bad' (environment names may only contain periods, underscores, ASCII digits, and lowercase ASCII letters)",
    );
}

#[test]
fn schema_version_is_checked() {
    assert!(parse_dock_config_header(b"schema_version: '0.1'\norganisation: o\n").is_ok());
    assert!(matches!(
        parse_dock_config_header(b"schema_version: '0.2'\n"),
        Err(ParseDockConfigError::UnsupportedSchemaVersion)
    ));
    assert!(matches!(
        parse_dock_config_header(b"schema_version: 0.1\n"),
        Err(ParseDockConfigError::UnsupportedSchemaVersion)
    ));
    assert!(matches!(
        parse_dock_config_header(b"organisation: o\n"),
        Err(ParseDockConfigError::MissingSchemaVersion)
    ));
    assert!(matches!(
        parse_dock_config_header(b"schema_version: [\n"),
        Err(ParseDockConfigError::ParseYamlFailed { .. })
    ));
    assert_eq!(
        ParseDockConfigError::MissingSchemaVersion.message(),
        "Missing `schema_version` field",
    );
}

#[test]
fn schema_version_from_looked_up_field() {
    assert!(check_schema_version(Ok(Some(Some("0.1".to_string())))).is_ok());
    assert!(matches!(
        check_schema_version(Ok(Some(None))),
        Err(ParseDockConfigError::UnsupportedSchemaVersion)
    ));
    assert!(matches!(check_schema_version(Ok(None)), Err(ParseDockConfigError::MissingSchemaVersion)));
    match check_schema_version(Err("bad".to_string())) {
        Err(e @ ParseDockConfigError::ParseYamlFailed { .. }) => {
            assert_eq!(e.message(), "Couldn't parse: bad");
        },
        _ => panic!("expected `ParseYamlFailed`"),
    }
}

#[test]
fn clean_removes_volumes_then_image_per_environment() {
    let mut conf = config("a", &["a", "b"]);
    conf.environments[0].1 = env(Some(vec![
        ("tmp".to_string(), "/tmp".to_string()),
        ("pkg".to_string(), "/pkg".to_string()),
    ]));

    let steps = clean_steps_of(&conf, true, true);

    let names: Vec<(bool, String)> = steps
        .iter()
        .map(|s| match s {
            CleanStep::RemoveVolume { name } => (true, name.clone()),
            CleanStep::RemoveImage { name } => (false, name.clone()),
        })
        .collect();
    assert_eq!(
        names,
        vec![
            (true, "org.proj.a.cache.tmp".to_string()),
            (true, "org.proj.a.cache.pkg".to_string()),
            (false, "org/proj.a:latest".to_string()),
            (false, "org/proj.b:latest".to_string()),
        ],
    );
    assert_eq!(steps[0].docker_args(), vec!["volume", "rm", "org.proj.a.cache.tmp"]);
    assert_eq!(steps[2].docker_args(), vec!["rmi", "org/proj.a:latest"]);
    assert_eq!(clean_steps_of(&conf, false, false).len(), 0);
    assert_eq!(clean_steps_of(&conf, true, false).len(), 2);
    assert_eq!(clean_steps_of(&conf, false, true).len(), 2);
}

#[test]
fn clean_error_messages() {
    let e = CleanError::RemoveVolumeFailed { message: "gone".to_string(), name: "v".to_string() };
    assert_eq!(e.message(), "Couldn't remove volume 'v': gone");
    let e = CleanError::RemoveImageFailed { message: "busy".to_string(), name: "i".to_string() };
    assert_eq!(e.message(), "Couldn't remove image 'i': busy");
}

#[test]
fn clean_removes_what_a_run_makes() {
    let mut conf = config("a", &["a"]);
    conf.environments[0].1 = env(Some(vec![("tmp".to_string(), "/tmp/cache".to_string())]));
    let rebuild = Rebuild { action: RebuildAction::Skip, cache_tag: "cached".to_string() };

    let plan = plan_run_in(&conf, None, &rebuild).expect("couldn't plan");
    let m = cache_volume_mount(&plan.vol_name_prefix, "tmp", "/tmp/cache").expect("couldn't mount");
    let steps = clean_steps_of(&conf, true, true);

    assert!(matches!(&steps[0], CleanStep::RemoveVolume { name } if *name == m.vol_name));
    assert!(matches!(&steps[1], CleanStep::RemoveImage { name } if *name == plan.target_img));
}
