use dock::canon_path::NewAbsPathError;
use dock::canon_path::NewRelPathError;
use dock::option::OptionResultExt;
use dock::run_in::FindAndParseDockConfigError;
use dock::run_in::HostpathFromPairsError;
use dock::run_in::HostpathInsertError;
use dock::run_in::NewDockerContextError;
use dock::run_in::ParseDockConfigError;
use dock::run_in::PrepareRunInArgsError;
use dock::run_in::PrepareRunInCacheVolumesArgsError;
use dock::run_in::PrepareRunInMountLocalArgsError;
use dock::run_in::RebuildForRunInError;
use dock::run_in::RunInError;

fn strings(xs: &[&str]) -> Vec<String> {
    xs.iter().map(|s| s.to_string()).collect()
}

#[test]
fn find_and_parse_messages() {
    let cases = vec![
        (
            FindAndParseDockConfigError::GetCurrentDirFailed { message: "gone".to_string() },
            "Couldn't get the current directory: gone",
        ),
        (FindAndParseDockConfigError::DockFileNotFound, "Couldn't find Dock file"),
        (
            FindAndParseDockConfigError::OpenDockFileFailed { message: "denied".to_string() },
            "Couldn't open: denied",
        ),
        (
            FindAndParseDockConfigError::ParseDockConfigFailed {
                source: ParseDockConfigError::ParseSchemaFailed { message: "missing field".to_string() },
            },
            "Couldn't parse: Parsed YAML didn't conform to schema: missing field",
        ),
        (
            FindAndParseDockConfigError::DockDirAsAbsPathFailed {
                source: NewAbsPathError::NoRootDirPrefix,
                dock_dir: "rel".to_string(),
            },
            "Couldn't get path to current Dock directory ('rel') as an absolute path: The absolute path didn't start with `/`",
        ),
        (
            FindAndParseDockConfigError::InvalidEnvName { name: "ab-c".to_string(), pos: 2 },
            "Invalid character '-' at position 2 in environment name 'ab-c' (environment names may only contain periods, underscores, ASCII digits, and lowercase ASCII letters)",
        ),
    ];

    for (e, msg) in cases {
        assert_eq!(e.message(), msg);
    }
    assert_eq!(
        ParseDockConfigError::UnsupportedSchemaVersion.message(),
        "Only `schema_version` 0.1 is currently supported",
    );
}

#[test]
fn run_in_messages() {
    let e = RunInError::FindAndParseDockConfigFailed {
        source: FindAndParseDockConfigError::DockFileNotFound,
        dock_file_name: "dock.yaml".to_string(),
    };
    assert_eq!(e.message(), "Couldn't find and parse 'dock.yaml': Couldn't find Dock file");

    let e = RunInError::RelPathFromContextPathFailed { source: NewRelPathError::EmptyRelPath };
    assert_eq!(
        e.message(),
        "Couldn't get path to the context directory as a relative path: The relative path was empty",
    );

    let e = RunInError::SpinFailed { message: "stuck".to_string() };
    assert_eq!(e.message(), "stuck");

    let e = RunInError::SpinnerRebuildForRunInFailed {
        source: RebuildForRunInError::RebuildFailed { message: "no docker".to_string(), img: "i".to_string() },
    };
    assert_eq!(e.message(), "Couldn't rebuild 'i': no docker");

    let e = RunInError::RebuildForRunInFailed {
        source: RebuildForRunInError::RebuildUnsuccessful { img: "i".to_string() },
    };
    assert_eq!(e.message(), "Rebuild of 'i' returned an unsuccessful status");

    let e = RunInError::ExecFailed { message: "not found".to_string() };
    assert_eq!(e.message(), "`exec` failed: not found");

    let e = RebuildForRunInError::NewDockerRebuildInputFailed {
        source: NewDockerContextError::OpenDockerfileFailed {
            message: "missing".to_string(),
            path: strings(&["p", "build.Dockerfile"]),
        },
    };
    assert_eq!(
        e.message(),
        "Couldn't prepare input for `dock rebuild`: Couldn't open the Dockerfile '/p/build.Dockerfile': missing",
    );
}

#[test]
fn prepare_run_in_args_messages() {
    let e = PrepareRunInArgsError::PrepareRunInCacheVolumesArgsFailed {
        source: PrepareRunInCacheVolumesArgsError::CheckCacheExistenceFailed {
            vol_name: "v".to_string(),
            message: "m".to_string(),
        },
    };
    assert_eq!(
        e.message(),
        "Couldn't prepare cache volume arguments for `docker run`: Couldn't check whether the cache volume 'v' exists: m",
    );

    let e = PrepareRunInCacheVolumesArgsError::ChangeCacheOwnershipFailed {
        vol_name: "v".to_string(),
        message: "m".to_string(),
    };
    assert_eq!(e.message(), "Couldn't set the ownership of the cache volume 'v': m");

    let cases = vec![
        (
            PrepareRunInMountLocalArgsError::GetUserIdFailed { message: "m".to_string() },
            "Couldn't get user ID for the active user: m",
        ),
        (
            PrepareRunInMountLocalArgsError::GetGroupIdFailed { message: "m".to_string() },
            "Couldn't get group ID for the active user: m",
        ),
        (PrepareRunInMountLocalArgsError::GroupMountedWithoutUser, "local `group` was mounted without `user`"),
        (
            PrepareRunInMountLocalArgsError::GetDockerSockMetadataFailed { message: "m".to_string() },
            "Couldn't get metadata for Docker socket: m",
        ),
    ];
    for (e, msg) in cases {
        assert_eq!(e.message(), msg);
    }

    let e = PrepareRunInArgsError::ParseConfigOuterPathFailed {
        source: NewRelPathError::NoCurDirPrefix,
        rel_outer_path: "a".to_string(),
        inner_path: "/b".to_string(),
    };
    assert_eq!(
        e.message(),
        "Couldn't parse `mount` configuration for 'The relative path didn't start with `.`' -> 'a' mapping: /b",
    );
    assert_eq!(
        PrepareRunInArgsError::WorkdirNotSet.message(),
        "`workdir` is required when `project_dir` is mounted",
    );
}

#[test]
fn hostpath_messages() {
    let e = HostpathFromPairsError::ParseOuterPathFailed {
        source: NewAbsPathError::EmptyAbsPath,
        outer_path: "".to_string(),
        inner_path: "/i".to_string(),
    };
    assert_eq!(e.message(), "Couldn't parse '/i' as an absolute path (mapped to ''): The absolute path was empty");

    let e = HostpathFromPairsError::ParseInnerPathFailed {
        source: NewAbsPathError::SpecialComponentInAbsPath,
        outer_path: "/o".to_string(),
        inner_path: "/i/..".to_string(),
    };
    assert_eq!(
        e.message(),
        "Couldn't parse '/o' as an absolute path (mapped from '/i/..'): The absolute path contained a special component, such as `.` or `..`",
    );

    let e = HostpathInsertError::EmptyInnerPath { outer_path: strings(&["o"]) };
    assert_eq!(e.message(), "The path '/o' maps to an empty path");
}

#[test]
fn optional_values_map_fallibly() {
    let half = |x: u32| if x % 2 == 0 { Ok(x / 2) } else { Err(x) };

    assert_eq!(Some(4).and_maybe_then(half), Ok(Some(2)));
    assert_eq!(Some(3).and_maybe_then(half), Err(3));
    assert_eq!(None::<u32>.and_maybe_then(half), Ok(None));
}
