// Tests named after command-line scenarios of `dock` check the share of the
// scenario that this library decides: the plan of the run, the arguments of
// the `docker` commands and the errors reported. Running Docker and looking
// at what it leaves behind belong to the binary, and aren't tested here.

use dock::canon_path::rel_path_from_path_buf;
use dock::canon_path::NewRelPathError;
use dock::cli::exit_code_from_exit_status;
use dock::cli::replays_captured_output;
use dock::cmd_loggers::CapturingCmdLogger;
use dock::cmd_loggers::CmdLoggerMsg;
use dock::cmd_loggers::Stream;
use dock::rebuild::context_args;
use dock::rebuild::DockerContext;
use dock::run_in::cache_volume_mount;
use dock::run_in::dockerfile_path;
use dock::run_in::docker_run_args;
use dock::run_in::new_docker_context;
use dock::run_in::plan_mounts;
use dock::run_in::plan_run_in;
use dock::run_in::prepare_run_in_args;
use dock::run_in::rebuild_outcome;
use dock::run_in::Args;
use dock::run_in::DockConfig;
use dock::run_in::DockEnvironmentConfig;
use dock::run_in::DockEnvironmentMountLocalConfig;
use dock::run_in::EnvVarValue;
use dock::run_in::LocalIds;
use dock::run_in::PrepareRunInArgsError;
use dock::run_in::Rebuild;
use dock::run_in::RebuildAction;
use dock::run_in::RebuildForRunInError;
use dock::run_in::RunInError;

fn empty_env() -> DockEnvironmentConfig {
    DockEnvironmentConfig {
        context: None,
        workdir: None,
        build_args: None,
        run_args: None,
        env: None,
        cache_volumes: None,
        mounts: None,
        mount_local: None,
        shell: None,
    }
}

fn config(env_name: &str, env: DockEnvironmentConfig) -> DockConfig {
    DockConfig {
        schema_version: "0.1".to_string(),
        organisation: "test_org".to_string(),
        project: "test_proj".to_string(),
        default_shell_env: env_name.to_string(),
        environments: vec![(env_name.to_string(), env)],
    }
}

fn rebuild_run() -> Rebuild {
    Rebuild { action: RebuildAction::Run, cache_tag: "cached".to_string() }
}

fn no_ids() -> LocalIds {
    LocalIds { user_id: None, group_id: None, docker_gid: None }
}

fn strings(xs: &[&str]) -> Vec<String> {
    xs.iter().map(|s| s.to_string()).collect()
}

fn dock_dir() -> Vec<String> {
    strings(&["home", "user", "proj"])
}

fn context_error_message(test_name: &str, context: &str) -> String {
    let mut env = empty_env();
    env.context = Some(context.to_string());
    let conf = config(test_name, env);

    match plan_run_in(&conf, Some(test_name), &rebuild_run()) {
        Err(e @ RunInError::RelPathFromContextPathFailed { .. }) => e.message(),
        _ => panic!("expected the context to be refused"),
    }
}

#[test]
fn context_starts_with_path_traversal() {
    let test_name = "context_starts_with_path_traversal";

    let msg = context_error_message(test_name, "../dir");

    assert!(msg.ends_with("The relative path didn't start with `.`"));
    assert_eq!(rel_path_from_path_buf("../dir"), Err(NewRelPathError::NoCurDirPrefix));
}

#[test]
fn context_contains_path_traversal() {
    let test_name = "context_contains_path_traversal";

    let msg = context_error_message(test_name, "dir/../dir");

    assert!(msg.ends_with("The relative path didn't start with `.`"));
}

#[test]
fn context_contains_absolute_path() {
    let test_name = "context_contains_absolute_path";

    let msg = context_error_message(test_name, "/dir");

    assert!(msg.ends_with("The relative path didn't start with `.`"));
}

#[test]
fn project_dir_without_workdir() {
    let test_name = "project_dir_without_workdir";
    let mut env = empty_env();
    env.mount_local = Some(vec![DockEnvironmentMountLocalConfig::ProjectDir]);

    assert!(matches!(plan_mounts(&env), Err(PrepareRunInArgsError::WorkdirNotSet)));
    let result = prepare_run_in_args(&env, &dock_dir(), &vec![], &no_ids(), EnvVarValue::NotPresent);

    let err = match result {
        Err(e @ PrepareRunInArgsError::WorkdirNotSet) => e,
        _ => panic!("expected `WorkdirNotSet` for {test_name}"),
    };
    let run_err = RunInError::PrepareRunInArgsFailed { source: err };
    assert!(run_err.message().contains("`workdir` is required"));
}

#[test]
fn build_with_file_outside_context_directory() {
    let test_name = "build_with_file_outside_context_directory";
    let mut env = empty_env();
    env.context = Some("./dir".to_string());
    let conf = config(test_name, env);

    let plan = plan_run_in(&conf, Some(test_name), &rebuild_run())
        .expect("couldn't plan the run");
    let rebuild = plan.rebuild.expect("expected a rebuild");
    let context = rebuild.context.expect("expected a context");
    let dockerfile = dockerfile_path(&dock_dir(), test_name);
    let ctx = new_docker_context(&dock_dir(), dockerfile, Some(&context));
    let args = context_args(&ctx, &[]);

    assert_eq!(context, strings(&["dir"]));
    assert_eq!(
        args,
        strings(&[
            "--file=/home/user/proj/build_with_file_outside_context_directory.Dockerfile",
            "/home/user/proj/dir",
        ]),
    );
}

#[test]
fn run_without_nested_docker() {
    let test_name = "run_without_nested_docker";
    let env = empty_env();
    let plan = plan_mounts(&env).expect("couldn't plan the mounts");

    let args = prepare_run_in_args(
        &env,
        &dock_dir(),
        &vec![],
        &no_ids(),
        EnvVarValue::NotPresent,
    )
        .expect("couldn't prepare the arguments");

    assert_eq!(args, strings(&["--rm", "--init"]), "{test_name}");
    assert!(plan.local.is_none());
}

// The volume that a removal deletes is the one that the run mounts: its
// name and mount argument.
#[test]
fn removing_cache_volume_deletes_files() {
    let test_name = "removing_cache_volume_deletes_files";
    let prefix = format!("test_org.test_proj.{test_name}");

    let m = cache_volume_mount(&prefix, "test", "/a/b").expect("couldn't mount the volume");

    assert_eq!(m.vol_name, format!("{prefix}.cache.test"));
    assert_eq!(m.path_arg, "/a/b");
    assert_eq!(m.mount_arg, format!("--mount=type=volume,src={prefix}.cache.test,dst=/a/b"));
}

#[test]
fn manual_volume_has_root_permission() {
    let test_name = "manual_volume_has_root_permission";
    let prefix = format!("test_org.test_proj.{test_name}");
    let m = cache_volume_mount(&prefix, "test", "/a/b").expect("couldn't mount the volume");

    let inspect = m.inspect_args();
    let init = m.init_args("img:latest");

    assert_eq!(inspect, strings(&["volume", "inspect", &format!("{prefix}.cache.test")]));
    assert_eq!(
        init,
        strings(&[
            "run",
            "--rm",
            "--user=root",
            &format!("--mount=type=volume,src={prefix}.cache.test,dst=/a/b"),
            "img:latest",
            "chmod",
            "-R",
            "0777",
            "/a/b",
        ]),
    );
}

#[test]
fn run_with_build_failure() {
    let test_name = "run_with_build_failure";
    let img = format!("test_org/test_proj.{test_name}:latest");
    let mut logger = CapturingCmdLogger::new();
    let out = b"Step 2/2 : RUN exit 2\n".to_vec();
    let err = b"The command '/bin/sh -c exit 2' returned a non-zero code: 2\n".to_vec();

    logger.log(&CmdLoggerMsg::Start);
    logger.log(&CmdLoggerMsg::StdoutWrite(&out));
    logger.log(&CmdLoggerMsg::StderrWrite(&err));
    logger.log(&CmdLoggerMsg::Exit);
    let result = rebuild_outcome(false, &img);

    assert!(matches!(
        result,
        Err(RebuildForRunInError::RebuildUnsuccessful { img: ref i }) if *i == img
    ));
    assert_eq!(logger.chunks.len(), 2);
    assert!(matches!(logger.chunks[0].0, Stream::Stdout));
    assert!(matches!(logger.chunks[1].0, Stream::Stderr));
    assert_eq!(
        String::from_utf8(logger.chunks[1].1.clone()).unwrap(),
        "The command '/bin/sh -c exit 2' returned a non-zero code: 2\n",
    );
}

#[test]
fn run_with_run_failure() {
    let test_name = "run_with_run_failure";
    let env = empty_env();
    let args = Args { docker: &[], command: &["cat", "/nonexistent"] };
    let img = format!("test_org/test_proj.{test_name}:latest");

    let run_args = docker_run_args(&env, None, &strings(&["--rm", "--init"]), &args, &img);

    assert_eq!(run_args, strings(&["run", "--rm", "--init", &img, "cat", "/nonexistent"]));
    assert_eq!(exit_code_from_exit_status(Some(1), false), 1);
}

#[test]
fn shell_without_bash_fails() {
    let mut env = empty_env();
    env.shell = Some("/bin/bash".to_string());
    let args = Args { docker: &["--interactive", "--tty", "--network=host"], command: &[] };

    let run_args = docker_run_args(&env, Some("/bin/sh"), &vec![], &args, "img");

    assert_eq!(run_args[1], "--entrypoint=/bin/bash");
}

#[test]
fn shell_uses_correct_image() {
    let test_name = "shell_uses_correct_image";
    let conf = config(test_name, empty_env());

    let plan = plan_run_in(&conf, Some(test_name), &rebuild_run()).expect("couldn't plan");

    assert_eq!(plan.target_img, format!("test_org/test_proj.{test_name}:latest"));
    assert_eq!(plan.cache_img, format!("test_org/test_proj.{test_name}:cached"));
    assert_eq!(plan.vol_name_prefix, format!("test_org.test_proj.{test_name}"));
}

#[test]
fn dock_shell_uses_default_shell_env() {
    let test_name = "dock_shell_uses_default_shell_env";
    let mut conf = config(test_name, empty_env());
    conf.environments.insert(0, ("other".to_string(), empty_env()));

    let plan = plan_run_in(&conf, None, &rebuild_run()).expect("couldn't plan");

    assert_eq!(plan.env_index, 1);
    assert_eq!(plan.env_name, test_name);
    assert_eq!(plan.target_img, format!("test_org/test_proj.{test_name}:latest"));
}

#[test]
fn dock_runs_shell_by_default() {
    let test_name = "dock_runs_shell_by_default";
    let conf = config(test_name, empty_env());
    let args = Args { docker: &["--interactive", "--tty", "--network=host"], command: &[] };

    let plan = plan_run_in(&conf, None, &rebuild_run()).expect("couldn't plan");
    let run_args = docker_run_args(
        &conf.environments[plan.env_index].1,
        Some("/bin/sh"),
        &strings(&["--rm", "--init"]),
        &args,
        &plan.target_img,
    );

    assert_eq!(
        run_args,
        strings(&[
            "run",
            "--entrypoint=/bin/sh",
            "--rm",
            "--init",
            "--interactive",
            "--tty",
            "--network=host",
            &format!("test_org/test_proj.{test_name}:latest"),
        ]),
    );
}

#[test]
fn shell_overrides_entrypoint() {
    let env = empty_env();
    let args = Args { docker: &[], command: &[] };

    let run_args = docker_run_args(&env, Some("/bin/sh"), &vec![], &args, "img");

    assert_eq!(run_args, strings(&["run", "--entrypoint=/bin/sh", "img"]));
}

#[test]
fn shell_with_bash() {
    let mut env = empty_env();
    env.shell = Some("/bin/bash".to_string());
    let args = Args { docker: &[], command: &[] };

    let run_args = docker_run_args(&env, Some("/bin/sh"), &vec![], &args, "img");

    assert_eq!(run_args, strings(&["run", "--entrypoint=/bin/bash", "img"]));
}

#[test]
fn run_in_without_shell_has_no_entrypoint() {
    let mut env = empty_env();
    env.shell = Some("/bin/bash".to_string());
    let args = Args { docker: &["--tty"], command: &["make", "check"] };

    let run_args = docker_run_args(&env, None, &strings(&["--rm"]), &args, "img");

    assert_eq!(run_args, strings(&["run", "--rm", "--tty", "img", "make", "check"]));
}

#[test]
fn unknown_environment_is_reported() {
    let conf = config("build", empty_env());

    let result = plan_run_in(&conf, Some("test"), &rebuild_run());

    match result {
        Err(e @ RunInError::EnvironmentNotFound { .. }) => {
            assert_eq!(e.message(), "Dock environment 'test' isn't defined");
        },
        _ => panic!("expected `EnvironmentNotFound`"),
    }
}

#[test]
fn skipped_rebuild_has_no_rebuild_plan() {
    let mut env = empty_env();
    env.context = Some("../refused".to_string());
    let conf = config("build", env);
    let rebuild = Rebuild { action: RebuildAction::Skip, cache_tag: "cached".to_string() };

    let plan = plan_run_in(&conf, Some("build"), &rebuild).expect("couldn't plan");

    assert!(plan.rebuild.is_none());
}

#[test]
fn rebuild_plan_takes_build_args() {
    let mut env = empty_env();
    env.build_args = Some(strings(&["--build-arg=A=1"]));
    let conf = config("build", env);

    let plan = plan_run_in(&conf, Some("build"), &rebuild_run()).expect("couldn't plan");
    let rebuild = plan.rebuild.expect("expected a rebuild");

    assert!(rebuild.context.is_none());
    assert_eq!(rebuild.build_args, strings(&["--build-arg=A=1"]));
    let ctx = new_docker_context(&dock_dir(), dockerfile_path(&dock_dir(), "build"), None);
    assert!(matches!(ctx, DockerContext::Empty { .. }));
    assert_eq!(context_args(&ctx, &["--pull"]), strings(&["-", "--pull"]));
}

#[test]
fn full_run_arguments_in_order() {
    let mut env = empty_env();
    env.workdir = Some("/app".to_string());
    env.run_args = Some(strings(&["--group-add=test"]));
    env.env = Some(vec![("A".to_string(), "1".to_string()), ("B".to_string(), "2".to_string())]);
    env.mounts = Some(vec![("./src".to_string(), "/app/src".to_string())]);
    env.mount_local = Some(vec![
        DockEnvironmentMountLocalConfig::User,
        DockEnvironmentMountLocalConfig::Group,
        DockEnvironmentMountLocalConfig::Docker,
        DockEnvironmentMountLocalConfig::ProjectDir,
    ]);
    let plan = plan_mounts(&env).expect("couldn't plan the mounts");
    let needs = plan.local.expect("expected local mounts");
    assert!(needs.user && needs.group && needs.docker);
    let ids = LocalIds {
        user_id: Some("1000\n".to_string()),
        group_id: Some("1001\n".to_string()),
        docker_gid: Some(998),
    };

    let args = prepare_run_in_args(
        &env,
        &dock_dir(),
        &strings(&["--mount=type=volume,src=v,dst=/c"]),
        &ids,
        EnvVarValue::NotPresent,
    )
        .expect("couldn't prepare the arguments");

    assert_eq!(
        args,
        strings(&[
            "--rm",
            "--init",
            "--mount=type=volume,src=v,dst=/c",
            "--group-add=test",
            "--workdir=/app",
            "--env=A=1",
            "--env=B=2",
            "--user=1000:1001",
            "--mount=type=bind,src=/var/run/docker.sock,dst=/var/run/docker.sock",
            "--group-add=998",
            "--mount=type=bind,src=/home/user/proj/src,dst=/app/src",
            "--mount=type=bind,src=/home/user/proj,dst=/app",
            "--env=DOCK_HOSTPATHS=/home/user/proj/src:/app/src:/home/user/proj:/app",
        ]),
    );
}

#[test]
fn user_without_group() {
    let mut env = empty_env();
    env.mount_local = Some(vec![DockEnvironmentMountLocalConfig::User]);
    let plan = plan_mounts(&env).expect("couldn't plan the mounts");
    let ids = LocalIds { user_id: Some("1000 \t\n".to_string()), group_id: None, docker_gid: None };

    let args = prepare_run_in_args(&env, &dock_dir(), &vec![], &ids, EnvVarValue::NotPresent)
        .expect("couldn't prepare the arguments");

    assert_eq!(args, strings(&["--rm", "--init", "--user=1000"]));
}

#[test]
fn group_without_user_is_refused() {
    let mut env = empty_env();
    env.mount_local = Some(vec![DockEnvironmentMountLocalConfig::Group]);

    let result = plan_mounts(&env);

    match result {
        Err(e) => assert_eq!(
            e.message(),
            "Couldn't prepare \"local mount\" arguments for `docker run`: local `group` was mounted without `user`",
        ),
        Ok(_) => panic!("expected an error"),
    }
}

#[test]
fn mount_with_bad_outer_path_is_refused() {
    let mut env = empty_env();
    env.mounts = Some(vec![
        ("./ok".to_string(), "/a".to_string()),
        ("bad".to_string(), "/b".to_string()),
    ]);

    let result = plan_mounts(&env);

    match result {
        Err(PrepareRunInArgsError::ParseConfigOuterPathFailed { source, rel_outer_path, inner_path }) => {
            assert_eq!(source, NewRelPathError::NoCurDirPrefix);
            assert_eq!(rel_outer_path, "bad");
            assert_eq!(inner_path, "/b");
        },
        _ => panic!("expected `ParseConfigOuterPathFailed`"),
    }
}

#[test]
fn mounts_are_routed_through_hostpaths() {
    let mut env = empty_env();
    env.mounts = Some(vec![("./src".to_string(), "/inner/src".to_string())]);
    let plan = plan_mounts(&env).expect("couldn't plan the mounts");
    let var = EnvVarValue::Present("/host/proj:/home/user/proj".to_string());

    let args = prepare_run_in_args(&env, &dock_dir(), &vec![], &no_ids(), var)
        .expect("couldn't prepare the arguments");

    assert_eq!(
        args,
        strings(&[
            "--rm",
            "--init",
            "--mount=type=bind,src=/host/proj/src,dst=/inner/src",
            "--env=DOCK_HOSTPATHS=/host/proj/src:/inner/src",
        ]),
    );
}

#[test]
fn mount_without_route_is_refused() {
    let mut env = empty_env();
    env.mounts = Some(vec![("./src".to_string(), "/inner/src".to_string())]);
    let plan = plan_mounts(&env).expect("couldn't plan the mounts");
    let var = EnvVarValue::Present("/host/proj:/elsewhere".to_string());

    let result = prepare_run_in_args(&env, &dock_dir(), &vec![], &no_ids(), var);

    match result {
        Err(e @ PrepareRunInArgsError::PrepareRunInMountArgsFailed { .. }) => assert_eq!(
            e.message(),
            "Couldn't prepare \"mount\" arguments for `docker run`: No route to the path '/home/user/proj/src' was found on the host",
        ),
        _ => panic!("expected `PrepareRunInMountArgsFailed`"),
    }
}

#[test]
fn bad_hostpaths_are_refused_only_with_mounts() {
    let env = empty_env();
    let plan = plan_mounts(&env).expect("couldn't plan the mounts");
    let bad = EnvVarValue::Present("/a:/b:/c".to_string());

    let args = prepare_run_in_args(&env, &dock_dir(), &vec![], &no_ids(), bad);
    assert!(args.is_ok());

    let mut env = empty_env();
    env.mounts = Some(vec![("./src".to_string(), "/inner/src".to_string())]);
    let plan = plan_mounts(&env).expect("couldn't plan the mounts");
    let bad = EnvVarValue::Present("/a:/b:/c".to_string());
    let result = prepare_run_in_args(&env, &dock_dir(), &vec![], &no_ids(), bad);
    match result {
        Err(e @ PrepareRunInArgsError::GetHostpathsFailed { .. }) => assert_eq!(
            e.message(),
            "Couldn't get hostpaths: '$DOCK_HOSTPATHS' has an unmatched hostpath",
        ),
        _ => panic!("expected `GetHostpathsFailed`"),
    }
}

#[test]
fn cache_volume_with_relative_path_is_refused() {
    let result = cache_volume_mount("o.p.e", "tmp", "tmp/cache");

    match result {
        Err(e) => assert_eq!(
            e.message(),
            "Couldn't convert the cache volume directory to an absolute path: The absolute path didn't start with `/`",
        ),
        Ok(_) => panic!("expected an error"),
    }
}

#[test]
fn only_unsuccessful_rebuilds_replay_output() {
    let unsuccessful = RebuildForRunInError::RebuildUnsuccessful { img: "i".to_string() };
    assert!(replays_captured_output(&RunInError::RebuildForRunInFailed { source: unsuccessful }));
    let unsuccessful = RebuildForRunInError::RebuildUnsuccessful { img: "i".to_string() };
    assert!(!replays_captured_output(&RunInError::SpinnerRebuildForRunInFailed { source: unsuccessful }));
    let failed = RebuildForRunInError::RebuildFailed { message: "m".to_string(), img: "i".to_string() };
    assert!(!replays_captured_output(&RunInError::RebuildForRunInFailed { source: failed }));
    assert!(!replays_captured_output(&RunInError::ExecFailed { message: "m".to_string() }));
}

#[test]
fn cache_volume_is_created_only_when_missing() {
    let m = cache_volume_mount("org.proj.env", "deps", "/deps").expect("couldn't mount the volume");
    assert_eq!(m.init_args_after_inspect("img", true), None);
    assert_eq!(m.init_args_after_inspect("img", false), Some(m.init_args("img")));
    assert_eq!(m.init_args("img")[3], "--mount=type=volume,src=org.proj.env.cache.deps,dst=/deps");
}
