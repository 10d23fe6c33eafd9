use dock::canon_path::NewAbsPathError;
use dock::run_in::apply_hostpath;
use dock::run_in::hostpaths;
use dock::run_in::hostpaths_from_pairs;
use dock::run_in::pairs;
use dock::run_in::parse_hostpaths;
use dock::run_in::prepare_run_mount_args;
use dock::run_in::EnvVarValue;
use dock::run_in::HostpathFromPairsError;
use dock::run_in::HostpathInsertError;
use dock::run_in::Hostpaths;
use dock::run_in::HostpathsError;
use dock::run_in::PrepareRunInMountArgsError;
use dock::text::split_char;

fn strings(xs: &[&str]) -> Vec<String> {
    xs.iter().map(|s| s.to_string()).collect()
}

#[test]
fn pairs_of_even_list() {
    assert_eq!(pairs(&[1, 2, 3, 4]), Some(vec![(1, 2), (3, 4)]));
    assert_eq!(pairs::<u8>(&[]), Some(vec![]));
    assert_eq!(pairs(&[1, 2, 3]), None);
}

#[test]
fn lookup_routes_below_inner_path() {
    let mut hps = Hostpaths::new();
    hps.insert(strings(&["host", "a"]), strings(&["inner"])).expect("couldn't insert");

    assert_eq!(hps.lookup(&strings(&["inner", "x", "y"])), Some(strings(&["host", "a", "x", "y"])));
    assert_eq!(hps.lookup(&strings(&["inner"])), Some(strings(&["host", "a"])));
    assert_eq!(hps.lookup(&strings(&["other"])), None);
    assert_eq!(hps.lookup(&strings(&[])), None);
}

#[test]
fn insert_errors() {
    let mut hps = Hostpaths::new();
    hps.insert(strings(&["h"]), strings(&["a", "b"])).expect("couldn't insert");

    let e = hps.insert(strings(&["h2"]), strings(&[])).unwrap_err();
    assert!(matches!(e, HostpathInsertError::EmptyInnerPath { .. }));
    let e = hps.insert(strings(&["h3"]), strings(&["a", "b", "c"])).unwrap_err();
    assert!(matches!(e, HostpathInsertError::InnerPathAncestorHasMapping { .. }));
    assert_eq!(e.message(), "A host path maps to an ancestor of '/a/b/c' (which is mapped-to by '/h3')");
    let e = hps.insert(strings(&["h4"]), strings(&["a"])).unwrap_err();
    assert!(matches!(e, HostpathInsertError::InnerPathDescendentHasMapping { .. }));
    assert_eq!(e.message(), "A host path maps to a descendant of '/a' (which is mapped-to by '/h4')");

    assert_eq!(hps.lookup(&strings(&["a", "b", "c"])), Some(strings(&["h", "c"])));
}

#[test]
fn hostpaths_parse_from_text() {
    let hps = parse_hostpaths("/host/x:/in/x:/host/y:/in/y").expect("couldn't parse");

    assert_eq!(hps.lookup(&strings(&["in", "x", "f"])), Some(strings(&["host", "x", "f"])));
    assert_eq!(hps.lookup(&strings(&["in", "y"])), Some(strings(&["host", "y"])));
    assert_eq!(hps.lookup(&strings(&["in"])), None);
}

#[test]
fn hostpaths_with_unmatched_path() {
    let e = parse_hostpaths("/a:/b:/c").err().expect("expected an error");

    match e {
        HostpathsError::UnmatchedHostpath { ref hostpaths } => {
            assert_eq!(*hostpaths, strings(&["/a", "/b", "/c"]));
        },
        _ => panic!("expected `UnmatchedHostpath`"),
    }
    assert_eq!(e.message(), "'$DOCK_HOSTPATHS' has an unmatched hostpath");
}

#[test]
fn hostpaths_with_relative_paths() {
    let e = parse_hostpaths("rel:/b").err().expect("expected an error");
    match e {
        HostpathsError::CreateHostpathsFailed {
            source: HostpathFromPairsError::ParseOuterPathFailed { source, ref outer_path, ref inner_path },
        } => {
            assert_eq!(source, NewAbsPathError::NoRootDirPrefix);
            assert_eq!(outer_path, "rel");
            assert_eq!(inner_path, "/b");
        },
        _ => panic!("expected `ParseOuterPathFailed`"),
    }

    let e = parse_hostpaths("/a:").err().expect("expected an error");
    match e {
        HostpathsError::CreateHostpathsFailed {
            source: HostpathFromPairsError::ParseInnerPathFailed { source, .. },
        } => assert_eq!(source, NewAbsPathError::EmptyAbsPath),
        _ => panic!("expected `ParseInnerPathFailed`"),
    }

    let e = parse_hostpaths("/a:/").err().expect("expected an error");
    assert!(matches!(
        e,
        HostpathsError::CreateHostpathsFailed {
            source: HostpathFromPairsError::HostpathInsertFailed {
                source: HostpathInsertError::EmptyInnerPath { .. },
                ..
            },
        }
    ));
}

#[test]
fn hostpaths_from_var() {
    assert!(matches!(hostpaths(EnvVarValue::NotPresent), Ok(None)));
    let e = hostpaths(EnvVarValue::NotUnicode(vec![0xff])).err().expect("expected an error");
    assert!(matches!(e, HostpathsError::EnvVarIsNotUnicode { ref value } if *value == vec![0xff]));
    assert_eq!(e.message(), "The value of '$DOCK_HOSTPATHS' isn't unicode");
    let h = hostpaths(EnvVarValue::Present("/h:/i".to_string())).expect("couldn't parse");
    let h = h.expect("expected hostpaths");
    assert_eq!(h.lookup(&strings(&["i", "j"])), Some(strings(&["h", "j"])));
}

#[test]
fn hostpaths_from_pairs_in_order() {
    let hps = hostpaths_from_pairs(&vec![("/h1", "/i"), ("/h2", "/j/k")]).expect("couldn't build");

    assert_eq!(hps.lookup(&strings(&["j", "k", "l"])), Some(strings(&["h2", "l"])));

    let e = hostpaths_from_pairs(&vec![("/h1", "/i"), ("/h2", "/i/k")]).err().expect("expected an error");
    assert_eq!(
        e.message(),
        "Couldn't add hostpath mapping '/i/k' to '/h2' to hostpaths: A host path maps to an ancestor of '/i/k' (which is mapped-to by '/h2')",
    );
}

#[test]
fn apply_hostpath_without_hostpaths_keeps_path() {
    let p = strings(&["a", "b"]);

    assert_eq!(apply_hostpath(None, &p), Some(p.clone()));
}

#[test]
fn rendered_hostpaths_parse_back() {
    let dock_dir = strings(&["p"]);
    let mounts = vec![(strings(&["x"]), "/in/x".to_string()), (strings(&[]), "/in".to_string())];

    let args = prepare_run_mount_args(&dock_dir, &mounts, None).expect("couldn't prepare");
    let env_arg = args.last().expect("expected arguments").clone();
    let rendered = env_arg.strip_prefix("--env=DOCK_HOSTPATHS=").expect("expected the variable");

    assert_eq!(split_char(rendered, ':'), strings(&["/p/x", "/in/x", "/p", "/in"]));
    let err = parse_hostpaths(rendered).err().expect("nested inner paths can't both map");
    assert!(matches!(err, HostpathsError::CreateHostpathsFailed { .. }));

    let mounts = vec![(strings(&["x"]), "/in/x".to_string()), (strings(&["y"]), "/in/y".to_string())];
    let args = prepare_run_mount_args(&dock_dir, &mounts, None).expect("couldn't prepare");
    let rendered = args[2].strip_prefix("--env=DOCK_HOSTPATHS=").expect("expected the variable");
    let hps = parse_hostpaths(rendered).expect("couldn't parse");
    assert_eq!(hps.lookup(&strings(&["in", "y", "z"])), Some(strings(&["p", "y", "z"])));
}

#[test]
fn mount_args_report_first_path_without_route() {
    let hps = parse_hostpaths("/h:/p/x").expect("couldn't parse");
    let dock_dir = strings(&["p"]);
    let mounts = vec![(strings(&["x"]), "/a".to_string()), (strings(&["y"]), "/b".to_string())];

    let e = prepare_run_mount_args(&dock_dir, &mounts, Some(&hps)).err().expect("expected an error");

    let PrepareRunInMountArgsError::NoPathRouteOnHost { ref attempted_path } = e;
    assert_eq!(*attempted_path, strings(&["p", "y"]));
    assert_eq!(e.message(), "No route to the path '/p/y' was found on the host");
}

#[test]
fn nested_run_finds_mounts_through_hostpaths_var() {
    let dock_dir = strings(&["home", "p"]);
    let mounts = vec![(strings(&["src"]), "/work/src".to_string()), (strings(&[]), "/proj".to_string())];

    let args = prepare_run_mount_args(&dock_dir, &mounts, None).expect("couldn't prepare");
    let rendered = args[2].strip_prefix("--env=DOCK_HOSTPATHS=").expect("expected the variable");
    assert_eq!(rendered, "/home/p/src:/work/src:/home/p:/proj");

    let hps = hostpaths(EnvVarValue::Present(rendered.to_string()))
        .expect("couldn't parse")
        .expect("expected hostpaths");
    assert_eq!(hps.lookup(&strings(&["work", "src"])), Some(strings(&["home", "p", "src"])));
    assert_eq!(hps.lookup(&strings(&["proj", "a", "b"])), Some(strings(&["home", "p", "a", "b"])));
    assert_eq!(hps.lookup(&strings(&["work"])), None);

    let inner_mounts = vec![(strings(&["lib"]), "/deep".to_string())];
    let inner_args = prepare_run_mount_args(&strings(&["work", "src"]), &inner_mounts, Some(&hps))
        .expect("couldn't prepare the nested mounts");
    assert_eq!(inner_args[0], "--mount=type=bind,src=/home/p/src/lib,dst=/deep");
    let inner_rendered = inner_args[1].strip_prefix("--env=DOCK_HOSTPATHS=").expect("expected the variable");
    let inner_hps = hostpaths(EnvVarValue::Present(inner_rendered.to_string()))
        .expect("couldn't parse")
        .expect("expected hostpaths");
    assert_eq!(inner_hps.lookup(&strings(&["deep", "x"])), Some(strings(&["home", "p", "src", "lib", "x"])));
}

#[test]
fn run_without_mounts_passes_an_unmatched_hostpath() {
    let args = prepare_run_mount_args(&strings(&["p"]), &vec![], None).expect("couldn't prepare");
    assert_eq!(args, strings(&["--env=DOCK_HOSTPATHS="]));
    let err = hostpaths(EnvVarValue::Present(String::new())).err().expect("expected an error");
    assert!(matches!(err, HostpathsError::UnmatchedHostpath { .. }));
}
