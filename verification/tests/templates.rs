// Tests named after command-line scenarios of `dock` check the share of the
// scenario that this library decides: the plan of the run, the arguments of
// the `docker` commands and the errors reported. Running Docker and looking
// at what it leaves behind belong to the binary, and aren't tested here.

use dock::init::file_action_line;
use dock::init::parse_templates_source;
use dock::init::FileAction;
use dock::init::ParseTemplatesSourceError;
use dock::init::TemplatesSourceScheme;

#[test]
fn git_source_parses() {
    let src = parse_templates_source("git:https://example.com/t.git:v1:./templates")
        .ok()
        .expect("couldn't parse");

    assert_eq!(src.subdir, vec!["templates".to_string()]);
    match &src.scheme {
        TemplatesSourceScheme::Git(g) => {
            assert_eq!(g.url, "https://example.com/t.git");
            assert_eq!(g.reference, "v1");
            assert_eq!(
                g.clone_args(),
                vec!["clone", "--branch", "v1", "--no-tags", "--depth=1", "https://example.com/t.git", "."],
            );
        },
        TemplatesSourceScheme::Dir(_) => panic!("expected a Git source"),
    }
    let c = src.scheme.clone_command("/tmp/x");
    assert!(!c.remove_dir_first && c.in_dir);
    assert_eq!(c.prog, "git");
}

#[test]
fn dir_source_parses() {
    let src = parse_templates_source("dir:/a:b:-:.").ok().expect("couldn't parse");

    assert!(src.subdir.is_empty());
    match &src.scheme {
        TemplatesSourceScheme::Dir(d) => assert_eq!(d.path, "/a:b"),
        TemplatesSourceScheme::Git(_) => panic!("expected a directory source"),
    }
    let c = src.scheme.clone_command("/tmp/x");
    assert!(c.remove_dir_first && !c.in_dir);
    assert_eq!(c.prog, "cp");
    assert_eq!(c.args, vec!["-r", "/a:b", "/tmp/x"]);
}

#[test]
fn bad_sources_are_refused() {
    let e = parse_templates_source("git:x:y").err().expect("expected an error");
    assert!(matches!(e, ParseTemplatesSourceError::SplitTemplatesSourceFailed { .. }));
    assert_eq!(e.message(), "Couldn't split the templates source: The templates source contained too few ':'");

    let e = parse_templates_source("dir:/a:v1:.").err().expect("expected an error");
    assert!(matches!(e, ParseTemplatesSourceError::UnsupportedDirReference { ref reference } if reference == "v1"));
    assert_eq!(e.message(), "'v1' can't be used as a reference for the 'dir' scheme (only '-' is supported)");

    let e = parse_templates_source("svn:/a:v1:.").err().expect("expected an error");
    assert!(matches!(e, ParseTemplatesSourceError::UnsupportedSourceType { ref source_scheme } if source_scheme == "svn"));
    assert_eq!(e.message(), "Unsupported templates source scheme: svn");

    let e = parse_templates_source("git:/a:v1:templates").err().expect("expected an error");
    assert_eq!(e.message(), "Couldn't convert 'templates' to a relative path: The relative path didn't start with `.`");
}

#[test]
fn file_actions_are_reported() {
    assert_eq!(file_action_line(FileAction::Create, "a/b"), "Created 'a/b'");
    assert_eq!(file_action_line(FileAction::Skip, "c"), "Skipped 'c'");
}

fn git_clone_args_for(source: &str) -> Vec<String> {
    let src = parse_templates_source(source).ok().expect("couldn't parse");
    assert!(src.subdir.is_empty());
    let c = src.scheme.clone_command("/tmp/dock.x");
    assert_eq!(c.prog, "git");
    assert!(c.in_dir && !c.remove_dir_first);
    c.args
}

#[test]
fn init_from_old_git_tag() {
    let test_source_dir = "/tmp/init_from_old_git_tag/src";
    let source = format!("git:{test_source_dir}:v1:.");

    let args = git_clone_args_for(&source);

    assert_eq!(args, vec!["clone", "--branch", "v1", "--no-tags", "--depth=1", test_source_dir, "."]);
}

#[test]
fn init_from_new_git_tag() {
    let test_source_dir = "/tmp/init_from_new_git_tag/src";
    let source = format!("git:{test_source_dir}:v2:.");

    let args = git_clone_args_for(&source);

    assert_eq!(args, vec!["clone", "--branch", "v2", "--no-tags", "--depth=1", test_source_dir, "."]);
}
