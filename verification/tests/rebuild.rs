// Tests named after command-line scenarios of `dock` check the share of the
// scenario that this library decides: the plan of the run, the arguments of
// the `docker` commands and the errors reported. Running Docker and looking
// at what it leaves behind belong to the binary, and aren't tested here.

use dock::rebuild::CleanupStep;
use dock::rebuild::cleanup_step;
use dock::cli::exit_code_from_exit_status;
use dock::cli::index_of_first_unsupported_flag;
use dock::rebuild::build_args;
use dock::rebuild::cleanup_args;
use dock::rebuild::tag_args;
use dock::rebuild::to_strings;

fn strings(xs: &[&str]) -> Vec<String> {
    xs.iter().map(|s| s.to_string()).collect()
}

fn cache_of(img: &str) -> String {
    format!("{img}-cache")
}

#[test]
fn success_rebuild_creates_image_if_none() {
    let img = "test_org/test_proj.rebuild_creates_image_if_none:latest";
    let args = ["."];

    assert_eq!(index_of_first_unsupported_flag(&args), None);
    assert_eq!(tag_args(img, &cache_of(img)), strings(&["tag", img, &cache_of(img)]));
    assert_eq!(
        build_args(img, &to_strings(&args)),
        strings(&["build", &format!("--tag={img}"), "--force-rm", "."]),
    );
    // Without an image to keep, nothing follows the build.
    assert_eq!(cleanup_args(false, true, img, &cache_of(img)), None);
}

#[test]
fn success_rebuild_replaces_old_image() {
    let img = "test_org/test_proj.rebuild_replaces_old_image:latest";

    let cleanup = cleanup_args(true, true, img, &cache_of(img));

    assert_eq!(cleanup, Some(strings(&["rmi", &cache_of(img)])));
}

#[test]
fn success_rebuild_unchanged_context_doesnt_replace_image() {
    let img = "test_org/test_proj.rebuild_unchanged_context_doesnt_replace_image:latest";

    // The old image is removed by its name, so an unchanged build (which
    // has the same ID) stays under the target name.
    let cleanup = cleanup_args(true, true, img, &cache_of(img));

    assert_eq!(cleanup, Some(strings(&["rmi", &cache_of(img)])));
}

#[test]
fn file_argument() {
    let img = "test_org/test_proj.file_argument:latest";
    let args = [".", "--file=test.Dockerfile"];

    assert_eq!(index_of_first_unsupported_flag(&args), None);
    assert_eq!(
        build_args(img, &to_strings(&args)),
        strings(&["build", &format!("--tag={img}"), "--force-rm", ".", "--file=test.Dockerfile"]),
    );
}

#[test]
fn pass_dockerfile_through_stdin() {
    let img = "test_org/test_proj.pass_dockerfile_through_stdin:latest";
    let args = ["-"];

    assert_eq!(index_of_first_unsupported_flag(&args), None);
    assert_eq!(
        build_args(img, &to_strings(&args)),
        strings(&["build", &format!("--tag={img}"), "--force-rm", "-"]),
    );
}

#[test]
fn cleanup_succeeds_even_if_image_not_removed() {
    let img = "test_org/test_proj.cleanup_succeeds_even_if_image_not_removed:latest";

    // The old image is removed by the name that kept it, never by its ID,
    // so an image that a container uses isn't the target of the removal.
    let cleanup = cleanup_args(true, true, img, &cache_of(img)).expect("expected a cleanup");

    assert_eq!(cleanup[0], "rmi");
    assert_eq!(cleanup[1], cache_of(img));
    assert_eq!(cleanup.len(), 2);
}

#[test]
fn errors_failing_dockerfile_returns_non_zero() {
    let img = "test_org/test_proj.failing_dockerfile_returns_non_zero:latest";

    let cleanup = cleanup_args(true, false, img, &cache_of(img));

    assert_eq!(cleanup, Some(strings(&["tag", &cache_of(img), img])));
    assert_ne!(exit_code_from_exit_status(Some(1), false), 0);
    assert_ne!(exit_code_from_exit_status(None, false), 0);
}

#[test]
fn success_failing_dockerfile_returns_non_zero() {
    assert_eq!(exit_code_from_exit_status(Some(2), false), 2);
    assert_eq!(exit_code_from_exit_status(None, false), 1);
    assert_eq!(exit_code_from_exit_status(None, true), 0);
    assert_eq!(exit_code_from_exit_status(Some(0), true), 0);
}

#[test]
fn unsupported_flags_are_found() {
    assert_eq!(index_of_first_unsupported_flag(&[".", "--force-rm"]), Some(1));
    assert_eq!(index_of_first_unsupported_flag(&["-t", "x"]), Some(0));
    assert_eq!(index_of_first_unsupported_flag(&["--pull", "--tag", "x"]), Some(1));
    assert_eq!(index_of_first_unsupported_flag(&["--pull", "--tag=x", "-t"]), Some(1));
    assert_eq!(index_of_first_unsupported_flag(&["--tags", "--ta", "-tag"]), None);
    assert_eq!(index_of_first_unsupported_flag(&[]), None);
}

#[test]
fn rebuild_keeps_old_image_under_cache_name() {
    assert_eq!(dock::cli::rebuild_cache_image("org/img:v1"), "org/img:v1-cached");
}

#[test]
fn cleanup_step_follows_build_outcome() {
    assert_eq!(cleanup_step(false, true), None);
    assert_eq!(cleanup_step(false, false), None);
    assert_eq!(cleanup_step(true, true), Some(CleanupStep::RemoveOldImage));
    assert_eq!(cleanup_step(true, false), Some(CleanupStep::RestoreOldImage));
    assert_eq!(CleanupStep::RemoveOldImage.docker_args("img", "img.cache"), strings(&["rmi", "img.cache"]));
    assert_eq!(
        CleanupStep::RestoreOldImage.docker_args("img", "img.cache"),
        strings(&["tag", "img.cache", "img"]),
    );
}
