//! Rebuilding Docker images: the `docker` commands that replace a tagged
//! image with a new build, keeping the old image until the build is done.

use vstd::prelude::*;

use crate::canon_path::abs_path_display_lossy;
use crate::canon_path::display_spec;
use crate::canon_path::path_view;
use crate::canon_path::AbsPath;
use crate::text::concat;
use crate::text::texts;

verus! {

/// Returns `strs` as owned strings.
pub fn to_strings(strs: &[&str]) -> (r: Vec<String>)
    ensures
        r@.len() == strs@.len(),
        forall|i: int| 0 <= i < strs@.len() ==> #[trigger] r@[i]@ == strs@[i]@,
{
    let mut r: Vec<String> = Vec::new();
    let mut i: usize = 0;
    while i < strs.len()
        invariant
            i <= strs@.len(),
            r@.len() == i,
            forall|k: int| 0 <= k < i ==> #[trigger] r@[k]@ == strs@[k]@,
        decreases strs@.len() - i,
    {
        r.push(String::from_str(strs[i]));
        i += 1;
    }
    r
}

/// The texts of `strs`.
pub open spec fn str_texts(strs: Seq<&str>) -> Seq<Seq<char>> {
    strs.map_values(|s: &str| s@)
}

/// The arguments to `docker` that keep the current image of `target_img`
/// under the name `cache_img`.
pub fn tag_args(target_img: &str, cache_img: &str) -> (args: Vec<String>)
    ensures
        texts(args@) == seq!["tag"@, target_img@, cache_img@],
{
    let mut args: Vec<String> = Vec::new();
    args.push(String::from_str("tag"));
    args.push(String::from_str(target_img));
    args.push(String::from_str(cache_img));
    proof {
        assert(texts(args@) =~= seq!["tag"@, target_img@, cache_img@]);
    }
    args
}

/// The arguments to `docker` that build `target_img`, removing the
/// intermediate containers whatever the outcome, followed by `args`.
pub fn build_args(target_img: &str, args: &Vec<String>) -> (r: Vec<String>)
    ensures
        texts(r@) == seq!["build"@, "--tag="@ + target_img@, "--force-rm"@] + texts(args@),
{
    let mut r: Vec<String> = Vec::new();
    r.push(String::from_str("build"));
    r.push(concat("--tag=", target_img));
    r.push(String::from_str("--force-rm"));
    let ghost start = texts(r@);
    let mut i: usize = 0;
    while i < args.len()
        invariant
            i <= args@.len(),
            texts(r@) == start + texts(args@.take(i as int)),
        decreases args@.len() - i,
    {
        let ghost before = r@;
        r.push(args[i].clone());
        proof {
            assert(texts(r@) =~= texts(before).push(args@[i as int]@));
            assert(texts(args@.take(i + 1)) =~= texts(args@.take(i as int)).push(args@[i as int]@));
        }
        i += 1;
    }
    proof {
        assert(args@.take(i as int) =~= args@);
        assert(start =~= seq!["build"@, "--tag="@ + target_img@, "--force-rm"@]);
    }
    r
}

/// The step that follows up a build, where the old image was kept as the
/// cache image.
#[derive(Debug, Clone, Copy, PartialEq, Eq)]
pub enum CleanupStep {
    /// After a successful build: the old image is removed.
    RemoveOldImage,
    /// After a failed build: the old image is put back under its tag.
    RestoreOldImage,
}

/// The step that follows up a build: none where the old image couldn't be
/// kept (its tagging failed), else removing it after a successful build
/// and restoring it after a failed one.
pub fn cleanup_step(tag_succeeded: bool, build_succeeded: bool) -> (r: Option<CleanupStep>)
    ensures
        r == (if !tag_succeeded {
            None
        } else if build_succeeded {
            Some(CleanupStep::RemoveOldImage)
        } else {
            Some(CleanupStep::RestoreOldImage)
        }),
{
    if !tag_succeeded {
        None
    } else if build_succeeded {
        Some(CleanupStep::RemoveOldImage)
    } else {
        Some(CleanupStep::RestoreOldImage)
    }
}

impl CleanupStep {
    pub open spec fn spec_docker_args(&self, target_img: Seq<char>, cache_img: Seq<char>) -> Seq<
        Seq<char>,
    > {
        match self {
            CleanupStep::RemoveOldImage => seq!["rmi"@, cache_img],
            CleanupStep::RestoreOldImage => seq!["tag"@, cache_img, target_img],
        }
    }

    /// The arguments to `docker` that take this step, where the old image
    /// of `target_img` was kept as `cache_img`.
    pub fn docker_args(&self, target_img: &str, cache_img: &str) -> (a: Vec<String>)
        ensures
            texts(a@) == self.spec_docker_args(target_img@, cache_img@),
    {
        let mut a: Vec<String> = Vec::new();
        match self {
            CleanupStep::RemoveOldImage => {
                a.push(String::from_str("rmi"));
                a.push(String::from_str(cache_img));
                proof {
                    assert(texts(a@) =~= seq!["rmi"@, cache_img@]);
                }
            },
            CleanupStep::RestoreOldImage => {
                a.push(String::from_str("tag"));
                a.push(String::from_str(cache_img));
                a.push(String::from_str(target_img));
                proof {
                    assert(texts(a@) =~= seq!["tag"@, cache_img@, target_img@]);
                }
            },
        }
        a
    }
}

/// The arguments to `docker` that follow up a build, where the old image
/// was kept as `cache_img`: the old image is removed after a successful
/// build, and put back as `target_img` after a failed one. Nothing follows
/// where the old image couldn't be kept.
pub fn cleanup_args(
    tag_succeeded: bool,
    build_succeeded: bool,
    target_img: &str,
    cache_img: &str,
) -> (r: Option<Vec<String>>)
    ensures
        !tag_succeeded ==> r is None,
        tag_succeeded && build_succeeded ==> (r matches Some(a) && texts(a@) == seq![
            "rmi"@,
            cache_img@,
        ]),
        tag_succeeded && !build_succeeded ==> (r matches Some(a) && texts(a@) == seq![
            "tag"@,
            cache_img@,
            target_img@,
        ]),
{
    match cleanup_step(tag_succeeded, build_succeeded) {
        None => None,
        Some(step) => Some(step.docker_args(target_img, cache_img)),
    }
}

/// What a build reads: the Dockerfile alone (passed on standard input), or
/// a context directory with the Dockerfile given by path.
pub enum DockerContext {
    Empty { dockerfile: AbsPath },
    Dir { path: AbsPath, dockerfile: AbsPath },
}

/// The arguments to `docker build` that name the context and Dockerfile.
pub open spec fn context_args_spec(context: DockerContext) -> Seq<Seq<char>> {
    match context {
        DockerContext::Empty { .. } => seq!["-"@],
        DockerContext::Dir { path, dockerfile } => seq![
            "--file="@ + display_spec(path_view(dockerfile@)),
            display_spec(path_view(path@)),
        ],
    }
}

/// Returns the arguments to `docker build` that name the context and
/// Dockerfile of `context`, followed by `extra_args`.
pub fn context_args(context: &DockerContext, extra_args: &[&str]) -> (args: Vec<String>)
    ensures
        texts(args@) == context_args_spec(*context) + str_texts(extra_args@),
{
    let mut args: Vec<String> = Vec::new();
    match context {
        DockerContext::Empty { .. } => {
            args.push(String::from_str("-"));
        },
        DockerContext::Dir { path, dockerfile } => {
            let f = abs_path_display_lossy(dockerfile.as_slice());
            args.push(concat("--file=", f.as_str()));
            args.push(abs_path_display_lossy(path.as_slice()));
        },
    }
    proof {
        assert(texts(args@) =~= context_args_spec(*context));
    }
    let ghost start = texts(args@);
    let mut i: usize = 0;
    while i < extra_args.len()
        invariant
            i <= extra_args@.len(),
            texts(args@) == start + str_texts(extra_args@.take(i as int)),
        decreases extra_args@.len() - i,
    {
        let ghost before = args@;
        args.push(String::from_str(extra_args[i]));
        proof {
            assert(texts(args@) =~= texts(before).push(extra_args@[i as int]@));
            assert(str_texts(extra_args@.take(i + 1)) =~= str_texts(extra_args@.take(i as int)).push(
                extra_args@[i as int]@,
            ));
        }
        i += 1;
    }
    proof {
        assert(extra_args@.take(i as int) =~= extra_args@);
    }
    args
}

} // verus!
