//! The decisions of `dock`'s command line: which `docker build` flags
//! `dock rebuild` refuses, which environment a run names, and the exit code
//! that a finished command gives.

use vstd::prelude::*;

use crate::run_in::RebuildForRunInError;
use crate::run_in::RunInError;
use crate::text::concat;
use crate::text::ends_with;
use crate::text::starts_with;
use crate::text::str_eq;
use crate::text::substring;

verus! {

/// Whether `arg` is a flag of `docker build` that `dock rebuild` sets
/// itself: `--force-rm`, `-t`, `--tag`, or `--tag=...`.
pub open spec fn is_unsupported_flag(arg: Seq<char>) -> bool {
    ||| arg == "--force-rm"@
    ||| arg == "-t"@
    ||| arg == "--tag"@
    ||| ("--tag="@.len() <= arg.len() && arg.take("--tag="@.len() as int) == "--tag="@)
}

/// Returns the index of the first argument in `args` that `dock rebuild`
/// doesn't accept, if there is one.
pub fn index_of_first_unsupported_flag(args: &[&str]) -> (r: Option<usize>)
    ensures
        match r {
            Some(i) => {
                &&& i < args@.len()
                &&& is_unsupported_flag(args@[i as int]@)
                &&& forall|j: int| 0 <= j < i ==> !is_unsupported_flag(#[trigger] args@[j]@)
            },
            None => forall|j: int| 0 <= j < args@.len() ==> !is_unsupported_flag(#[trigger] args@[j]@),
        },
{
    let mut i: usize = 0;
    while i < args.len()
        invariant
            i <= args@.len(),
            forall|j: int| 0 <= j < i ==> !is_unsupported_flag(#[trigger] args@[j]@),
        decreases args@.len() - i,
    {
        let arg = args[i];
        let matched = str_eq(arg, "--force-rm") || str_eq(arg, "-t") || str_eq(arg, "--tag")
            || starts_with(arg, "--tag=");
        if matched {
            return Some(i);
        }
        i += 1;
    }
    None
}

/// Returns the exit code that `dock` gives for a command that exited with
/// `code` (none where a signal ended it) and with or without success: the
/// command's own code, else 0 on success and 1 otherwise.
pub fn exit_code_from_exit_status(code: Option<i32>, success: bool) -> (r: i32)
    ensures
        r == match code {
            Some(c) => c,
            None => if success {
                0i32
            } else {
                1i32
            },
        },
{
    match code {
        Some(c) => c,
        None => if success {
            0
        } else {
            1
        },
    }
}

/// The environment that the argument `arg` names: `arg` without a trailing
/// `-env:`, where it has one.
pub open spec fn env_name_of_arg(arg: Seq<char>) -> Seq<char> {
    let suffix = "-env:"@;
    if suffix.len() <= arg.len() && arg.skip(arg.len() - suffix.len()) == suffix {
        arg.take(arg.len() - suffix.len())
    } else {
        arg
    }
}

/// Returns the environment that the argument `arg` names.
pub fn env_name_from_arg(arg: &str) -> (name: String)
    ensures
        name@ == env_name_of_arg(arg@),
{
    let suffix = "-env:";
    proof {
        reveal_strlit("-env:");
    }
    if ends_with(arg, suffix) {
        let n = arg.unicode_len();
        substring(arg, 0, n - 5)
    } else {
        String::from_str(arg)
    }
}


/// Whether a run that failed with `err` shows the output that it captured
/// (the output of the failed build) in place of the error: where the
/// environment's image was rebuilt without success while its output was
/// captured. A rebuild shown with a spinner reports its error instead.
pub fn replays_captured_output(err: &RunInError) -> (r: bool)
    ensures
        r == (err matches RunInError::RebuildForRunInFailed {
            source: RebuildForRunInError::RebuildUnsuccessful { .. },
        }),
{
    match err {
        RunInError::RebuildForRunInFailed {
            source: RebuildForRunInError::RebuildUnsuccessful { .. },
        } => true,
        _ => false,
    }
}

/// The name under which `dock rebuild` keeps the previous image of
/// `target_img` while it builds: `target_img-cached`. The command line of
/// `dock rebuild` names no cache image, so this is a fixed choice of this
/// library; a suffix (rather than a `:cached` tag, as `run-in` uses on
/// untagged image names) keeps it valid where `target_img` already has a
/// tag.
pub fn rebuild_cache_image(target_img: &str) -> (name: String)
    ensures
        name@ == target_img@ + "-cached"@,
{
    concat(target_img, "-cached")
}

} // verus!
