//! The human-readable descriptions of the errors of runs and clean-ups.

use vstd::prelude::*;

use crate::canon_path::display_spec;
use crate::canon_path::abs_path_display_lossy;
use crate::canon_path::path_view;
use crate::clean::CleanError;
use crate::run_in::FindAndParseDockConfigError;
use crate::run_in::HostpathFromPairsError;
use crate::run_in::HostpathInsertError;
use crate::run_in::HostpathsError;
use crate::run_in::NewDockerContextError;
use crate::run_in::ParseDockConfigError;
use crate::run_in::PrepareRunInArgsError;
use crate::run_in::PrepareRunInCacheVolumesArgsError;
use crate::run_in::PrepareRunInMountArgsError;
use crate::run_in::PrepareRunInMountLocalArgsError;
use crate::run_in::RebuildForRunInError;
use crate::run_in::RunInError;
use crate::text::concat;
use crate::text::decimal;
use crate::text::decimal_string;
use crate::text::substring;

verus! {

/// Returns `a` followed by `b` and `c`.
fn cat3(a: &str, b: &str, c: &str) -> (r: String)
    ensures
        r@ == a@ + b@ + c@,
{
    let r = concat(a, b);
    concat(r.as_str(), c)
}

/// Returns `a` followed by `b`, `c`, `d` and `e`.
fn cat5(a: &str, b: &str, c: &str, d: &str, e: &str) -> (r: String)
    ensures
        r@ == a@ + b@ + c@ + d@ + e@,
{
    let r = cat3(a, b, c);
    let r = concat(r.as_str(), d);
    concat(r.as_str(), e)
}

impl ParseDockConfigError {
    pub open spec fn spec_message(&self) -> Seq<char> {
        match self {
            ParseDockConfigError::ParseYamlFailed { message } => "Couldn't parse: "@ + message@,
            ParseDockConfigError::UnsupportedSchemaVersion =>
                "Only `schema_version` 0.1 is currently supported"@,
            ParseDockConfigError::MissingSchemaVersion => "Missing `schema_version` field"@,
            ParseDockConfigError::ParseSchemaFailed { message } =>
                "Parsed YAML didn't conform to schema: "@ + message@,
        }
    }

    /// The human-readable description of the error.
    pub fn message(&self) -> (m: String)
        ensures
            m@ == self.spec_message(),
    {
        match self {
            ParseDockConfigError::ParseYamlFailed { message } => concat(
                "Couldn't parse: ",
                message.as_str(),
            ),
            ParseDockConfigError::UnsupportedSchemaVersion => String::from_str(
                "Only `schema_version` 0.1 is currently supported",
            ),
            ParseDockConfigError::MissingSchemaVersion => String::from_str(
                "Missing `schema_version` field",
            ),
            ParseDockConfigError::ParseSchemaFailed { message } => concat(
                "Parsed YAML didn't conform to schema: ",
                message.as_str(),
            ),
        }
    }
}

impl FindAndParseDockConfigError {
    pub open spec fn spec_message(&self) -> Seq<char> {
        match self {
            FindAndParseDockConfigError::GetCurrentDirFailed { message } =>
                "Couldn't get the current directory: "@ + message@,
            FindAndParseDockConfigError::DockFileNotFound => "Couldn't find Dock file"@,
            FindAndParseDockConfigError::OpenDockFileFailed { message } => "Couldn't open: "@
                + message@,
            FindAndParseDockConfigError::ParseDockConfigFailed { source } => "Couldn't parse: "@
                + source.spec_message(),
            FindAndParseDockConfigError::DefaultShellEnvMissing { env } =>
                "`default_shell_env` '"@ + env@ + "' isn't defined"@,
            FindAndParseDockConfigError::DockDirAsAbsPathFailed { source, dock_dir } =>
                "Couldn't get path to current Dock directory ('"@ + dock_dir@
                    + "') as an absolute path: "@ + source.spec_message(),
            FindAndParseDockConfigError::InvalidEnvName { name, pos } => "Invalid character '"@
                + name@.subrange(*pos as int, *pos + 1) + "' at position "@ + decimal(
                *pos as nat,
            ) + " in environment name '"@ + name@
                + "' (environment names may only contain periods, underscores, ASCII digits, and lowercase ASCII letters)"@,
        }
    }

    /// The human-readable description of the error.
    pub fn message(&self) -> (m: String)
        requires
            self matches FindAndParseDockConfigError::InvalidEnvName { name, pos } ==> pos
                < name@.len(),
        ensures
            m@ == self.spec_message(),
    {
        match self {
            FindAndParseDockConfigError::GetCurrentDirFailed { message } => concat(
                "Couldn't get the current directory: ",
                message.as_str(),
            ),
            FindAndParseDockConfigError::DockFileNotFound => String::from_str(
                "Couldn't find Dock file",
            ),
            FindAndParseDockConfigError::OpenDockFileFailed { message } => concat(
                "Couldn't open: ",
                message.as_str(),
            ),
            FindAndParseDockConfigError::ParseDockConfigFailed { source } => {
                let s = source.message();
                concat("Couldn't parse: ", s.as_str())
            },
            FindAndParseDockConfigError::DefaultShellEnvMissing { env } => cat3(
                "`default_shell_env` '",
                env.as_str(),
                "' isn't defined",
            ),
            FindAndParseDockConfigError::DockDirAsAbsPathFailed { source, dock_dir } => {
                let s = source.message();
                cat3(
                    "Couldn't get path to current Dock directory ('",
                    dock_dir.as_str(),
                    "') as an absolute path: ",
                ).concat(s.as_str())
            },
            FindAndParseDockConfigError::InvalidEnvName { name, pos } => {
                let n = name.as_str().unicode_len();
                let c = substring(name.as_str(), *pos, *pos + 1);
                let p = decimal_string(*pos as u64);
                let m = cat5(
                    "Invalid character '",
                    c.as_str(),
                    "' at position ",
                    p.as_str(),
                    " in environment name '",
                );
                cat3(
                    m.as_str(),
                    name.as_str(),
                    "' (environment names may only contain periods, underscores, ASCII digits, and lowercase ASCII letters)",
                )
            },
        }
    }
}

impl NewDockerContextError {
    pub open spec fn spec_message(&self) -> Seq<char> {
        match self {
            NewDockerContextError::OpenDockerfileFailed { message, path } =>
                "Couldn't open the Dockerfile '"@ + display_spec(path_view(path@)) + "': "@
                    + message@,
        }
    }

    /// The human-readable description of the error.
    pub fn message(&self) -> (m: String)
        ensures
            m@ == self.spec_message(),
    {
        match self {
            NewDockerContextError::OpenDockerfileFailed { message, path } => {
                let p = abs_path_display_lossy(path.as_slice());
                cat3("Couldn't open the Dockerfile '", p.as_str(), "': ").concat(message.as_str())
            },
        }
    }
}

impl RebuildForRunInError {
    pub open spec fn spec_message(&self) -> Seq<char> {
        match self {
            RebuildForRunInError::NewDockerRebuildInputFailed { source } =>
                "Couldn't prepare input for `dock rebuild`: "@ + source.spec_message(),
            RebuildForRunInError::RebuildFailed { message, img } => "Couldn't rebuild '"@ + img@
                + "': "@ + message@,
            RebuildForRunInError::RebuildUnsuccessful { img } => "Rebuild of '"@ + img@
                + "' returned an unsuccessful status"@,
        }
    }

    /// The human-readable description of the error.
    pub fn message(&self) -> (m: String)
        ensures
            m@ == self.spec_message(),
    {
        match self {
            RebuildForRunInError::NewDockerRebuildInputFailed { source } => {
                let s = source.message();
                concat("Couldn't prepare input for `dock rebuild`: ", s.as_str())
            },
            RebuildForRunInError::RebuildFailed { message, img } => cat3(
                "Couldn't rebuild '",
                img.as_str(),
                "': ",
            ).concat(message.as_str()),
            RebuildForRunInError::RebuildUnsuccessful { img } => cat3(
                "Rebuild of '",
                img.as_str(),
                "' returned an unsuccessful status",
            ),
        }
    }
}

impl PrepareRunInCacheVolumesArgsError {
    pub open spec fn spec_message(&self) -> Seq<char> {
        match self {
            PrepareRunInCacheVolumesArgsError::CacheVolDirAsAbsPathFailed { source } =>
                "Couldn't convert the cache volume directory to an absolute path: "@
                    + source.spec_message(),
            PrepareRunInCacheVolumesArgsError::CheckCacheExistenceFailed { vol_name, message } =>
                "Couldn't check whether the cache volume '"@ + vol_name@ + "' exists: "@
                    + message@,
            PrepareRunInCacheVolumesArgsError::ChangeCacheOwnershipFailed { vol_name, message } =>
                "Couldn't set the ownership of the cache volume '"@ + vol_name@ + "': "@
                    + message@,
        }
    }

    /// The human-readable description of the error.
    pub fn message(&self) -> (m: String)
        ensures
            m@ == self.spec_message(),
    {
        match self {
            PrepareRunInCacheVolumesArgsError::CacheVolDirAsAbsPathFailed { source } => {
                let s = source.message();
                concat(
                    "Couldn't convert the cache volume directory to an absolute path: ",
                    s.as_str(),
                )
            },
            PrepareRunInCacheVolumesArgsError::CheckCacheExistenceFailed { vol_name, message } =>
                cat3(
                "Couldn't check whether the cache volume '",
                vol_name.as_str(),
                "' exists: ",
            ).concat(message.as_str()),
            PrepareRunInCacheVolumesArgsError::ChangeCacheOwnershipFailed { vol_name, message } =>
                cat3(
                "Couldn't set the ownership of the cache volume '",
                vol_name.as_str(),
                "': ",
            ).concat(message.as_str()),
        }
    }
}

impl PrepareRunInMountLocalArgsError {
    pub open spec fn spec_message(&self) -> Seq<char> {
        match self {
            PrepareRunInMountLocalArgsError::GetUserIdFailed { message } =>
                "Couldn't get user ID for the active user: "@ + message@,
            PrepareRunInMountLocalArgsError::GetGroupIdFailed { message } =>
                "Couldn't get group ID for the active user: "@ + message@,
            PrepareRunInMountLocalArgsError::GroupMountedWithoutUser =>
                "local `group` was mounted without `user`"@,
            PrepareRunInMountLocalArgsError::GetDockerSockMetadataFailed { message } =>
                "Couldn't get metadata for Docker socket: "@ + message@,
        }
    }

    /// The human-readable description of the error.
    pub fn message(&self) -> (m: String)
        ensures
            m@ == self.spec_message(),
    {
        match self {
            PrepareRunInMountLocalArgsError::GetUserIdFailed { message } => concat(
                "Couldn't get user ID for the active user: ",
                message.as_str(),
            ),
            PrepareRunInMountLocalArgsError::GetGroupIdFailed { message } => concat(
                "Couldn't get group ID for the active user: ",
                message.as_str(),
            ),
            PrepareRunInMountLocalArgsError::GroupMountedWithoutUser => String::from_str(
                "local `group` was mounted without `user`",
            ),
            PrepareRunInMountLocalArgsError::GetDockerSockMetadataFailed { message } => concat(
                "Couldn't get metadata for Docker socket: ",
                message.as_str(),
            ),
        }
    }
}

impl PrepareRunInMountArgsError {
    pub open spec fn spec_message(&self) -> Seq<char> {
        match self {
            PrepareRunInMountArgsError::NoPathRouteOnHost { attempted_path } =>
                "No route to the path '"@ + display_spec(path_view(attempted_path@))
                    + "' was found on the host"@,
        }
    }

    /// The human-readable description of the error.
    pub fn message(&self) -> (m: String)
        ensures
            m@ == self.spec_message(),
    {
        match self {
            PrepareRunInMountArgsError::NoPathRouteOnHost { attempted_path } => {
                let p = abs_path_display_lossy(attempted_path.as_slice());
                cat3("No route to the path '", p.as_str(), "' was found on the host")
            },
        }
    }
}

impl HostpathInsertError {
    pub open spec fn spec_message(&self) -> Seq<char> {
        match self {
            HostpathInsertError::EmptyInnerPath { outer_path } => "The path '"@ + display_spec(
                path_view(outer_path@),
            ) + "' maps to an empty path"@,
            HostpathInsertError::InnerPathAncestorHasMapping { outer_path, inner_path } =>
                "A host path maps to an ancestor of '"@ + display_spec(path_view(inner_path@))
                    + "' (which is mapped-to by '"@ + display_spec(path_view(outer_path@))
                    + "')"@,
            HostpathInsertError::InnerPathDescendentHasMapping { outer_path, inner_path } =>
                "A host path maps to a descendant of '"@ + display_spec(path_view(inner_path@))
                    + "' (which is mapped-to by '"@ + display_spec(path_view(outer_path@))
                    + "')"@,
        }
    }

    /// The human-readable description of the error.
    pub fn message(&self) -> (m: String)
        ensures
            m@ == self.spec_message(),
    {
        match self {
            HostpathInsertError::EmptyInnerPath { outer_path } => {
                let o = abs_path_display_lossy(outer_path.as_slice());
                cat3("The path '", o.as_str(), "' maps to an empty path")
            },
            HostpathInsertError::InnerPathAncestorHasMapping { outer_path, inner_path } => {
                let i = abs_path_display_lossy(inner_path.as_slice());
                let o = abs_path_display_lossy(outer_path.as_slice());
                cat5(
                    "A host path maps to an ancestor of '",
                    i.as_str(),
                    "' (which is mapped-to by '",
                    o.as_str(),
                    "')",
                )
            },
            HostpathInsertError::InnerPathDescendentHasMapping { outer_path, inner_path } => {
                let i = abs_path_display_lossy(inner_path.as_slice());
                let o = abs_path_display_lossy(outer_path.as_slice());
                cat5(
                    "A host path maps to a descendant of '",
                    i.as_str(),
                    "' (which is mapped-to by '",
                    o.as_str(),
                    "')",
                )
            },
        }
    }
}

impl HostpathFromPairsError {
    pub open spec fn spec_message(&self) -> Seq<char> {
        match self {
            HostpathFromPairsError::ParseOuterPathFailed { source, outer_path, inner_path } =>
                "Couldn't parse '"@ + inner_path@ + "' as an absolute path (mapped to '"@
                    + outer_path@ + "'): "@ + source.spec_message(),
            HostpathFromPairsError::ParseInnerPathFailed { source, outer_path, inner_path } =>
                "Couldn't parse '"@ + outer_path@ + "' as an absolute path (mapped from '"@
                    + inner_path@ + "'): "@ + source.spec_message(),
            HostpathFromPairsError::HostpathInsertFailed { source, outer_path, inner_path } =>
                "Couldn't add hostpath mapping '"@ + inner_path@ + "' to '"@ + outer_path@
                    + "' to hostpaths: "@ + source.spec_message(),
        }
    }

    /// The human-readable description of the error.
    pub fn message(&self) -> (m: String)
        ensures
            m@ == self.spec_message(),
    {
        match self {
            HostpathFromPairsError::ParseOuterPathFailed { source, outer_path, inner_path } => {
                let s = source.message();
                cat5(
                    "Couldn't parse '",
                    inner_path.as_str(),
                    "' as an absolute path (mapped to '",
                    outer_path.as_str(),
                    "'): ",
                ).concat(s.as_str())
            },
            HostpathFromPairsError::ParseInnerPathFailed { source, outer_path, inner_path } => {
                let s = source.message();
                cat5(
                    "Couldn't parse '",
                    outer_path.as_str(),
                    "' as an absolute path (mapped from '",
                    inner_path.as_str(),
                    "'): ",
                ).concat(s.as_str())
            },
            HostpathFromPairsError::HostpathInsertFailed { source, outer_path, inner_path } => {
                let s = source.message();
                cat5(
                    "Couldn't add hostpath mapping '",
                    inner_path.as_str(),
                    "' to '",
                    outer_path.as_str(),
                    "' to hostpaths: ",
                ).concat(s.as_str())
            },
        }
    }
}

impl HostpathsError {
    pub open spec fn spec_message(&self) -> Seq<char> {
        match self {
            HostpathsError::EnvVarIsNotUnicode { .. } =>
                "The value of '$DOCK_HOSTPATHS' isn't unicode"@,
            HostpathsError::UnmatchedHostpath { .. } =>
                "'$DOCK_HOSTPATHS' has an unmatched hostpath"@,
            HostpathsError::CreateHostpathsFailed { source } =>
                "Couldn't create hostpaths from '$DOCK_HOSTPATHS': "@ + source.spec_message(),
        }
    }

    /// The human-readable description of the error.
    pub fn message(&self) -> (m: String)
        ensures
            m@ == self.spec_message(),
    {
        match self {
            HostpathsError::EnvVarIsNotUnicode { .. } => String::from_str(
                "The value of '$DOCK_HOSTPATHS' isn't unicode",
            ),
            HostpathsError::UnmatchedHostpath { .. } => String::from_str(
                "'$DOCK_HOSTPATHS' has an unmatched hostpath",
            ),
            HostpathsError::CreateHostpathsFailed { source } => {
                let s = source.message();
                concat("Couldn't create hostpaths from '$DOCK_HOSTPATHS': ", s.as_str())
            },
        }
    }
}

impl PrepareRunInArgsError {
    pub open spec fn spec_message(&self) -> Seq<char> {
        match self {
            PrepareRunInArgsError::PrepareRunInCacheVolumesArgsFailed { source } =>
                "Couldn't prepare cache volume arguments for `docker run`: "@
                    + source.spec_message(),
            PrepareRunInArgsError::WorkdirNotSet =>
                "`workdir` is required when `project_dir` is mounted"@,
            PrepareRunInArgsError::PrepareRunInMountLocalArgsFailed { source } =>
                "Couldn't prepare \"local mount\" arguments for `docker run`: "@
                    + source.spec_message(),
            PrepareRunInArgsError::ParseConfigOuterPathFailed {
                source,
                rel_outer_path,
                inner_path,
            } => "Couldn't parse `mount` configuration for '"@ + source.spec_message() + "' -> '"@
                + rel_outer_path@ + "' mapping: "@ + inner_path@,
            PrepareRunInArgsError::GetHostpathsFailed { source } => "Couldn't get hostpaths: "@
                + source.spec_message(),
            PrepareRunInArgsError::PrepareRunInMountArgsFailed { source } =>
                "Couldn't prepare \"mount\" arguments for `docker run`: "@
                    + source.spec_message(),
        }
    }

    /// The human-readable description of the error.
    pub fn message(&self) -> (m: String)
        ensures
            m@ == self.spec_message(),
    {
        match self {
            PrepareRunInArgsError::PrepareRunInCacheVolumesArgsFailed { source } => {
                let s = source.message();
                concat("Couldn't prepare cache volume arguments for `docker run`: ", s.as_str())
            },
            PrepareRunInArgsError::WorkdirNotSet => String::from_str(
                "`workdir` is required when `project_dir` is mounted",
            ),
            PrepareRunInArgsError::PrepareRunInMountLocalArgsFailed { source } => {
                let s = source.message();
                concat(
                    "Couldn't prepare \"local mount\" arguments for `docker run`: ",
                    s.as_str(),
                )
            },
            PrepareRunInArgsError::ParseConfigOuterPathFailed {
                source,
                rel_outer_path,
                inner_path,
            } => {
                let s = source.message();
                cat5(
                    "Couldn't parse `mount` configuration for '",
                    s.as_str(),
                    "' -> '",
                    rel_outer_path.as_str(),
                    "' mapping: ",
                ).concat(inner_path.as_str())
            },
            PrepareRunInArgsError::GetHostpathsFailed { source } => {
                let s = source.message();
                concat("Couldn't get hostpaths: ", s.as_str())
            },
            PrepareRunInArgsError::PrepareRunInMountArgsFailed { source } => {
                let s = source.message();
                concat("Couldn't prepare \"mount\" arguments for `docker run`: ", s.as_str())
            },
        }
    }
}

impl RunInError {
    pub open spec fn spec_message(&self) -> Seq<char> {
        match self {
            RunInError::FindAndParseDockConfigFailed { source, dock_file_name } =>
                "Couldn't find and parse '"@ + dock_file_name@ + "': "@ + source.spec_message(),
            RunInError::EnvironmentNotFound { name } => "Dock environment '"@ + name@
                + "' isn't defined"@,
            RunInError::RelPathFromContextPathFailed { source } =>
                "Couldn't get path to the context directory as a relative path: "@
                    + source.spec_message(),
            RunInError::SpinFailed { message } => message@,
            RunInError::SpinnerRebuildForRunInFailed { source } => source.spec_message(),
            RunInError::RebuildForRunInFailed { source } => source.spec_message(),
            RunInError::PrepareRunInArgsFailed { source } =>
                "Couldn't prepare arguments for `docker run`: "@ + source.spec_message(),
            RunInError::ExecFailed { message } => "`exec` failed: "@ + message@,
        }
    }

    /// The human-readable description of the error.
    pub fn message(&self) -> (m: String)
        requires
            self matches RunInError::FindAndParseDockConfigFailed { source, .. } ==> (
            source matches FindAndParseDockConfigError::InvalidEnvName { name, pos } ==> pos
                < name@.len()),
        ensures
            m@ == self.spec_message(),
    {
        match self {
            RunInError::FindAndParseDockConfigFailed { source, dock_file_name } => {
                let s = source.message();
                cat3("Couldn't find and parse '", dock_file_name.as_str(), "': ").concat(
                    s.as_str(),
                )
            },
            RunInError::EnvironmentNotFound { name } => cat3(
                "Dock environment '",
                name.as_str(),
                "' isn't defined",
            ),
            RunInError::RelPathFromContextPathFailed { source } => {
                let s = source.message();
                concat(
                    "Couldn't get path to the context directory as a relative path: ",
                    s.as_str(),
                )
            },
            RunInError::SpinFailed { message } => message.clone(),
            RunInError::SpinnerRebuildForRunInFailed { source } => source.message(),
            RunInError::RebuildForRunInFailed { source } => source.message(),
            RunInError::PrepareRunInArgsFailed { source } => {
                let s = source.message();
                concat("Couldn't prepare arguments for `docker run`: ", s.as_str())
            },
            RunInError::ExecFailed { message } => concat("`exec` failed: ", message.as_str()),
        }
    }
}

impl CleanError {
    pub open spec fn spec_message(&self) -> Seq<char> {
        match self {
            CleanError::FindAndParseDockConfigFailed { source, dock_file_name } =>
                "Couldn't find and parse '"@ + dock_file_name@ + "': "@ + source.spec_message(),
            CleanError::RemoveVolumeFailed { message, name } => "Couldn't remove volume '"@
                + name@ + "': "@ + message@,
            CleanError::RemoveImageFailed { message, name } => "Couldn't remove image '"@ + name@
                + "': "@ + message@,
        }
    }

    /// The human-readable description of the error.
    pub fn message(&self) -> (m: String)
        requires
            self matches CleanError::FindAndParseDockConfigFailed { source, .. } ==> (
            source matches FindAndParseDockConfigError::InvalidEnvName { name, pos } ==> pos
                < name@.len()),
        ensures
            m@ == self.spec_message(),
    {
        match self {
            CleanError::FindAndParseDockConfigFailed { source, dock_file_name } => {
                let s = source.message();
                cat3("Couldn't find and parse '", dock_file_name.as_str(), "': ").concat(
                    s.as_str(),
                )
            },
            CleanError::RemoveVolumeFailed { message, name } => cat3(
                "Couldn't remove volume '",
                name.as_str(),
                "': ",
            ).concat(message.as_str()),
            CleanError::RemoveImageFailed { message, name } => cat3(
                "Couldn't remove image '",
                name.as_str(),
                "': ",
            ).concat(message.as_str()),
        }
    }
}

} // verus!
