//! Running commands in Dock environments: the configuration of the
//! environments, and the `docker` commands that build and run them.

use vstd::prelude::*;

use crate::canon_path::AbsPath;
use crate::canon_path::NewAbsPathError;
use crate::canon_path::NewRelPathError;
use crate::canon_path::RelPath;
use crate::canon_path::abs_path_concat;
use crate::canon_path::abs_path_display_lossy;
use crate::canon_path::abs_path_from_path_buf;
use crate::canon_path::abs_path_of_text;
use crate::canon_path::abs_path_spec;
use crate::canon_path::canonical_path;
use crate::canon_path::lemma_abs_path_round_trip;
use crate::canon_path::display_spec;
use crate::canon_path::parse_abs_path;
use crate::canon_path::path_components;
use crate::canon_path::path_result_view;
use crate::canon_path::path_view;
use crate::canon_path::rel_path_from_path_buf;
use crate::canon_path::rel_path_spec;
use crate::cmd_loggers::CapturingCmdLogger;
use crate::cmd_loggers::CmdLoggerMsg;
use crate::cmd_loggers::TimingPrefixingCmdLogger;
use crate::cmd_loggers::chunks_view;
use crate::option::OptionResultExt;
use crate::rebuild::DockerContext;
use crate::rebuild::str_texts;
use crate::rebuild::to_strings;
use crate::text::all_free_of;
use crate::text::chars_of;
use crate::text::concat;
use crate::text::decimal;
use crate::text::decimal_string;
use crate::text::join_with;
use crate::text::joined_with;
use crate::text::lemma_split_joined;
use crate::text::split_char;
use crate::text::split_on;
use crate::text::str_eq;
use crate::text::texts;
use crate::text::trim_end;
use crate::text::trimmed_end_len;
use crate::trie::InsertError;
use crate::trie::Trie;
use crate::trie::key_view;

verus! {

/// A Dock file: the project's environments.
pub struct DockConfig {
    pub schema_version: String,
    pub organisation: String,
    pub project: String,
    pub default_shell_env: String,
    /// The environments, with their names.
    pub environments: Vec<(String, DockEnvironmentConfig)>,
}

/// The definition of an environment.
pub struct DockEnvironmentConfig {
    pub context: Option<String>,
    pub workdir: Option<String>,
    pub build_args: Option<Vec<String>>,
    pub run_args: Option<Vec<String>>,
    pub env: Option<Vec<(String, String)>>,
    pub cache_volumes: Option<Vec<(String, String)>>,
    pub mounts: Option<Vec<(String, String)>>,
    pub mount_local: Option<Vec<DockEnvironmentMountLocalConfig>>,
    pub shell: Option<String>,
}

/// A local resource that an environment can mount.
#[derive(Debug, Clone, Copy, PartialEq, Eq, Structural)]
pub enum DockEnvironmentMountLocalConfig {
    User,
    Group,
    ProjectDir,
    Docker,
}

/// The name of the image of environment `env_name`: `org/proj.env_name`.
pub fn image_name(org: &str, proj: &str, env_name: &str) -> (name: String)
    ensures
        name@ == org@ + "/"@ + proj@ + "."@ + env_name@,
{
    let s = concat(org, "/");
    let s = concat(s.as_str(), proj);
    let s = concat(s.as_str(), ".");
    concat(s.as_str(), env_name)
}

/// The prefix of the names of the cache volumes of environment `env_name`:
/// `org.proj.env_name`.
pub fn cache_vol_name_prefix(org: &str, proj: &str, env_name: &str) -> (prefix: String)
    ensures
        prefix@ == org@ + "."@ + proj@ + "."@ + env_name@,
{
    let s = concat(org, ".");
    let s = concat(s.as_str(), proj);
    let s = concat(s.as_str(), ".");
    concat(s.as_str(), env_name)
}

/// The name of the cache volume `name`: `vol_name_prefix.cache.name`.
pub fn cache_vol_name(vol_name_prefix: &str, name: &str) -> (vol: String)
    ensures
        vol@ == vol_name_prefix@ + ".cache."@ + name@,
{
    let s = concat(vol_name_prefix, ".cache.");
    concat(s.as_str(), name)
}

/// The tagged image that `dock` runs for environment `env_name`:
/// `org/proj.env_name:latest`.
pub fn tagged_image_name(org: &str, proj: &str, env_name: &str) -> (name: String)
    ensures
        name@ == org@ + "/"@ + proj@ + "."@ + env_name@ + ":latest"@,
{
    let img = image_name(org, proj, env_name);
    concat(img.as_str(), ":latest")
}

/// The tag of `img` that keeps the previous image during a rebuild:
/// `img:cache_tag`.
pub fn cache_image_name(img: &str, cache_tag: &str) -> (name: String)
    ensures
        name@ == img@ + ":"@ + cache_tag@,
{
    let s = concat(img, ":");
    concat(s.as_str(), cache_tag)
}

pub open spec fn spec_is_env_name_char(c: char) -> bool {
    c == '.' || c == '_' || ('a' <= c <= 'z') || ('0' <= c <= '9')
}

/// Whether `c` may occur in an environment name: periods, underscores,
/// ASCII digits, and lowercase ASCII letters.
pub fn is_env_name_char(c: char) -> (r: bool)
    ensures
        r == spec_is_env_name_char(c),
{
    c == '.' || c == '_' || ('a' <= c && c <= 'z') || ('0' <= c && c <= '9')
}

/// The position of the first character of `name` that may not occur in an
/// environment name, if there is one.
pub fn invalid_env_name_position(name: &str) -> (r: Option<usize>)
    ensures
        match r {
            Some(pos) => pos < name@.len() && !spec_is_env_name_char(name@[pos as int]) && forall|
                j: int,
            |
                0 <= j < pos ==> spec_is_env_name_char(#[trigger] name@[j]),
            None => forall|j: int| 0 <= j < name@.len() ==> spec_is_env_name_char(#[trigger] name@[j]),
        },
{
    let cs = chars_of(name);
    let mut i: usize = 0;
    while i < cs.len()
        invariant
            cs@ == name@,
            i <= cs@.len(),
            forall|j: int| 0 <= j < i ==> spec_is_env_name_char(#[trigger] name@[j]),
        decreases cs@.len() - i,
    {
        if !is_env_name_char(cs[i]) {
            return Some(i);
        }
        i += 1;
    }
    None
}

/// The index of the first environment of `envs` named `name`, if any.
pub open spec fn env_index(envs: Seq<(String, DockEnvironmentConfig)>, name: Seq<char>) -> Option<
    int,
> {
    if exists|i: int| 0 <= i < envs.len() && #[trigger] envs[i].0@ == name {
        Some(
            choose|i: int|
                0 <= i < envs.len() && #[trigger] envs[i].0@ == name && forall|j: int|
                    0 <= j < i ==> #[trigger] envs[j].0@ != name,
        )
    } else {
        None
    }
}

/// Whether no two entries of `entries` have the same name, as no two keys
/// of a map are the same.
pub open spec fn names_distinct<T>(entries: Seq<(String, T)>) -> bool {
    forall|i: int, j: int|
        0 <= i < j < entries.len() ==> #[trigger] entries[i].0@ != #[trigger] entries[j].0@
}

impl DockEnvironmentConfig {
    /// The variables of `env` and the cache volumes are each named once.
    pub open spec fn keys_distinct(&self) -> bool {
        &&& self.env matches Some(e) ==> names_distinct(e@)
        &&& self.cache_volumes matches Some(c) ==> names_distinct(c@)
    }
}

impl DockConfig {
    /// The invariant of a Dock file, whose environments, variables and
    /// cache volumes are maps: each is named once.
    pub open spec fn keys_distinct(&self) -> bool {
        &&& names_distinct(self.environments@)
        &&& forall|i: int|
            0 <= i < self.environments@.len() ==> (#[trigger] self.environments@[i]).1.keys_distinct()
    }
}

/// Where environments are named once, the environment found for a name is
/// the one with that name.
pub proof fn lemma_env_index_unique(envs: Seq<(String, DockEnvironmentConfig)>, i: int)
    requires
        names_distinct(envs),
        0 <= i < envs.len(),
    ensures
        env_index(envs, envs[i].0@) == Some(i),
{
    let name = envs[i].0@;
    assert(0 <= i < envs.len() && envs[i].0@ == name);
    let k = choose|k: int|
        0 <= k < envs.len() && #[trigger] envs[k].0@ == name && forall|j: int|
            0 <= j < k ==> #[trigger] envs[j].0@ != name;
    if k < i {
        assert(envs[k].0@ != envs[i].0@);
    } else if k > i {
        assert(envs[i].0@ != name);
    }
}

/// Returns the index of the first environment of `envs` named `name`.
pub fn find_environment(envs: &Vec<(String, DockEnvironmentConfig)>, name: &str) -> (r: Option<
    usize,
>)
    ensures
        match r {
            Some(i) => i < envs@.len() && envs@[i as int].0@ == name@ && forall|j: int|
                0 <= j < i ==> #[trigger] envs@[j].0@ != name@,
            None => forall|j: int| 0 <= j < envs@.len() ==> #[trigger] envs@[j].0@ != name@,
        },
        r matches Some(i) ==> env_index(envs@, name@) == Some(i as int),
        r is None ==> env_index(envs@, name@) is None,
{
    let mut i: usize = 0;
    while i < envs.len()
        invariant
            i <= envs@.len(),
            forall|j: int| 0 <= j < i ==> #[trigger] envs@[j].0@ != name@,
        decreases envs@.len() - i,
    {
        if str_eq(envs[i].0.as_str(), name) {
            proof {
                let k = choose|k: int|
                    0 <= k < envs@.len() && #[trigger] envs@[k].0@ == name@ && forall|j: int|
                        0 <= j < k ==> #[trigger] envs@[j].0@ != name@;
                assert(0 <= i < envs@.len() && envs@[i as int].0@ == name@ && forall|j: int|
                    0 <= j < i ==> #[trigger] envs@[j].0@ != name@);
                if k < i {
                } else if k > i {
                    assert(envs@[i as int].0@ != name@);
                }
            }
            return Some(i);
        }
        i += 1;
    }
    None
}

/// The ways in which a Dock file can fail to be found, read or checked.
#[derive(Debug)]
pub enum FindAndParseDockConfigError {
    GetCurrentDirFailed { message: String },
    DockFileNotFound,
    OpenDockFileFailed { message: String },
    ParseDockConfigFailed { source: ParseDockConfigError },
    DefaultShellEnvMissing { env: String },
    DockDirAsAbsPathFailed { source: NewAbsPathError, dock_dir: String },
    InvalidEnvName { name: String, pos: usize },
}

/// The ways in which a Dock file can fail to parse.
#[derive(Debug)]
pub enum ParseDockConfigError {
    ParseYamlFailed { message: String },
    UnsupportedSchemaVersion,
    MissingSchemaVersion,
    ParseSchemaFailed { message: String },
}

/// What a YAML document holds under the top-level key `key`, as
/// `serde_yaml` parses it: the parser's message where `doc` isn't YAML;
/// otherwise nothing where the document has no such key, and else the
/// text of the value where the value is a string.
pub uninterp spec fn yaml_top_level_text(doc: Seq<u8>, key: Seq<char>) -> Result<
    Option<Option<Seq<char>>>,
    Seq<char>,
>;

/// The view of a looked-up YAML value.
pub open spec fn yaml_lookup_view(r: Result<Option<Option<String>>, String>) -> Result<
    Option<Option<Seq<char>>>,
    Seq<char>,
> {
    match r {
        Err(m) => Err(m@),
        Ok(None) => Ok(None),
        Ok(Some(None)) => Ok(Some(None)),
        Ok(Some(Some(t))) => Ok(Some(Some(t@))),
    }
}

/// Parses `doc` into a `serde_yaml::Value` with `serde_yaml::from_slice`
/// (the error by its message), and looks up `key` in it with `Value::get`,
/// then takes the text of what it finds with `Value::as_str`. The contract
/// claims only that the result, by its view, is `yaml_top_level_text` of
/// `doc` and `key`: a function of the bytes and the key alone. How YAML
/// parses is not stated.
#[verifier::external_body]
fn yaml_top_level_lookup(doc: &[u8], key: &str) -> (r: Result<Option<Option<String>>, String>)
    ensures
        yaml_lookup_view(r) == yaml_top_level_text(doc@, key@),
{
    let value: serde_yaml::Value = match serde_yaml::from_slice(doc) {
        Ok(v) => v,
        Err(e) => return Err(e.to_string()),
    };
    match value.get(key) {
        None => Ok(None),
        Some(v) => Ok(Some(v.as_str().map(String::from))),
    }
}

/// Whether `r` is the outcome of checking the `schema_version` of a Dock
/// file, given what the file holds under that key: only the text `0.1` is
/// supported.
pub open spec fn schema_checked(
    field: Result<Option<Option<Seq<char>>>, Seq<char>>,
    r: Result<(), ParseDockConfigError>,
) -> bool {
    match field {
        Err(m) => r matches Err(ParseDockConfigError::ParseYamlFailed { message }) && message@
            == m,
        Ok(None) => r matches Err(ParseDockConfigError::MissingSchemaVersion),
        Ok(Some(Some(v))) => if v == "0.1"@ {
            r is Ok
        } else {
            r matches Err(ParseDockConfigError::UnsupportedSchemaVersion)
        },
        Ok(Some(None)) => r matches Err(ParseDockConfigError::UnsupportedSchemaVersion),
    }
}

/// Checks the `schema_version` of a Dock file, given `field`, what the file
/// holds under that key.
pub fn check_schema_version(field: Result<Option<Option<String>>, String>) -> (r: Result<
    (),
    ParseDockConfigError,
>)
    ensures
        schema_checked(yaml_lookup_view(field), r),
{
    match field {
        Err(message) => Err(ParseDockConfigError::ParseYamlFailed { message }),
        Ok(None) => Err(ParseDockConfigError::MissingSchemaVersion),
        Ok(Some(None)) => Err(ParseDockConfigError::UnsupportedSchemaVersion),
        Ok(Some(Some(v))) => if str_eq(v.as_str(), "0.1") {
            Ok(())
        } else {
            Err(ParseDockConfigError::UnsupportedSchemaVersion)
        },
    }
}

/// Parses the Dock file `doc` as YAML and checks its `schema_version`.
pub fn parse_dock_config_header(doc: &[u8]) -> (r: Result<(), ParseDockConfigError>)
    ensures
        schema_checked(yaml_top_level_text(doc@, "schema_version"@), r),
{
    let field = yaml_top_level_lookup(doc, "schema_version");
    check_schema_version(field)
}

/// Whether some environment of `envs` has a name with a character that may
/// not occur in environment names.
pub open spec fn has_invalid_env_name(envs: Seq<(String, DockEnvironmentConfig)>) -> bool {
    exists|i: int, j: int|
        0 <= i < envs.len() && 0 <= j < envs[i].0@.len() && !spec_is_env_name_char(
            #[trigger] envs[i].0@[j],
        )
}

/// The characters of environment names, by their code points: `.` (46),
/// `_` (95), the ASCII digits (48 to 57) and the lowercase ASCII letters
/// (97 to 122), and no others.
pub proof fn lemma_env_name_chars(c: char)
    ensures
        spec_is_env_name_char(c) <==> (c as u32 == 46 || c as u32 == 95 || (48 <= c as u32
            && c as u32 <= 57) || (97 <= c as u32 && c as u32 <= 122)),
{
}

/// Environment names made only of lowercase ASCII letters, ASCII digits,
/// `.` and `_` are all valid: `check_dock_config` reports none of them.
pub proof fn lemma_lowercase_env_names_valid(envs: Seq<(String, DockEnvironmentConfig)>)
    requires
        forall|i: int, j: int|
            0 <= i < envs.len() && 0 <= j < envs[i].0@.len() ==> {
                let c = #[trigger] envs[i].0@[j];
                c == '.' || c == '_' || ('0' <= c && c <= '9') || ('a' <= c && c <= 'z')
            },
    ensures
        !has_invalid_env_name(envs),
{
    assert forall|i: int, j: int|
        0 <= i < envs.len() && 0 <= j < envs[i].0@.len() implies spec_is_env_name_char(
        #[trigger] envs[i].0@[j],
    ) by {
        lemma_env_name_chars(envs[i].0@[j]);
    }
}

/// An environment name with any other character (an uppercase letter, `-`,
/// a space, ...) is invalid.
pub proof fn lemma_other_env_name_char_invalid(
    envs: Seq<(String, DockEnvironmentConfig)>,
    i: int,
    j: int,
)
    requires
        0 <= i < envs.len(),
        0 <= j < envs[i].0@.len(),
        ({
            let c = envs[i].0@[j];
            !(c == '.' || c == '_' || ('0' <= c && c <= '9') || ('a' <= c && c <= 'z'))
        }),
    ensures
        has_invalid_env_name(envs),
{
    lemma_env_name_chars(envs[i].0@[j]);
    assert(!spec_is_env_name_char(envs[i].0@[j]));
}

/// Checks the environments of a parsed Dock file: the default shell
/// environment must be defined, and environment names may only hold the
/// characters that `is_env_name_char` accepts. The environment reported is
/// the first (in `conf.environments`) with an invalid name, at the first
/// invalid position.
pub fn check_dock_config(conf: &DockConfig) -> (r: Result<(), FindAndParseDockConfigError>)
    requires
        conf.keys_distinct(),
    ensures
        match r {
            Ok(()) => env_index(conf.environments@, conf.default_shell_env@) is Some
                && !has_invalid_env_name(conf.environments@),
            Err(FindAndParseDockConfigError::DefaultShellEnvMissing { env }) => env_index(
                conf.environments@,
                conf.default_shell_env@,
            ) is None && env@ == conf.default_shell_env@,
            Err(FindAndParseDockConfigError::InvalidEnvName { name, pos }) => {
                &&& env_index(conf.environments@, conf.default_shell_env@) is Some
                &&& exists|i: int|
                    {
                        &&& 0 <= i < conf.environments@.len()
                        &&& #[trigger] conf.environments@[i].0@ == name@
                        &&& pos < name@.len()
                        &&& !spec_is_env_name_char(name@[pos as int])
                        &&& forall|j: int| 0 <= j < pos ==> spec_is_env_name_char(#[trigger] name@[j])
                        &&& forall|k: int, j: int|
                            0 <= k < i && 0 <= j < conf.environments@[k].0@.len()
                                ==> spec_is_env_name_char(
                                #[trigger] conf.environments@[k].0@[j],
                            )
                    }
            },
            Err(_) => false,
        },
{
    if find_environment(&conf.environments, conf.default_shell_env.as_str()).is_none() {
        return Err(
            FindAndParseDockConfigError::DefaultShellEnvMissing {
                env: conf.default_shell_env.clone(),
            },
        );
    }
    let mut i: usize = 0;
    while i < conf.environments.len()
        invariant
            i <= conf.environments@.len(),
            env_index(conf.environments@, conf.default_shell_env@) is Some,
            forall|k: int, j: int|
                0 <= k < i && 0 <= j < conf.environments@[k].0@.len() ==> spec_is_env_name_char(
                    #[trigger] conf.environments@[k].0@[j],
                ),
        decreases conf.environments@.len() - i,
    {
        let name = &conf.environments[i].0;
        match invalid_env_name_position(name.as_str()) {
            Some(pos) => {
                let name = name.clone();
                proof {
                    assert(conf.environments@[i as int].0@ == name@);
                }
                return Err(
                    FindAndParseDockConfigError::InvalidEnvName { name, pos },
                );
            },
            None => {},
        }
        i += 1;
    }
    Ok(())
}

/// Returns a copy of `p`.
pub fn copy_path(p: &Vec<String>) -> (r: Vec<String>)
    ensures
        r@ == p@,
{
    let mut r: Vec<String> = Vec::new();
    let mut i: usize = 0;
    while i < p.len()
        invariant
            i <= p@.len(),
            r@ == p@.take(i as int),
        decreases p@.len() - i,
    {
        r.push(p[i].clone());
        proof {
            assert(p@.take(i + 1) =~= p@.take(i as int).push(p@[i as int]));
        }
        i += 1;
    }
    proof {
        assert(p@.take(i as int) =~= p@);
    }
    r
}

/// Returns the components of `p` from the `n`th on.
pub fn path_suffix(p: &Vec<String>, n: usize) -> (r: Vec<String>)
    requires
        n <= p@.len(),
    ensures
        r@ == p@.skip(n as int),
{
    let mut r: Vec<String> = Vec::new();
    let mut i: usize = n;
    while i < p.len()
        invariant
            n <= i <= p@.len(),
            r@ == p@.subrange(n as int, i as int),
        decreases p@.len() - i,
    {
        r.push(p[i].clone());
        proof {
            assert(p@.subrange(n as int, i + 1) =~= p@.subrange(n as int, i as int).push(
                p@[i as int],
            ));
        }
        i += 1;
    }
    proof {
        assert(p@.subrange(n as int, i as int) =~= p@.skip(n as int));
    }
    r
}

proof fn lemma_key_view_is_path_view(p: Seq<String>)
    ensures
        key_view(p) == path_view(p),
{
    assert(key_view(p) =~= path_view(p));
}

/// The shortest non-empty prefix of `kv` (by its length) that `m` maps, with
/// what `m` maps it to.
pub open spec fn mapped_prefix<T>(m: Map<Seq<Seq<char>>, T>, kv: Seq<Seq<char>>) -> Option<
    (nat, T),
> {
    if exists|j: int| 1 <= j <= kv.len() && #[trigger] m.dom().contains(kv.take(j)) {
        let j = choose|j: int| 1 <= j <= kv.len() && #[trigger] m.dom().contains(kv.take(j));
        Some((j as nat, m[kv.take(j)]))
    } else {
        None
    }
}

/// Whether a proper, non-empty prefix of `kv` is mapped by `m`.
pub open spec fn prefix_mapped<T>(m: Map<Seq<Seq<char>>, T>, kv: Seq<Seq<char>>) -> bool {
    exists|j: int| 1 <= j < kv.len() && #[trigger] m.dom().contains(kv.take(j))
}

/// Mappings from paths inside a container (inner paths) to the paths on the
/// host (outer paths) that are mounted at them.
pub struct Hostpaths {
    host_paths: Trie<String, AbsPath>,
}

/// The ways in which a mapping can fail to be added to `Hostpaths`.
#[derive(Debug)]
pub enum HostpathInsertError {
    EmptyInnerPath { outer_path: AbsPath },
    InnerPathAncestorHasMapping { outer_path: AbsPath, inner_path: AbsPath },
    InnerPathDescendentHasMapping { outer_path: AbsPath, inner_path: AbsPath },
}

impl Hostpaths {
    /// The mappings are held in a well-formed trie.
    #[verifier::type_invariant]
    pub closed spec fn wf(&self) -> bool {
        self.host_paths.wf()
    }

    /// Each mapped inner path, by its components, with the outer path that
    /// it maps to.
    pub closed spec fn mappings(&self) -> Map<Seq<Seq<char>>, Seq<Seq<char>>> {
        Map::new(
            |p: Seq<Seq<char>>| self.host_paths.values().dom().contains(p),
            |p: Seq<Seq<char>>| path_view(self.host_paths.values()[p]@),
        )
    }

    /// The inner paths that have mapped descendants.
    pub closed spec fn inner_dirs(&self) -> Set<Seq<Seq<char>>> {
        self.host_paths.dir_paths()
    }

    pub fn new() -> (hps: Hostpaths)
        ensures
            hps.wf(),
            hps.mappings() == Map::<Seq<Seq<char>>, Seq<Seq<char>>>::empty(),
            hps.inner_dirs() == Set::<Seq<Seq<char>>>::empty(),
    {
        let hps = Hostpaths { host_paths: Trie::new() };
        proof {
            assert(hps.mappings() =~= Map::<Seq<Seq<char>>, Seq<Seq<char>>>::empty());
        }
        hps
    }

    /// Maps `inner_path` to `outer_path`. This fails if `inner_path` is
    /// empty, if an ancestor of it is mapped, or if a descendant of it is
    /// mapped; on failure nothing changes.
    pub fn insert(&mut self, outer_path: AbsPath, inner_path: AbsPath) -> (r: Result<
        (),
        HostpathInsertError,
    >)
        ensures
            final(self).wf(),
            match r {
                Ok(()) => {
                    &&& inner_path@.len() > 0
                    &&& !prefix_mapped(old(self).mappings(), path_view(inner_path@))
                    &&& !old(self).inner_dirs().contains(path_view(inner_path@))
                    &&& final(self).mappings() == old(self).mappings().insert(
                        path_view(inner_path@),
                        path_view(outer_path@),
                    )
                    &&& final(self).inner_dirs() == old(self).inner_dirs() + Trie::<
                        String,
                        AbsPath,
                    >::proper_prefixes(path_view(inner_path@))
                },
                Err(HostpathInsertError::EmptyInnerPath { outer_path: o }) => {
                    &&& inner_path@.len() == 0
                    &&& o@ == outer_path@
                    &&& *final(self) == *old(self)
                },
                Err(HostpathInsertError::InnerPathAncestorHasMapping { outer_path: o, inner_path: i }) => {
                    &&& inner_path@.len() > 0
                    &&& prefix_mapped(old(self).mappings(), path_view(inner_path@))
                    &&& o@ == outer_path@
                    &&& i@ == inner_path@
                    &&& *final(self) == *old(self)
                },
                Err(
                    HostpathInsertError::InnerPathDescendentHasMapping { outer_path: o, inner_path: i },
                ) => {
                    &&& inner_path@.len() > 0
                    &&& !prefix_mapped(old(self).mappings(), path_view(inner_path@))
                    &&& old(self).inner_dirs().contains(path_view(inner_path@))
                    &&& o@ == outer_path@
                    &&& i@ == inner_path@
                    &&& *final(self) == *old(self)
                },
            },
    {
        proof {
            use_type_invariant(&*self);
            lemma_key_view_is_path_view(inner_path@);
        }
        let stored = copy_path(&outer_path);
        let mut t = Trie::new();
        std::mem::swap(&mut t, &mut self.host_paths);
        let result = t.insert(inner_path.as_slice(), stored);
        self.host_paths = t;
        match result {
            Ok(()) => {
                proof {
                    assert(self.mappings() =~= old(self).mappings().insert(
                        path_view(inner_path@),
                        path_view(outer_path@),
                    ));
                }
                Ok(())
            },
            Err(InsertError::EmptyKey) => Err(HostpathInsertError::EmptyInnerPath { outer_path }),
            Err(InsertError::PrefixContainsValue) => {
                proof {
                    let kv = path_view(inner_path@);
                    let j = choose|j: int|
                        1 <= j < kv.len() && #[trigger] old(self).host_paths.values().dom().contains(
                            kv.take(j),
                        );
                    assert(old(self).mappings().dom().contains(kv.take(j)));
                }
                Err(HostpathInsertError::InnerPathAncestorHasMapping { outer_path, inner_path })
            },
            Err(InsertError::DirAtKey) => {
                proof {
                    let kv = path_view(inner_path@);
                    if prefix_mapped(old(self).mappings(), kv) {
                        let j = choose|j: int|
                            1 <= j < kv.len() && #[trigger] old(self).mappings().dom().contains(
                                kv.take(j),
                            );
                        assert(old(self).host_paths.values().dom().contains(kv.take(j)));
                    }
                }
                Err(HostpathInsertError::InnerPathDescendentHasMapping { outer_path, inner_path })
            },
        }
    }

    /// Returns the host path of `path`: where the shortest mapped inner path
    /// that is a prefix of `path` maps, followed by the rest of `path`.
    pub fn lookup(&self, path: &AbsPath) -> (r: Option<AbsPath>)
        ensures
            match mapped_prefix(self.mappings(), path_view(path@)) {
                None => r is None,
                Some((n, outer)) => r matches Some(hp) && path_view(hp@) == outer + path_view(
                    path@,
                ).skip(n as int),
            },
    {
        proof {
            use_type_invariant(self);
            lemma_key_view_is_path_view(path@);
            let kv = path_view(path@);
            let m = self.mappings();
            let t = self.host_paths;
            assert(m.dom() =~= t.values().dom());
        }
        match self.host_paths.value_at_prefix(path.as_slice()) {
            None => None,
            Some((prefix, host_dir)) => {
                let rest = path_suffix(path, prefix.len());
                let host_path = abs_path_concat(host_dir.as_slice(), &rest);
                proof {
                    assert(path_view(rest@) =~= path_view(path@).skip(prefix@.len() as int));
                }
                Some(host_path)
            },
        }
    }

    /// Looking up after mapping: once `inner` maps to `outer`, any path
    /// below `inner` is found at the same place below `outer`.
    pub proof fn lemma_lookup_after_insert(
        before: &Hostpaths,
        after: &Hostpaths,
        outer: Seq<Seq<char>>,
        inner: Seq<Seq<char>>,
        rest: Seq<Seq<char>>,
    )
        requires
            after.wf(),
            inner.len() >= 1,
            after.mappings() == before.mappings().insert(inner, outer),
        ensures
            mapped_prefix(after.mappings(), inner + rest) == Some((inner.len(), outer)),
    {
        let t = after.host_paths;
        assert(t.values().dom() =~= before.mappings().dom().insert(inner)) by {
            assert forall|p| t.values().dom().contains(p) <==> after.mappings().dom().contains(p) by {}
        }
        assert(t.values().dom().contains(inner));
        assert forall|j: int|
            1 <= j < inner.len() implies !#[trigger] t.values().dom().contains(inner.take(j)) by {
            if t.values().dom().contains(inner.take(j)) {
                t.lemma_values_prefix_free(inner.take(j), inner);
            }
        }
        let kx = inner + rest;
        assert(kx.take(inner.len() as int) =~= inner);
        assert(after.mappings().dom().contains(kx.take(inner.len() as int)));
        assert forall|j: int|
            1 <= j <= kx.len() && #[trigger] after.mappings().dom().contains(kx.take(j)) implies j
            == inner.len() by {
            if j < inner.len() {
                assert(kx.take(j) =~= inner.take(j));
            } else if j > inner.len() {
                assert(kx.take(j).take(inner.len() as int) =~= inner);
                t.lemma_values_prefix_free(inner, kx.take(j));
            }
        }
    }
}

/// The errors of adding a (`outer_path`, `inner_path`) mapping, given as
/// text, to `Hostpaths`.
#[derive(Debug)]
pub enum HostpathFromPairsError {
    ParseOuterPathFailed { source: NewAbsPathError, outer_path: String, inner_path: String },
    ParseInnerPathFailed { source: NewAbsPathError, outer_path: String, inner_path: String },
    HostpathInsertFailed { source: HostpathInsertError, outer_path: String, inner_path: String },
}

/// The path that `r` holds, or the empty path.
pub open spec fn ok_path(r: Result<Seq<Seq<char>>, NewAbsPathError>) -> Seq<Seq<char>> {
    match r {
        Ok(p) => p,
        Err(_) => Seq::empty(),
    }
}

/// The absolute path that the text `s` denotes, if it denotes one.
pub open spec fn parsed_abs(s: Seq<char>) -> Result<Seq<Seq<char>>, NewAbsPathError> {
    abs_path_of_text(s)
}

/// The texts of `pairs`.
pub open spec fn pair_texts(pairs: Seq<(&str, &str)>) -> Seq<(Seq<char>, Seq<char>)> {
    pairs.map_values(|p: (&str, &str)| (p.0@, p.1@))
}

pub open spec fn outer_at(pairs: Seq<(Seq<char>, Seq<char>)>, j: int) -> Seq<Seq<char>> {
    ok_path(parsed_abs(pairs[j].0))
}

pub open spec fn inner_at(pairs: Seq<(Seq<char>, Seq<char>)>, j: int) -> Seq<Seq<char>> {
    ok_path(parsed_abs(pairs[j].1))
}

/// The mappings made by the first `n` pairs.
pub open spec fn pairs_mappings(pairs: Seq<(Seq<char>, Seq<char>)>, n: int) -> Map<
    Seq<Seq<char>>,
    Seq<Seq<char>>,
>
    decreases n,
{
    if n <= 0 {
        Map::empty()
    } else {
        pairs_mappings(pairs, n - 1).insert(inner_at(pairs, n - 1), outer_at(pairs, n - 1))
    }
}

/// The inner paths with mapped descendants after the first `n` pairs.
pub open spec fn pairs_dirs(pairs: Seq<(Seq<char>, Seq<char>)>, n: int) -> Set<Seq<Seq<char>>>
    decreases n,
{
    if n <= 0 {
        Set::empty()
    } else {
        pairs_dirs(pairs, n - 1) + Trie::<String, AbsPath>::proper_prefixes(inner_at(pairs, n - 1))
    }
}

/// Whether pair `j` can be added after the pairs before it.
pub open spec fn pair_ok(pairs: Seq<(Seq<char>, Seq<char>)>, j: int) -> bool {
    &&& parsed_abs(pairs[j].0) is Ok
    &&& parsed_abs(pairs[j].1) is Ok
    &&& inner_at(pairs, j).len() > 0
    &&& !prefix_mapped(pairs_mappings(pairs, j), inner_at(pairs, j))
    &&& !pairs_dirs(pairs, j).contains(inner_at(pairs, j))
}

/// Whether `e` is the error of adding pair `i`.
pub open spec fn pair_error(
    pairs: Seq<(Seq<char>, Seq<char>)>,
    i: int,
    e: HostpathFromPairsError,
) -> bool {
    let (outer, inner) = pairs[i];
    match e {
        HostpathFromPairsError::ParseOuterPathFailed { source, outer_path, inner_path } => {
            &&& parsed_abs(outer) == Err::<Seq<Seq<char>>, _>(source)
            &&& outer_path@ == outer
            &&& inner_path@ == inner
        },
        HostpathFromPairsError::ParseInnerPathFailed { source, outer_path, inner_path } => {
            &&& parsed_abs(outer) is Ok
            &&& parsed_abs(inner) == Err::<Seq<Seq<char>>, _>(source)
            &&& outer_path@ == outer
            &&& inner_path@ == inner
        },
        HostpathFromPairsError::HostpathInsertFailed { source, outer_path, inner_path } => {
            &&& parsed_abs(outer) is Ok
            &&& parsed_abs(inner) is Ok
            &&& outer_path@ == outer
            &&& inner_path@ == inner
            &&& match source {
                HostpathInsertError::EmptyInnerPath { outer_path: o } => {
                    &&& inner_at(pairs, i).len() == 0
                    &&& path_view(o@) == outer_at(pairs, i)
                },
                HostpathInsertError::InnerPathAncestorHasMapping { outer_path: o, inner_path: n } => {
                    &&& inner_at(pairs, i).len() > 0
                    &&& prefix_mapped(pairs_mappings(pairs, i), inner_at(pairs, i))
                    &&& path_view(o@) == outer_at(pairs, i)
                    &&& path_view(n@) == inner_at(pairs, i)
                },
                HostpathInsertError::InnerPathDescendentHasMapping { outer_path: o, inner_path: n } => {
                    &&& inner_at(pairs, i).len() > 0
                    &&& !prefix_mapped(pairs_mappings(pairs, i), inner_at(pairs, i))
                    &&& pairs_dirs(pairs, i).contains(inner_at(pairs, i))
                    &&& path_view(o@) == outer_at(pairs, i)
                    &&& path_view(n@) == inner_at(pairs, i)
                },
            }
        },
    }
}

/// Whether the pairs `pairs` all add, in order, into the mappings `hps`.
pub open spec fn pairs_added(pairs: Seq<(Seq<char>, Seq<char>)>, hps: Hostpaths) -> bool {
    &&& hps.wf()
    &&& forall|j: int| 0 <= j < pairs.len() ==> #[trigger] pair_ok(pairs, j)
    &&& hps.mappings() == pairs_mappings(pairs, pairs.len() as int)
    &&& hps.inner_dirs() == pairs_dirs(pairs, pairs.len() as int)
}

/// Whether `e` is the error of adding the first pair of `pairs` that can't
/// be added after the ones before it.
pub open spec fn pairs_failed(pairs: Seq<(Seq<char>, Seq<char>)>, e: HostpathFromPairsError) -> bool {
    exists|i: int|
        {
            &&& 0 <= i < pairs.len()
            &&& forall|j: int| 0 <= j < i ==> #[trigger] pair_ok(pairs, j)
            &&& !pair_ok(pairs, i)
            &&& #[trigger] pair_error(pairs, i, e)
        }
}

/// Builds the mappings of `pairs`, each an (outer path, inner path) pair of
/// absolute paths given as text, adding them in order.
pub fn hostpaths_from_pairs(pairs: &Vec<(&str, &str)>) -> (r: Result<
    Hostpaths,
    HostpathFromPairsError,
>)
    ensures
        match r {
            Ok(hps) => pairs_added(pair_texts(pairs@), hps),
            Err(e) => pairs_failed(pair_texts(pairs@), e),
        },
{
    let ghost tp = pair_texts(pairs@);
    let mut hps = Hostpaths::new();
    let mut i: usize = 0;
    proof {
        assert(hps.mappings() == pairs_mappings(tp, 0));
        assert(hps.inner_dirs() == pairs_dirs(tp, 0));
    }
    while i < pairs.len()
        invariant
            i <= pairs@.len(),
            tp == pair_texts(pairs@),
            hps.wf(),
            forall|j: int| 0 <= j < i ==> #[trigger] pair_ok(tp, j),
            hps.mappings() == pairs_mappings(tp, i as int),
            hps.inner_dirs() == pairs_dirs(tp, i as int),
        decreases pairs@.len() - i,
    {
        let (outer_path, inner_path) = pairs[i];
        proof {
            assert(tp[i as int] == (outer_path@, inner_path@));
        }
        let abs_outer_path = match parse_abs_path(outer_path) {
            Ok(p) => p,
            Err(source) => {
                let e = HostpathFromPairsError::ParseOuterPathFailed {
                    source,
                    outer_path: String::from_str(outer_path),
                    inner_path: String::from_str(inner_path),
                };
                proof {
                    assert(pair_error(tp, i as int, e));
                }
                return Err(e);
            },
        };
        let abs_inner_path = match parse_abs_path(inner_path) {
            Ok(p) => p,
            Err(source) => {
                let e = HostpathFromPairsError::ParseInnerPathFailed {
                    source,
                    outer_path: String::from_str(outer_path),
                    inner_path: String::from_str(inner_path),
                };
                proof {
                    assert(pair_error(tp, i as int, e));
                }
                return Err(e);
            },
        };
        proof {
            assert(path_view(abs_outer_path@) == outer_at(tp, i as int));
            assert(path_view(abs_inner_path@) == inner_at(tp, i as int));
        }
        match hps.insert(abs_outer_path, abs_inner_path) {
            Ok(()) => {},
            Err(source) => {
                let e = HostpathFromPairsError::HostpathInsertFailed {
                    source,
                    outer_path: String::from_str(outer_path),
                    inner_path: String::from_str(inner_path),
                };
                proof {
                    assert(pair_error(tp, i as int, e));
                }
                return Err(e);
            },
        }
        proof {
            assert(pair_ok(tp, i as int));
        }
        i += 1;
    }
    Ok(hps)
}

/// Splits `xs` into consecutive pairs, if it has an even length.
pub fn pairs<T: Copy>(xs: &[T]) -> (r: Option<Vec<(T, T)>>)
    ensures
        match r {
            None => xs@.len() % 2 == 1,
            Some(ps) => {
                &&& xs@.len() % 2 == 0
                &&& ps@.len() * 2 == xs@.len()
                &&& forall|i: int|
                    0 <= i < ps@.len() ==> #[trigger] ps@[i] == (xs@[2 * i], xs@[2 * i + 1])
            },
        },
{
    if xs.len() % 2 == 1 {
        return None;
    }
    let mut ps: Vec<(T, T)> = Vec::new();
    let mut i: usize = 0;
    while i < xs.len() / 2
        invariant
            xs@.len() % 2 == 0,
            i <= xs@.len() / 2,
            ps@.len() == i,
            forall|k: int| 0 <= k < i ==> #[trigger] ps@[k] == (xs@[2 * k], xs@[2 * k + 1]),
        decreases xs@.len() / 2 - i,
    {
        ps.push((xs[2 * i], xs[2 * i + 1]));
        i += 1;
    }
    Some(ps)
}


/// The pieces of `xs` taken two by two.
pub open spec fn even_pairs(xs: Seq<Seq<char>>) -> Seq<(Seq<char>, Seq<char>)> {
    Seq::new(xs.len() / 2, |i: int| (xs[2 * i], xs[2 * i + 1]))
}

/// The ways in which `$DOCK_HOSTPATHS` can fail to give hostpaths.
#[derive(Debug)]
pub enum HostpathsError {
    /// The variable's value, as raw bytes, isn't Unicode.
    EnvVarIsNotUnicode { value: Vec<u8> },
    UnmatchedHostpath { hostpaths: Vec<String> },
    CreateHostpathsFailed { source: HostpathFromPairsError },
}

/// Parses hostpaths from `raw`, a `:`-separated list that alternates outer
/// paths and the inner paths that they are mounted at.
pub fn parse_hostpaths(raw: &str) -> (r: Result<Hostpaths, HostpathsError>)
    ensures
        match r {
            Ok(hps) => {
                &&& split_on(raw@, ':').len() % 2 == 0
                &&& pairs_added(even_pairs(split_on(raw@, ':')), hps)
            },
            Err(HostpathsError::UnmatchedHostpath { hostpaths }) => {
                &&& split_on(raw@, ':').len() % 2 == 1
                &&& texts(hostpaths@) == split_on(raw@, ':')
            },
            Err(HostpathsError::CreateHostpathsFailed { source }) => {
                &&& split_on(raw@, ':').len() % 2 == 0
                &&& pairs_failed(even_pairs(split_on(raw@, ':')), source)
            },
            Err(HostpathsError::EnvVarIsNotUnicode { .. }) => false,
        },
{
    let parts = split_char(raw, ':');
    let mut refs: Vec<&str> = Vec::new();
    let mut i: usize = 0;
    while i < parts.len()
        invariant
            i <= parts@.len(),
            refs@.len() == i,
            forall|k: int| 0 <= k < i ==> #[trigger] refs@[k]@ == parts@[k]@,
        decreases parts@.len() - i,
    {
        refs.push(parts[i].as_str());
        i += 1;
    }
    match pairs(refs.as_slice()) {
        None => Err(HostpathsError::UnmatchedHostpath { hostpaths: parts }),
        Some(ps) => {
            proof {
                let tp = pair_texts(ps@);
                let ep = even_pairs(split_on(raw@, ':'));
                assert forall|k: int| 0 <= k < tp.len() implies #[trigger] tp[k] == ep[k] by {
                    assert(ps@[k] == (refs@[2 * k], refs@[2 * k + 1]));
                    assert(refs@[2 * k]@ == parts@[2 * k]@);
                    assert(refs@[2 * k + 1]@ == parts@[2 * k + 1]@);
                }
                assert(tp =~= ep);
            }
            match hostpaths_from_pairs(&ps) {
                Ok(hps) => Ok(hps),
                Err(source) => Err(HostpathsError::CreateHostpathsFailed { source }),
            }
        },
    }
}

/// Whether the text `raw` of `$DOCK_HOSTPATHS` gives hostpaths: it splits
/// into an even number of pieces, and each (outer, inner) pair of them adds
/// after the pairs before it.
pub open spec fn text_hostpaths_ok(raw: Seq<char>) -> bool {
    let ep = even_pairs(split_on(raw, ':'));
    &&& split_on(raw, ':').len() % 2 == 0
    &&& forall|j: int| 0 <= j < ep.len() ==> #[trigger] pair_ok(ep, j)
}

/// The mappings that the text `raw` of `$DOCK_HOSTPATHS` gives, where it
/// gives any.
pub open spec fn text_mappings(raw: Seq<char>) -> Map<Seq<Seq<char>>, Seq<Seq<char>>> {
    let ep = even_pairs(split_on(raw, ':'));
    pairs_mappings(ep, ep.len() as int)
}

/// The name of the environment variable that passes hostpaths to nested
/// runs of `dock`.
pub const DOCK_HOSTPATHS_VAR_NAME: &'static str = "DOCK_HOSTPATHS";

/// What a lookup of `$DOCK_HOSTPATHS` found.
pub enum EnvVarValue {
    NotPresent,
    /// The value, as raw bytes, isn't Unicode.
    NotUnicode(Vec<u8>),
    Present(String),
}

/// The hostpaths that the looked-up value of `$DOCK_HOSTPATHS` gives: none
/// where the variable isn't set.
pub fn hostpaths(var: EnvVarValue) -> (r: Result<Option<Hostpaths>, HostpathsError>)
    ensures
        r is Ok <==> var_ok(var),
        r matches Ok(Some(h)) ==> var_mappings(var) == Some(h.mappings()),
        match var {
            EnvVarValue::NotPresent => r matches Ok(None),
            EnvVarValue::NotUnicode(value) => r matches Err(
                HostpathsError::EnvVarIsNotUnicode { value: v },
            ) && v@ == value@,
            EnvVarValue::Present(raw) => match r {
                Ok(Some(hps)) => {
                    &&& split_on(raw@, ':').len() % 2 == 0
                    &&& pairs_added(even_pairs(split_on(raw@, ':')), hps)
                },
                Err(HostpathsError::UnmatchedHostpath { hostpaths }) => {
                    &&& split_on(raw@, ':').len() % 2 == 1
                    &&& texts(hostpaths@) == split_on(raw@, ':')
                },
                Err(HostpathsError::CreateHostpathsFailed { source }) => {
                    &&& split_on(raw@, ':').len() % 2 == 0
                    &&& pairs_failed(even_pairs(split_on(raw@, ':')), source)
                },
                _ => false,
            },
        },
{
    match var {
        EnvVarValue::NotPresent => Ok(None),
        EnvVarValue::NotUnicode(value) => Err(HostpathsError::EnvVarIsNotUnicode { value }),
        EnvVarValue::Present(raw) => match parse_hostpaths(raw.as_str()) {
            Ok(hps) => Ok(Some(hps)),
            Err(e) => Err(e),
        },
    }
}

/// Where `p` lies on the host under the mappings `m`: where the mapped
/// prefix of `p` maps, followed by the rest of `p`.
pub open spec fn host_route(m: Map<Seq<Seq<char>>, Seq<Seq<char>>>, p: Seq<Seq<char>>) -> Option<
    Seq<Seq<char>>,
> {
    match mapped_prefix(m, p) {
        None => None,
        Some((n, outer)) => Some(outer + p.skip(n as int)),
    }
}

/// The mappings that an optional `Hostpaths` holds.
pub open spec fn opt_mappings(h: Option<&Hostpaths>) -> Option<Map<Seq<Seq<char>>, Seq<Seq<char>>>> {
    match h {
        None => None,
        Some(hps) => Some(hps.mappings()),
    }
}

/// Where `p` lies on the host: `p` itself where there are no hostpaths.
pub open spec fn route(m: Option<Map<Seq<Seq<char>>, Seq<Seq<char>>>>, p: Seq<Seq<char>>) -> Option<
    Seq<Seq<char>>,
> {
    match m {
        None => Some(p),
        Some(mappings) => host_route(mappings, p),
    }
}

/// The view of an optional path.
pub open spec fn opt_path_view(r: Option<AbsPath>) -> Option<Seq<Seq<char>>> {
    match r {
        None => None,
        Some(p) => Some(path_view(p@)),
    }
}

/// Returns where `path` lies on the host, if it has a route there.
pub fn apply_hostpath(maybe_hostpaths: Option<&Hostpaths>, path: &AbsPath) -> (r: Option<AbsPath>)
    ensures
        opt_path_view(r) == route(opt_mappings(maybe_hostpaths), path_view(path@)),
{
    match maybe_hostpaths {
        Some(hps) => hps.lookup(path),
        None => Some(copy_path(path)),
    }
}

/// The ways in which the mount arguments for `docker run` can fail.
#[derive(Debug)]
pub enum PrepareRunInMountArgsError {
    NoPathRouteOnHost { attempted_path: AbsPath },
}

/// The outer path of mount `i`: its path under the Dock directory.
pub open spec fn mount_outer(
    dock_dir: Seq<Seq<char>>,
    mounts: Seq<(RelPath, String)>,
    i: int,
) -> Seq<Seq<char>> {
    dock_dir + path_view(mounts[i].0@)
}

/// The argument that bind-mounts `host` at `inner`.
pub open spec fn bind_mount_arg(host: Seq<char>, inner: Seq<char>) -> Seq<char> {
    "--mount=type=bind,src="@ + host + ",dst="@ + inner
}

/// The argument that passes the rendered hostpaths on to the container.
pub open spec fn hostpaths_env_arg(rendered: Seq<char>) -> Seq<char> {
    "--env="@ + DOCK_HOSTPATHS_VAR_NAME@ + "="@ + rendered
}

/// The host paths and inner paths, alternating.
pub open spec fn mount_pieces(hosts: Seq<Seq<char>>, inners: Seq<Seq<char>>) -> Seq<Seq<char>> {
    Seq::new(
        2 * hosts.len(),
        |k: int|
            if k % 2 == 0 {
                hosts[k / 2]
            } else {
                inners[k / 2]
            },
    )
}

/// The arguments that mount `hosts[i]` at `inners[i]` for each `i`, and
/// pass the mappings on in `$DOCK_HOSTPATHS`.
pub open spec fn mount_args_spec(hosts: Seq<Seq<char>>, inners: Seq<Seq<char>>) -> Seq<Seq<char>> {
    Seq::new(hosts.len(), |i: int| bind_mount_arg(hosts[i], inners[i])).push(
        hostpaths_env_arg(joined_with(mount_pieces(hosts, inners), ':')),
    )
}

/// The rendered host paths of `mounts`, where each has a route.
pub open spec fn mount_hosts(
    h: Option<Map<Seq<Seq<char>>, Seq<Seq<char>>>>,
    dock_dir: Seq<Seq<char>>,
    mounts: Seq<(RelPath, String)>,
) -> Seq<Seq<char>> {
    Seq::new(
        mounts.len(),
        |i: int|
            match route(h, mount_outer(dock_dir, mounts, i)) {
                Some(p) => display_spec(p),
                None => Seq::empty(),
            },
    )
}

/// The inner paths of `mounts`.
pub open spec fn mount_inners(mounts: Seq<(RelPath, String)>) -> Seq<Seq<char>> {
    Seq::new(mounts.len(), |i: int| mounts[i].1@)
}

/// Whether `args` are the mount arguments of `mounts` under `dock_dir`:
/// each outer path has a route to the host through `m`.
pub open spec fn mount_args_made(
    m: Option<Map<Seq<Seq<char>>, Seq<Seq<char>>>>,
    dock_dir: Seq<Seq<char>>,
    mounts: Seq<(RelPath, String)>,
    args: Seq<Seq<char>>,
) -> bool {
    &&& forall|i: int|
        0 <= i < mounts.len() ==> #[trigger] route(m, mount_outer(dock_dir, mounts, i)) is Some
    &&& args == mount_args_spec(mount_hosts(m, dock_dir, mounts), mount_inners(mounts))
}

/// Whether `e` reports the first mount of `mounts` whose outer path has no
/// route to the host through `m`.
pub open spec fn mount_args_failed(
    m: Option<Map<Seq<Seq<char>>, Seq<Seq<char>>>>,
    dock_dir: Seq<Seq<char>>,
    mounts: Seq<(RelPath, String)>,
    e: PrepareRunInMountArgsError,
) -> bool {
    match e {
        PrepareRunInMountArgsError::NoPathRouteOnHost { attempted_path } => exists|i: int|
            {
                &&& 0 <= i < mounts.len()
                &&& forall|j: int|
                    0 <= j < i ==> #[trigger] route(m, mount_outer(dock_dir, mounts, j)) is Some
                &&& #[trigger] route(m, mount_outer(dock_dir, mounts, i)) is None
                &&& path_view(attempted_path@) == mount_outer(dock_dir, mounts, i)
            },
    }
}

/// Returns the arguments that bind-mount each `(outer, inner)` of `mounts`,
/// with `outer` under `dock_dir` and routed to the host through
/// `cur_hostpaths`, and that pass the new mappings on in
/// `$DOCK_HOSTPATHS`. Fails on the first mount whose outer path has no
/// route to the host.
pub fn prepare_run_mount_args(
    dock_dir: &AbsPath,
    mounts: &Vec<(RelPath, String)>,
    cur_hostpaths: Option<&Hostpaths>,
) -> (r: Result<Vec<String>, PrepareRunInMountArgsError>)
    ensures
        match r {
            Ok(args) => mount_args_made(
                opt_mappings(cur_hostpaths),
                path_view(dock_dir@),
                mounts@,
                texts(args@),
            ),
            Err(e) => mount_args_failed(opt_mappings(cur_hostpaths), path_view(dock_dir@), mounts@, e),
        },
{
    let ghost dv = path_view(dock_dir@);
    let ghost m = opt_mappings(cur_hostpaths);
    let ghost hosts = mount_hosts(m, dv, mounts@);
    let ghost inners = mount_inners(mounts@);
    let mut pieces: Vec<String> = Vec::new();
    let mut args: Vec<String> = Vec::new();
    let mut i: usize = 0;
    while i < mounts.len()
        invariant
            dv == path_view(dock_dir@),
            m == opt_mappings(cur_hostpaths),
            hosts == mount_hosts(m, dv, mounts@),
            inners == mount_inners(mounts@),
            i <= mounts@.len(),
            forall|j: int|
                0 <= j < i ==> #[trigger] route(m, mount_outer(dv, mounts@, j)) is Some,
            texts(args@) == Seq::new(i as nat, |k: int| bind_mount_arg(hosts[k], inners[k])),
            texts(pieces@) == mount_pieces(hosts.take(i as int), inners.take(i as int)),
        decreases mounts@.len() - i,
    {
        let path = abs_path_concat(dock_dir.as_slice(), &mounts[i].0);
        let host = match apply_hostpath(cur_hostpaths, &path) {
            Some(h) => h,
            None => {
                proof {
                    assert(mount_outer(dv, mounts@, i as int) == path_view(path@));
                }
                return Err(PrepareRunInMountArgsError::NoPathRouteOnHost { attempted_path: path });
            },
        };
        proof {
            assert(mount_outer(dv, mounts@, i as int) == path_view(path@));
        }
        let host_arg = abs_path_display_lossy(host.as_slice());
        let inner_arg = mounts[i].1.clone();
        proof {
            assert(host_arg@ == hosts[i as int]);
            assert(inner_arg@ == inners[i as int]);
        }
        let a = concat("--mount=type=bind,src=", host_arg.as_str());
        let a = concat(a.as_str(), ",dst=");
        let a = concat(a.as_str(), inner_arg.as_str());
        let ghost old_args = args@;
        let ghost old_pieces = pieces@;
        let ghost av = a@;
        args.push(a);
        pieces.push(host_arg);
        pieces.push(inner_arg);
        proof {
            assert(av == bind_mount_arg(hosts[i as int], inners[i as int]));
            assert(texts(args@) =~= texts(old_args).push(av));
            assert(texts(args@) =~= Seq::new(
                (i + 1) as nat,
                |k: int| bind_mount_arg(hosts[k], inners[k]),
            ));
            assert(texts(pieces@) =~= texts(old_pieces).push(hosts[i as int]).push(
                inners[i as int],
            ));
            let mp = mount_pieces(hosts.take(i + 1), inners.take(i + 1));
            let mp0 = mount_pieces(hosts.take(i as int), inners.take(i as int));
            assert forall|k: int| 0 <= k < mp.len() implies #[trigger] texts(pieces@)[k] == mp[k] by {
                if k < 2 * i {
                    assert(texts(pieces@)[k] == texts(old_pieces)[k]);
                    assert(mp0[k] == mp[k]);
                }
            }
            assert(texts(pieces@) =~= mp);
        }
        i += 1;
    }
    proof {
        reveal_strlit(":");
    }
    let rendered = join_with(&pieces, ":");
    proof {
        assert(hosts.take(i as int) =~= hosts);
        assert(inners.take(i as int) =~= inners);
    }
    let e = concat("--env=", DOCK_HOSTPATHS_VAR_NAME);
    let e = concat(e.as_str(), "=");
    let e = concat(e.as_str(), rendered.as_str());
    let ghost old_args = args@;
    args.push(e);
    proof {
        assert(texts(args@) =~= texts(old_args).push(e@));
        assert(Seq::new(i as nat, |k: int| bind_mount_arg(hosts[k], inners[k])) =~= Seq::new(
            hosts.len(),
            |k: int| bind_mount_arg(hosts[k], inners[k]),
        ));
    }
    Ok(args)
}

/// The rendering of `$DOCK_HOSTPATHS` parses back: where no host path or
/// inner path holds `:`, splitting the rendering and pairing the pieces
/// gives back each host path with its inner path.
pub proof fn lemma_rendered_hostpaths_parse_back(hosts: Seq<Seq<char>>, inners: Seq<Seq<char>>)
    requires
        hosts.len() == inners.len(),
        hosts.len() >= 1,
        all_free_of(hosts, ':'),
        all_free_of(inners, ':'),
    ensures
        split_on(joined_with(mount_pieces(hosts, inners), ':'), ':').len() == 2 * hosts.len(),
        even_pairs(split_on(joined_with(mount_pieces(hosts, inners), ':'), ':')) == Seq::new(
            hosts.len(),
            |i: int| (hosts[i], inners[i]),
        ),
{
    let ps = mount_pieces(hosts, inners);
    assert forall|i: int, j: int| 0 <= i < ps.len() && 0 <= j < ps[i].len() implies #[trigger] ps[i][j]
        != ':' by {
        if i % 2 == 0 {
            assert(hosts[i / 2][j] != ':');
        } else {
            assert(inners[i / 2][j] != ':');
        }
    }
    lemma_split_joined(ps, ':');
    assert(even_pairs(ps) =~= Seq::new(hosts.len(), |i: int| (hosts[i], inners[i])));
}

/// The mappings of the first `n` pairs, where their inner paths are
/// distinct: each inner path maps to its outer path, and nothing else is
/// mapped.
proof fn lemma_pairs_mappings(pairs: Seq<(Seq<char>, Seq<char>)>, n: int)
    requires
        0 <= n,
        forall|i: int, j: int| 0 <= i < j < n ==> inner_at(pairs, i) != inner_at(pairs, j),
    ensures
        forall|p: Seq<Seq<char>>| #[trigger]
            pairs_mappings(pairs, n).dom().contains(p) <==> exists|j: int|
                0 <= j < n && p == #[trigger] inner_at(pairs, j),
        forall|j: int|
            0 <= j < n ==> #[trigger] pairs_mappings(pairs, n)[inner_at(pairs, j)] == outer_at(
                pairs,
                j,
            ),
    decreases n,
{
    let m = pairs_mappings(pairs, n);
    if n > 0 {
        lemma_pairs_mappings(pairs, n - 1);
        let m0 = pairs_mappings(pairs, n - 1);
        assert(m == m0.insert(inner_at(pairs, n - 1), outer_at(pairs, n - 1)));
        assert forall|p: Seq<Seq<char>>| #[trigger] m.dom().contains(p) implies exists|j: int|
            0 <= j < n && p == #[trigger] inner_at(pairs, j) by {
            if p != inner_at(pairs, n - 1) {
                assert(m0.dom().contains(p));
            }
        }
        assert forall|p: Seq<Seq<char>>|
            (exists|j: int| 0 <= j < n && p == #[trigger] inner_at(pairs, j)) implies #[trigger] m.dom().contains(
            p,
        ) by {
            let j = choose|j: int| 0 <= j < n && p == #[trigger] inner_at(pairs, j);
            if j < n - 1 {
                assert(m0.dom().contains(p));
            }
        }
        assert forall|j: int| 0 <= j < n implies #[trigger] m[inner_at(pairs, j)] == outer_at(
            pairs,
            j,
        ) by {
            if j < n - 1 {
                assert(m0[inner_at(pairs, j)] == outer_at(pairs, j));
            }
        }
    } else {
        assert(m == Map::<Seq<Seq<char>>, Seq<Seq<char>>>::empty());
    }
}

/// The inner paths with mapped descendants after the first `n` pairs: the
/// proper prefixes of their inner paths.
proof fn lemma_pairs_dirs(pairs: Seq<(Seq<char>, Seq<char>)>, n: int)
    requires
        0 <= n,
    ensures
        forall|p: Seq<Seq<char>>| #[trigger]
            pairs_dirs(pairs, n).contains(p) <==> exists|j: int|
                0 <= j < n && #[trigger] Trie::<String, AbsPath>::proper_prefixes(
                    inner_at(pairs, j),
                ).contains(p),
    decreases n,
{
    let d = pairs_dirs(pairs, n);
    if n > 0 {
        lemma_pairs_dirs(pairs, n - 1);
        let d0 = pairs_dirs(pairs, n - 1);
        let last = Trie::<String, AbsPath>::proper_prefixes(inner_at(pairs, n - 1));
        assert(d == d0 + last);
        assert forall|p: Seq<Seq<char>>| #[trigger] d.contains(p) implies exists|j: int|
            0 <= j < n && #[trigger] Trie::<String, AbsPath>::proper_prefixes(
                inner_at(pairs, j),
            ).contains(p) by {
            if !last.contains(p) {
                assert(d0.contains(p));
            }
        }
        assert forall|p: Seq<Seq<char>>|
            (exists|j: int|
                0 <= j < n && #[trigger] Trie::<String, AbsPath>::proper_prefixes(
                    inner_at(pairs, j),
                ).contains(p)) implies #[trigger] d.contains(p) by {
            let j = choose|j: int|
                0 <= j < n && #[trigger] Trie::<String, AbsPath>::proper_prefixes(
                    inner_at(pairs, j),
                ).contains(p);
            if j < n - 1 {
                assert(d0.contains(p));
            }
        }
    } else {
        assert(d == Set::<Seq<Seq<char>>>::empty());
    }
}

/// Whether no path of `ps` is a prefix of another (or equal to it).
pub open spec fn prefix_free_paths(ps: Seq<Seq<Seq<char>>>) -> bool {
    forall|i: int, j: int|
        0 <= i < ps.len() && 0 <= j < ps.len() && i != j ==> !(#[trigger] ps[i]).is_prefix_of(
            #[trigger] ps[j],
        )
}

/// The host path of mount `i`: where its outer path routes through `m`.
pub open spec fn mount_host(
    m: Option<Map<Seq<Seq<char>>, Seq<Seq<char>>>>,
    dock_dir: Seq<Seq<char>>,
    mounts: Seq<(RelPath, String)>,
    i: int,
) -> Seq<Seq<char>> {
    match route(m, mount_outer(dock_dir, mounts, i)) {
        Some(p) => p,
        None => Seq::empty(),
    }
}

/// A nested run finds its mounts again: the `$DOCK_HOSTPATHS` that the
/// mount arguments pass on gives hostpaths that map the inner path of each
/// mount to its host path, and map nothing else, so that any path below an
/// inner path routes to the same place below the host path. This holds where there is
/// at least one mount, every outer path has a route to the host, the host
/// paths and the inner paths are rendered absolute paths with canonical
/// components that hold no `:`, no inner path is the root, and no inner
/// path is a prefix of another.
pub proof fn lemma_mount_hostpaths_parse_back(
    m: Option<Map<Seq<Seq<char>>, Seq<Seq<char>>>>,
    dock_dir: Seq<Seq<char>>,
    mounts: Seq<(RelPath, String)>,
    inner: Seq<Seq<Seq<char>>>,
)
    requires
        mounts.len() >= 1,
        inner.len() == mounts.len(),
        forall|i: int|
            0 <= i < mounts.len() ==> #[trigger] route(m, mount_outer(dock_dir, mounts, i)) is Some,
        forall|i: int|
            0 <= i < mounts.len() ==> canonical_path(#[trigger] mount_host(m, dock_dir, mounts, i)),
        forall|i: int|
            0 <= i < mounts.len() ==> canonical_path(#[trigger] inner[i]) && inner[i].len() >= 1
                && mounts[i].1@ == display_spec(inner[i]),
        all_free_of(mount_hosts(m, dock_dir, mounts), ':'),
        all_free_of(mount_inners(mounts), ':'),
        prefix_free_paths(inner),
    ensures
        ({
            let s = joined_with(
                mount_pieces(mount_hosts(m, dock_dir, mounts), mount_inners(mounts)),
                ':',
            );
            &&& text_hostpaths_ok(s)
            &&& forall|p: Seq<Seq<char>>| #[trigger]
                text_mappings(s).dom().contains(p) <==> exists|i: int|
                    0 <= i < mounts.len() && p == #[trigger] inner[i]
            &&& forall|i: int|
                0 <= i < mounts.len() ==> #[trigger] text_mappings(s)[inner[i]] == mount_host(
                    m,
                    dock_dir,
                    mounts,
                    i,
                )
            &&& forall|i: int, rest: Seq<Seq<char>>|
                0 <= i < mounts.len() ==> #[trigger] host_route(text_mappings(s), inner[i] + rest)
                    == Some(mount_host(m, dock_dir, mounts, i) + rest)
        }),
{
    let hosts = mount_hosts(m, dock_dir, mounts);
    let inners = mount_inners(mounts);
    let s = joined_with(mount_pieces(hosts, inners), ':');
    let n = mounts.len() as int;
    lemma_rendered_hostpaths_parse_back(hosts, inners);
    let ep = even_pairs(split_on(s, ':'));
    assert(ep.len() == n);
    assert forall|i: int| 0 <= i < n implies outer_at(ep, i) == mount_host(m, dock_dir, mounts, i)
        && inner_at(ep, i) == inner[i] && #[trigger] parsed_abs(ep[i].0) is Ok && parsed_abs(
        ep[i].1,
    ) is Ok by {
        assert(ep[i] == (hosts[i], inners[i]));
        assert(canonical_path(mount_host(m, dock_dir, mounts, i)));
        assert(hosts[i] == display_spec(mount_host(m, dock_dir, mounts, i)));
        lemma_abs_path_round_trip(mount_host(m, dock_dir, mounts, i));
        assert(canonical_path(inner[i]));
        lemma_abs_path_round_trip(inner[i]);
    }
    assert forall|i: int, j: int| 0 <= i < j < n implies inner_at(ep, i) != inner_at(ep, j) by {
        assert(parsed_abs(ep[i].0) is Ok);
        assert(parsed_abs(ep[j].0) is Ok);
        if inner_at(ep, i) == inner_at(ep, j) {
            assert(inner[i].is_prefix_of(inner[j]));
        }
    }
    lemma_pairs_mappings(ep, n);
    assert forall|k: int| 0 <= k < ep.len() implies #[trigger] pair_ok(ep, k) by {
        assert(parsed_abs(ep[k].0) is Ok);
        let ik = inner_at(ep, k);
        lemma_pairs_mappings(ep, k);
        lemma_pairs_dirs(ep, k);
        if prefix_mapped(pairs_mappings(ep, k), ik) {
            let l = choose|l: int|
                1 <= l < ik.len() && #[trigger] pairs_mappings(ep, k).dom().contains(ik.take(l));
            let j = choose|j: int| 0 <= j < k && ik.take(l) == #[trigger] inner_at(ep, j);
            assert(parsed_abs(ep[j].0) is Ok);
            assert(inner[j].is_prefix_of(inner[k]));
        }
        if pairs_dirs(ep, k).contains(ik) {
            let j = choose|j: int|
                0 <= j < k && #[trigger] Trie::<String, AbsPath>::proper_prefixes(
                    inner_at(ep, j),
                ).contains(ik);
            assert(parsed_abs(ep[j].0) is Ok);
            assert(inner[k].is_prefix_of(inner[j]));
        }
    }
    assert forall|p: Seq<Seq<char>>| #[trigger] text_mappings(s).dom().contains(p) implies exists|
        i: int,
    | 0 <= i < n && p == #[trigger] inner[i] by {
        let j = choose|j: int| 0 <= j < n && p == #[trigger] inner_at(ep, j);
        assert(parsed_abs(ep[j].0) is Ok);
    }
    assert forall|p: Seq<Seq<char>>|
        (exists|i: int| 0 <= i < n && p == #[trigger] inner[i]) implies #[trigger] text_mappings(
        s,
    ).dom().contains(p) by {
        let i = choose|i: int| 0 <= i < n && p == #[trigger] inner[i];
        assert(parsed_abs(ep[i].0) is Ok);
        assert(p == inner_at(ep, i));
    }
    assert forall|i: int| 0 <= i < n implies #[trigger] text_mappings(s)[inner[i]] == mount_host(
        m,
        dock_dir,
        mounts,
        i,
    ) by {
        assert(parsed_abs(ep[i].0) is Ok);
        assert(pairs_mappings(ep, n)[inner_at(ep, i)] == outer_at(ep, i));
    }
    let tm = text_mappings(s);
    assert forall|i: int, rest: Seq<Seq<char>>| 0 <= i < n implies #[trigger] host_route(
        tm,
        inner[i] + rest,
    ) == Some(mount_host(m, dock_dir, mounts, i) + rest) by {
        let kx = inner[i] + rest;
        let li = inner[i].len() as int;
        assert(kx.take(li) =~= inner[i]);
        assert(tm.dom().contains(kx.take(li)));
        assert forall|l: int| 1 <= l <= kx.len() && #[trigger] tm.dom().contains(kx.take(l)) implies l
            == li by {
            let j = choose|j: int| 0 <= j < n && kx.take(l) == #[trigger] inner[j];
            if l < li {
                assert(inner[j] =~= inner[i].subrange(0, l));
                assert(inner[j].is_prefix_of(inner[i]));
            } else if l > li {
                assert(inner[i] =~= inner[j].subrange(0, li));
                assert(inner[i].is_prefix_of(inner[j]));
            }
        }
        assert(kx.skip(li) =~= rest);
    }
}


/// The ways in which the cache volume arguments for `docker run` can fail.
#[derive(Debug)]
pub enum PrepareRunInCacheVolumesArgsError {
    CacheVolDirAsAbsPathFailed { source: NewAbsPathError },
    CheckCacheExistenceFailed { vol_name: String, message: String },
    ChangeCacheOwnershipFailed { vol_name: String, message: String },
}

/// The mount of a cache volume. The volume is checked with `inspect_args`
/// and, where that check fails, created and opened up to all users with
/// `init_args`.
pub struct CacheVolumeMount {
    pub vol_name: String,
    pub path_arg: String,
    pub mount_arg: String,
}

/// The argument that mounts volume `vol` at `path`.
pub open spec fn volume_mount_arg(vol: Seq<char>, path: Seq<char>) -> Seq<char> {
    "--mount=type=volume,src="@ + vol + ",dst="@ + path
}

/// Returns the mount of the cache volume `name`, at the absolute path
/// `path`, for an environment whose volumes are named with
/// `vol_name_prefix`.
pub fn cache_volume_mount(vol_name_prefix: &str, name: &str, path: &str) -> (r: Result<
    CacheVolumeMount,
    PrepareRunInCacheVolumesArgsError,
>)
    ensures
        match parsed_abs(path@) {
            Err(e) => r matches Err(
                PrepareRunInCacheVolumesArgsError::CacheVolDirAsAbsPathFailed { source },
            ) && source == e,
            Ok(p) => r matches Ok(m) && {
                &&& m.vol_name@ == vol_name_prefix@ + ".cache."@ + name@
                &&& m.path_arg@ == display_spec(p)
                &&& m.mount_arg@ == volume_mount_arg(m.vol_name@, m.path_arg@)
            },
        },
{
    let p = match abs_path_from_path_buf(path) {
        Ok(p) => p,
        Err(source) => {
            return Err(PrepareRunInCacheVolumesArgsError::CacheVolDirAsAbsPathFailed { source });
        },
    };
    let path_arg = abs_path_display_lossy(p.as_slice());
    let vol_name = cache_vol_name(vol_name_prefix, name);
    let a = concat("--mount=type=volume,src=", vol_name.as_str());
    let a = concat(a.as_str(), ",dst=");
    let mount_arg = concat(a.as_str(), path_arg.as_str());
    Ok(CacheVolumeMount { vol_name, path_arg, mount_arg })
}

impl CacheVolumeMount {
    /// The arguments to `docker` that check whether the volume exists.
    pub fn inspect_args(&self) -> (args: Vec<String>)
        ensures
            texts(args@) == seq!["volume"@, "inspect"@, self.vol_name@],
    {
        let mut args: Vec<String> = Vec::new();
        args.push(String::from_str("volume"));
        args.push(String::from_str("inspect"));
        args.push(self.vol_name.clone());
        proof {
            assert(texts(args@) =~= seq!["volume"@, "inspect"@, self.vol_name@]);
        }
        args
    }

    /// The arguments that create the volume by running `target_img` with
    /// it mounted, and make its directory writable by all users.
    pub open spec fn spec_init_args(&self, target_img: Seq<char>) -> Seq<Seq<char>> {
        seq![
            "run"@,
            "--rm"@,
            "--user=root"@,
            self.mount_arg@,
            target_img,
            "chmod"@,
            "-R"@,
            "0777"@,
            self.path_arg@,
        ]
    }

    /// The arguments to `docker` that create the volume by running
    /// `target_img` with it mounted, and make its directory writable by all
    /// users.
    pub fn init_args(&self, target_img: &str) -> (args: Vec<String>)
        ensures
            texts(args@) == self.spec_init_args(target_img@),
    {
        let mut args: Vec<String> = Vec::new();
        args.push(String::from_str("run"));
        args.push(String::from_str("--rm"));
        args.push(String::from_str("--user=root"));
        args.push(self.mount_arg.clone());
        args.push(String::from_str(target_img));
        args.push(String::from_str("chmod"));
        args.push(String::from_str("-R"));
        args.push(String::from_str("0777"));
        args.push(self.path_arg.clone());
        proof {
            assert(texts(args@) =~= seq![
                "run"@,
                "--rm"@,
                "--user=root"@,
                self.mount_arg@,
                target_img@,
                "chmod"@,
                "-R"@,
                "0777"@,
                self.path_arg@,
            ]);
        }
        args
    }

    /// What follows the check of the volume: nothing where `inspect_args`
    /// found it, else the arguments of `init_args`, which create it.
    pub fn init_args_after_inspect(&self, target_img: &str, inspect_succeeded: bool) -> (r: Option<
        Vec<String>,
    >)
        ensures
            inspect_succeeded ==> r is None,
            !inspect_succeeded ==> (r matches Some(a) && texts(a@) == self.spec_init_args(
                target_img@,
            )),
    {
        if inspect_succeeded {
            None
        } else {
            Some(self.init_args(target_img))
        }
    }
}

/// The ways in which the "local mount" arguments for `docker run` can
/// fail.
#[derive(Debug)]
pub enum PrepareRunInMountLocalArgsError {
    GetUserIdFailed { message: String },
    GetGroupIdFailed { message: String },
    GroupMountedWithoutUser,
    GetDockerSockMetadataFailed { message: String },
}

/// The ways in which the arguments for `docker run` can fail.
#[derive(Debug)]
pub enum PrepareRunInArgsError {
    PrepareRunInCacheVolumesArgsFailed { source: PrepareRunInCacheVolumesArgsError },
    WorkdirNotSet,
    PrepareRunInMountLocalArgsFailed { source: PrepareRunInMountLocalArgsError },
    ParseConfigOuterPathFailed {
        source: NewRelPathError,
        rel_outer_path: String,
        inner_path: String,
    },
    GetHostpathsFailed { source: HostpathsError },
    PrepareRunInMountArgsFailed { source: PrepareRunInMountArgsError },
}

/// The local resources that an environment mounts, as far as they need
/// facts about the host: the user's ID, the group's ID, and the group of
/// the Docker socket.
#[derive(Debug, Clone, Copy, PartialEq, Eq, Structural)]
pub struct MountLocalNeeds {
    pub user: bool,
    pub group: bool,
    pub docker: bool,
}

/// The mounts of an environment, with the outer paths parsed, and its local
/// mounts.
pub struct MountPlan {
    pub mounts: Vec<(RelPath, String)>,
    pub local: Option<MountLocalNeeds>,
}

/// The `mounts` of `env`.
pub open spec fn config_mounts(env: DockEnvironmentConfig) -> Seq<(String, String)> {
    match env.mounts {
        Some(ms) => ms@,
        None => Seq::empty(),
    }
}

/// The relative path of the outer path of mount `j` of `ms`.
pub open spec fn mount_parsed(ms: Seq<(String, String)>, j: int) -> Result<
    Seq<Seq<char>>,
    NewRelPathError,
> {
    rel_path_spec(path_components(ms[j].0@))
}

/// Whether `env` mounts the local resource `c`.
pub open spec fn mounts_local(env: DockEnvironmentConfig, c: DockEnvironmentMountLocalConfig) -> bool {
    match env.mount_local {
        Some(ml) => ml@.contains(c),
        None => false,
    }
}

/// The local resources that `env` mounts, as far as they need host facts.
pub open spec fn local_needs(env: DockEnvironmentConfig) -> Option<MountLocalNeeds> {
    match env.mount_local {
        Some(ml) => Some(
            MountLocalNeeds {
                user: ml@.contains(DockEnvironmentMountLocalConfig::User),
                group: ml@.contains(DockEnvironmentMountLocalConfig::Group),
                docker: ml@.contains(DockEnvironmentMountLocalConfig::Docker),
            },
        ),
        None => None,
    }
}

/// Whether `plan` is the mount plan of `env`.
pub open spec fn plan_of(env: DockEnvironmentConfig, plan: MountPlan) -> bool {
    let ms = config_mounts(env);
    let pd = mounts_local(env, DockEnvironmentMountLocalConfig::ProjectDir);
    &&& forall|j: int| 0 <= j < ms.len() ==> #[trigger] mount_parsed(ms, j) is Ok
    &&& plan.mounts@.len() == ms.len() + (if pd {
        1int
    } else {
        0int
    })
    &&& forall|j: int|
        0 <= j < ms.len() ==> mount_parsed(ms, j) == Ok::<Seq<Seq<char>>, NewRelPathError>(
            path_view(#[trigger] plan.mounts@[j].0@),
        ) && plan.mounts@[j].1@ == ms[j].1@
    &&& pd ==> (env.workdir matches Some(w) && plan.mounts@[ms.len() as int].0@.len() == 0
        && plan.mounts@[ms.len() as int].1@ == w@)
    &&& plan.local == local_needs(env)
    &&& plan.local matches Some(n) ==> !(n.group && !n.user)
}

/// Whether `e` is the error of planning the mounts of `env`: the first
/// mount whose outer path isn't a relative path, else a mounted project
/// directory without a `workdir`, else a mounted group without the user.
pub open spec fn plan_error(env: DockEnvironmentConfig, e: PrepareRunInArgsError) -> bool {
    let ms = config_mounts(env);
    match e {
        PrepareRunInArgsError::ParseConfigOuterPathFailed { source, rel_outer_path, inner_path } =>
            exists|i: int|
            {
                &&& 0 <= i < ms.len()
                &&& forall|j: int| 0 <= j < i ==> #[trigger] mount_parsed(ms, j) is Ok
                &&& #[trigger] mount_parsed(ms, i) == Err::<Seq<Seq<char>>, NewRelPathError>(source)
                &&& rel_outer_path@ == ms[i].0@
                &&& inner_path@ == ms[i].1@
            },
        PrepareRunInArgsError::WorkdirNotSet => {
            &&& forall|j: int| 0 <= j < ms.len() ==> #[trigger] mount_parsed(ms, j) is Ok
            &&& mounts_local(env, DockEnvironmentMountLocalConfig::ProjectDir)
            &&& env.workdir is None
        },
        PrepareRunInArgsError::PrepareRunInMountLocalArgsFailed {
            source: PrepareRunInMountLocalArgsError::GroupMountedWithoutUser,
        } => {
            &&& forall|j: int| 0 <= j < ms.len() ==> #[trigger] mount_parsed(ms, j) is Ok
            &&& mounts_local(env, DockEnvironmentMountLocalConfig::ProjectDir) ==> env.workdir is Some
            &&& mounts_local(env, DockEnvironmentMountLocalConfig::Group)
            &&& !mounts_local(env, DockEnvironmentMountLocalConfig::User)
        },
        _ => false,
    }
}

/// Whether `ml` holds `c`.
fn has_local(ml: &Vec<DockEnvironmentMountLocalConfig>, c: DockEnvironmentMountLocalConfig) -> (r:
    bool)
    ensures
        r == ml@.contains(c),
{
    let mut i: usize = 0;
    while i < ml.len()
        invariant
            i <= ml@.len(),
            forall|j: int| 0 <= j < i ==> ml@[j] != c,
        decreases ml@.len() - i,
    {
        if ml[i] == c {
            proof {
                assert(ml@[i as int] == c);
            }
            return true;
        }
        i += 1;
    }
    false
}

/// Plans the mounts of `env`: parses the outer path of each of its
/// `mounts`, adds the project directory (mounted at `workdir`) where it is
/// locally mounted, and checks which local resources are mounted.
pub fn plan_mounts(env: &DockEnvironmentConfig) -> (r: Result<MountPlan, PrepareRunInArgsError>)
    ensures
        match r {
            Ok(plan) => plan_of(*env, plan),
            Err(e) => plan_error(*env, e),
        },
{
    let ghost ms = config_mounts(*env);
    let mut parsed: Vec<(RelPath, String)> = Vec::new();
    match &env.mounts {
        Some(mounts) => {
            let mut i: usize = 0;
            while i < mounts.len()
                invariant
                    ms == mounts@,
                    ms == config_mounts(*env),
                    i <= ms.len(),
                    parsed@.len() == i,
                    forall|j: int| 0 <= j < i ==> #[trigger] mount_parsed(ms, j) is Ok,
                    forall|j: int|
                        0 <= j < i ==> mount_parsed(ms, j) == Ok::<
                            Seq<Seq<char>>,
                            NewRelPathError,
                        >(path_view(#[trigger] parsed@[j].0@)) && parsed@[j].1@ == ms[j].1@,
                decreases ms.len() - i,
            {
                let (outer, inner) = &mounts[i];
                match rel_path_from_path_buf(outer.as_str()) {
                    Ok(p) => {
                        let ghost before = parsed@;
                        parsed.push((p, inner.clone()));
                        proof {
                            assert(mount_parsed(ms, i as int) == Ok::<
                                Seq<Seq<char>>,
                                NewRelPathError,
                            >(path_view(parsed@[i as int].0@)));
                            assert forall|j: int| 0 <= j < i + 1 implies mount_parsed(ms, j) == Ok::<
                                Seq<Seq<char>>,
                                NewRelPathError,
                            >(path_view(#[trigger] parsed@[j].0@)) && parsed@[j].1@ == ms[j].1@ by {
                                if j < i {
                                    assert(parsed@[j] == before[j]);
                                }
                            }
                        }
                    },
                    Err(source) => {
                        let e = PrepareRunInArgsError::ParseConfigOuterPathFailed {
                            source,
                            rel_outer_path: outer.clone(),
                            inner_path: inner.clone(),
                        };
                        proof {
                            assert(mount_parsed(ms, i as int) == Err::<
                                Seq<Seq<char>>,
                                NewRelPathError,
                            >(source));
                            assert(plan_error(*env, e));
                        }
                        return Err(e);
                    },
                }
                i += 1;
            }
        },
        None => {},
    }
    let ghost parsed_mounts = parsed@;
    proof {
        assert(parsed_mounts.len() == ms.len());
        assert(forall|j: int|
            0 <= j < ms.len() ==> mount_parsed(ms, j) == Ok::<Seq<Seq<char>>, NewRelPathError>(
                path_view(#[trigger] parsed_mounts[j].0@),
            ) && parsed_mounts[j].1@ == ms[j].1@);
    }
    let local = match &env.mount_local {
        None => None,
        Some(ml) => {
            if has_local(ml, DockEnvironmentMountLocalConfig::ProjectDir) {
                match &env.workdir {
                    None => {
                        return Err(PrepareRunInArgsError::WorkdirNotSet);
                    },
                    Some(w) => {
                        parsed.push((Vec::new(), w.clone()));
                    },
                }
            }
            let user = has_local(ml, DockEnvironmentMountLocalConfig::User);
            let group = has_local(ml, DockEnvironmentMountLocalConfig::Group);
            let docker = has_local(ml, DockEnvironmentMountLocalConfig::Docker);
            if group && !user {
                return Err(
                    PrepareRunInArgsError::PrepareRunInMountLocalArgsFailed {
                        source: PrepareRunInMountLocalArgsError::GroupMountedWithoutUser,
                    },
                );
            }
            Some(MountLocalNeeds { user, group, docker })
        },
    };
    let plan = MountPlan { mounts: parsed, local };
    proof {
        assert forall|j: int| 0 <= j < ms.len() implies mount_parsed(ms, j) == Ok::<
            Seq<Seq<char>>,
            NewRelPathError,
        >(path_view(#[trigger] plan.mounts@[j].0@)) && plan.mounts@[j].1@ == ms[j].1@ by {
            assert(plan.mounts@[j] == parsed_mounts[j]);
        }
    }
    Ok(plan)
}


/// The path of the Docker socket on the host.
pub const DOCKER_SOCK_PATH: &'static str = "/var/run/docker.sock";

/// The facts about the host that local mounts need: the output of
/// `id --user` and of `id --group`, and the group of the Docker socket.
pub struct LocalIds {
    pub user_id: Option<String>,
    pub group_id: Option<String>,
    pub docker_gid: Option<u32>,
}

/// Whether `ids` holds each fact that `needs` asks for.
pub open spec fn ids_cover(needs: MountLocalNeeds, ids: LocalIds) -> bool {
    &&& needs.user ==> ids.user_id is Some
    &&& needs.user && needs.group ==> ids.group_id is Some
    &&& needs.docker ==> ids.docker_gid is Some
}

/// `s` without its trailing white space.
pub open spec fn trimmed(s: Seq<char>) -> Seq<char> {
    s.take(trimmed_end_len(s) as int)
}

/// The text of an optional string (empty where there is none).
pub open spec fn opt_text(s: Option<String>) -> Seq<char> {
    match s {
        Some(t) => t@,
        None => Seq::empty(),
    }
}

/// The argument that mounts the Docker socket.
pub open spec fn docker_sock_mount_arg() -> Seq<char> {
    "--mount=type=bind,src="@ + DOCKER_SOCK_PATH@ + ",dst="@ + DOCKER_SOCK_PATH@
}

/// The "local mount" arguments: the user (and group) to run as, and the
/// Docker socket with its group.
pub open spec fn local_args_spec(needs: MountLocalNeeds, ids: LocalIds) -> Seq<Seq<char>> {
    let user_args = if needs.user {
        if needs.group {
            seq![
                "--user="@ + trimmed(opt_text(ids.user_id)) + ":"@ + trimmed(
                    opt_text(ids.group_id),
                ),
            ]
        } else {
            seq!["--user="@ + trimmed(opt_text(ids.user_id))]
        }
    } else {
        Seq::empty()
    };
    let docker_args = match ids.docker_gid {
        Some(gid) if needs.docker => seq![
            docker_sock_mount_arg(),
            "--group-add="@ + decimal(gid as nat),
        ],
        _ => Seq::empty(),
    };
    user_args + docker_args
}

/// The layout of the "local mount" arguments: the `--user` argument where
/// the user is mounted (with the group where that is mounted too), then,
/// where the Docker socket is mounted, whatever else is, the socket's bind
/// mount and the addition of its group.
pub proof fn lemma_local_args_layout(needs: MountLocalNeeds, ids: LocalIds)
    ensures
        ({
            let a = local_args_spec(needs, ids);
            let u: int = if needs.user {
                1
            } else {
                0
            };
            &&& a.len() == u + (if needs.docker && ids.docker_gid is Some {
                2int
            } else {
                0int
            })
            &&& needs.user && !needs.group ==> a[0] == "--user="@ + trimmed(opt_text(ids.user_id))
            &&& needs.user && needs.group ==> a[0] == "--user="@ + trimmed(opt_text(ids.user_id))
                + ":"@ + trimmed(opt_text(ids.group_id))
            &&& forall|g: u32|
                needs.docker && ids.docker_gid == Some(g) ==> {
                    &&& a[u] == "--mount=type=bind,src=/var/run/docker.sock,dst=/var/run/docker.sock"@
                    &&& a[u + 1] == "--group-add="@ + decimal(g as nat)
                }
        }),
{
    reveal_strlit("--mount=type=bind,src=/var/run/docker.sock,dst=/var/run/docker.sock");
    reveal_strlit("--mount=type=bind,src=");
    reveal_strlit(",dst=");
    reveal_strlit("/var/run/docker.sock");
    assert(docker_sock_mount_arg() =~= "--mount=type=bind,src=/var/run/docker.sock,dst=/var/run/docker.sock"@);
}

/// Returns the "local mount" arguments of `needs` from the host facts
/// `ids`.
pub fn mount_local_args(needs: &MountLocalNeeds, ids: &LocalIds) -> (args: Vec<String>)
    requires
        ids_cover(*needs, *ids),
    ensures
        texts(args@) == local_args_spec(*needs, *ids),
{
    let mut args: Vec<String> = Vec::new();
    if needs.user {
        let uid = match &ids.user_id {
            Some(u) => trim_end(u.as_str()),
            None => String::new(),
        };
        let a = concat("--user=", uid.as_str());
        if needs.group {
            let gid = match &ids.group_id {
                Some(g) => trim_end(g.as_str()),
                None => String::new(),
            };
            let a = concat(a.as_str(), ":");
            let a = concat(a.as_str(), gid.as_str());
            args.push(a);
        } else {
            args.push(a);
        }
    }
    let ghost user_args = texts(args@);
    if needs.docker {
        match ids.docker_gid {
            Some(gid) => {
                let m = concat("--mount=type=bind,src=", DOCKER_SOCK_PATH);
                let m = concat(m.as_str(), ",dst=");
                let m = concat(m.as_str(), DOCKER_SOCK_PATH);
                let g = decimal_string(gid as u64);
                let g = concat("--group-add=", g.as_str());
                args.push(m);
                args.push(g);
            },
            None => {},
        }
    }
    proof {
        assert(texts(args@) =~= local_args_spec(*needs, *ids));
    }
    args
}

/// The texts of an optional list of strings (empty where there is none).
pub open spec fn opt_texts(v: Option<Vec<String>>) -> Seq<Seq<char>> {
    match v {
        Some(v) => texts(v@),
        None => Seq::empty(),
    }
}

/// The `--workdir` argument of an optional working directory.
pub open spec fn workdir_args(w: Option<String>) -> Seq<Seq<char>> {
    match w {
        Some(d) => seq!["--workdir="@ + d@],
        None => Seq::empty(),
    }
}

/// The `--env` arguments of optional environment variables.
pub open spec fn env_var_args(e: Option<Vec<(String, String)>>) -> Seq<Seq<char>> {
    match e {
        Some(v) => Seq::new(v@.len(), |i: int| "--env="@ + v@[i].0@ + "="@ + v@[i].1@),
        None => Seq::empty(),
    }
}

/// The arguments of `docker run` that come before the mounts: cleanup and
/// init, the cache volume mounts, the environment's own arguments, its
/// working directory and its environment variables.
pub open spec fn leading_run_args(env: DockEnvironmentConfig, cache_args: Seq<Seq<char>>) -> Seq<
    Seq<char>,
> {
    seq!["--rm"@, "--init"@] + cache_args + opt_texts(env.run_args) + workdir_args(env.workdir)
        + env_var_args(env.env)
}

/// The layout of the leading arguments of `docker run`: `--rm` and
/// `--init`, then the cache volume arguments, then every one of the
/// environment's `run_args` in order, then `--workdir` where the
/// environment has a working directory, then one `--env` per variable, in
/// order; and nothing else.
pub proof fn lemma_leading_run_args_layout(env: DockEnvironmentConfig, cache_args: Seq<Seq<char>>)
    ensures
        ({
            let a = leading_run_args(env, cache_args);
            let c = cache_args.len() as int;
            let nr: int = match env.run_args {
                Some(v) => v@.len() as int,
                None => 0,
            };
            let nw: int = if env.workdir is Some {
                1
            } else {
                0
            };
            let ne: int = match env.env {
                Some(v) => v@.len() as int,
                None => 0,
            };
            &&& a.len() == 2 + c + nr + nw + ne
            &&& a[0] == "--rm"@
            &&& a[1] == "--init"@
            &&& forall|i: int| 0 <= i < c ==> a[2 + i] == #[trigger] cache_args[i]
            &&& forall|v: Vec<String>, i: int|
                env.run_args == Some(v) && 0 <= i < v@.len() ==> a[2 + c + i] == (#[trigger] v@[i])@
            &&& forall|w: String| env.workdir == Some(w) ==> a[2 + c + nr] == "--workdir="@ + w@
            &&& forall|v: Vec<(String, String)>, i: int|
                env.env == Some(v) && 0 <= i < v@.len() ==> a[2 + c + nr + nw + i] == "--env="@
                    + (#[trigger] v@[i]).0@ + "="@ + v@[i].1@
        }),
{
    let a = leading_run_args(env, cache_args);
    let c = cache_args.len() as int;
    let rt = opt_texts(env.run_args);
    let wa = workdir_args(env.workdir);
    let ea = env_var_args(env.env);
    assert(a == seq!["--rm"@, "--init"@] + cache_args + rt + wa + ea);
    assert forall|v: Vec<String>, i: int|
        env.run_args == Some(v) && 0 <= i < v@.len() implies a[2 + c + i] == (#[trigger] v@[i])@ by {
        assert(rt == texts(v@));
        assert((seq!["--rm"@, "--init"@] + cache_args + rt)[2 + c + i] == rt[i]);
    }
    assert forall|i: int| 0 <= i < c implies a[2 + i] == #[trigger] cache_args[i] by {
        assert((seq!["--rm"@, "--init"@] + cache_args)[2 + i] == cache_args[i]);
    }
}

/// The "local mount" arguments of an optional set of needs.
pub open spec fn opt_local_args(needs: Option<MountLocalNeeds>, ids: LocalIds) -> Seq<Seq<char>> {
    match needs {
        Some(n) => local_args_spec(n, ids),
        None => Seq::empty(),
    }
}

/// The mappings that a looked-up `$DOCK_HOSTPATHS` gives, where it gives
/// any.
pub open spec fn var_mappings(var: EnvVarValue) -> Option<Map<Seq<Seq<char>>, Seq<Seq<char>>>> {
    match var {
        EnvVarValue::Present(raw) => Some(text_mappings(raw@)),
        _ => None,
    }
}

/// Whether a looked-up `$DOCK_HOSTPATHS` gives hostpaths (or none).
pub open spec fn var_ok(var: EnvVarValue) -> bool {
    match var {
        EnvVarValue::NotPresent => true,
        EnvVarValue::NotUnicode(_) => false,
        EnvVarValue::Present(raw) => text_hostpaths_ok(raw@),
    }
}

/// Whether `e` is the error that a looked-up `$DOCK_HOSTPATHS` gives.
pub open spec fn var_error(var: EnvVarValue, e: HostpathsError) -> bool {
    match var {
        EnvVarValue::NotPresent => false,
        EnvVarValue::NotUnicode(value) => e matches HostpathsError::EnvVarIsNotUnicode { value: v }
            && v@ == value@,
        EnvVarValue::Present(raw) => match e {
            HostpathsError::UnmatchedHostpath { hostpaths } => {
                &&& split_on(raw@, ':').len() % 2 == 1
                &&& texts(hostpaths@) == split_on(raw@, ':')
            },
            HostpathsError::CreateHostpathsFailed { source } => {
                &&& split_on(raw@, ':').len() % 2 == 0
                &&& pairs_failed(even_pairs(split_on(raw@, ':')), source)
            },
            _ => false,
        },
    }
}

/// Appends copies of `more` to `args`.
fn extend_texts(args: &mut Vec<String>, more: &Vec<String>)
    ensures
        texts(final(args)@) == texts(old(args)@) + texts(more@),
{
    let ghost start = texts(args@);
    let mut i: usize = 0;
    while i < more.len()
        invariant
            i <= more@.len(),
            texts(args@) == start + texts(more@.take(i as int)),
        decreases more@.len() - i,
    {
        let ghost before = args@;
        args.push(more[i].clone());
        proof {
            assert(texts(args@) =~= texts(before).push(more@[i as int]@));
            assert(texts(more@.take(i + 1)) =~= texts(more@.take(i as int)).push(more@[i as int]@));
        }
        i += 1;
    }
    proof {
        assert(more@.take(i as int) =~= more@);
    }
}

/// Returns the arguments of `docker run` for `env` that come before the
/// mounts, with `cache_args` for the cache volumes.
fn leading_args(env: &DockEnvironmentConfig, cache_args: &Vec<String>) -> (args: Vec<String>)
    ensures
        texts(args@) == leading_run_args(*env, texts(cache_args@)),
{
    let mut args: Vec<String> = Vec::new();
    args.push(String::from_str("--rm"));
    args.push(String::from_str("--init"));
    proof {
        assert(texts(args@) =~= seq!["--rm"@, "--init"@]);
    }
    extend_texts(&mut args, cache_args);
    match &env.run_args {
        Some(ra) => {
            extend_texts(&mut args, ra);
        },
        None => {
            proof {
                assert(texts(args@) =~= texts(args@) + opt_texts(env.run_args));
            }
        },
    }
    match &env.workdir {
        Some(d) => {
            let ghost before = texts(args@);
            args.push(concat("--workdir=", d.as_str()));
            proof {
                assert(texts(args@) =~= before + workdir_args(env.workdir));
            }
        },
        None => {
            proof {
                assert(texts(args@) =~= texts(args@) + workdir_args(env.workdir));
            }
        },
    }
    match &env.env {
        Some(vars) => {
            let ghost start = texts(args@);
            let mut i: usize = 0;
            while i < vars.len()
                invariant
                    i <= vars@.len(),
                    texts(args@) == start + Seq::new(
                        i as nat,
                        |k: int| "--env="@ + vars@[k].0@ + "="@ + vars@[k].1@,
                    ),
                decreases vars@.len() - i,
            {
                let (k, v) = &vars[i];
                let a = concat("--env=", k.as_str());
                let a = concat(a.as_str(), "=");
                let a = concat(a.as_str(), v.as_str());
                let ghost before = args@;
                let ghost av = a@;
                args.push(a);
                proof {
                    assert(av == "--env="@ + vars@[i as int].0@ + "="@ + vars@[i as int].1@);
                    assert(texts(args@) =~= texts(before).push(av));
                    assert(texts(args@) =~= start + Seq::new(
                        (i + 1) as nat,
                        |k: int| "--env="@ + vars@[k].0@ + "="@ + vars@[k].1@,
                    ));
                }
                i += 1;
            }
        },
        None => {
            proof {
                assert(texts(args@) =~= texts(args@) + env_var_args(env.env));
            }
        },
    }
    proof {
        assert(texts(args@) =~= leading_run_args(*env, texts(cache_args@)));
    }
    args
}

/// Whether `r` is what preparing the arguments of `docker run` gives for
/// `env`, once its mounts are planned as `plan`: the leading arguments, the
/// local mounts and, where `plan` has mounts, their arguments, routed to
/// the host through `hostpaths_var`; or the first error of those steps.
pub open spec fn run_args_outcome(
    env: DockEnvironmentConfig,
    dock_dir: Seq<String>,
    cache_args: Seq<String>,
    plan: MountPlan,
    ids: LocalIds,
    hostpaths_var: EnvVarValue,
    r: Result<Vec<String>, PrepareRunInArgsError>,
) -> bool {
    match r {
            Ok(args) => {
                let lead = leading_run_args(env, texts(cache_args)) + opt_local_args(
                    plan.local,
                    ids,
                );
                &&& lead.len() <= args@.len()
                &&& texts(args@).take(lead.len() as int) == lead
                &&& if plan.mounts@.len() == 0 {
                    args@.len() == lead.len()
                } else {
                    &&& var_ok(hostpaths_var)
                    &&& mount_args_made(
                        var_mappings(hostpaths_var),
                        path_view(dock_dir),
                        plan.mounts@,
                        texts(args@).skip(lead.len() as int),
                    )
                }
            },
            Err(PrepareRunInArgsError::GetHostpathsFailed { source }) => {
                &&& plan.mounts@.len() > 0
                &&& var_error(hostpaths_var, source)
            },
            Err(PrepareRunInArgsError::PrepareRunInMountArgsFailed { source }) => {
                &&& plan.mounts@.len() > 0
                &&& var_ok(hostpaths_var)
                &&& mount_args_failed(
                    var_mappings(hostpaths_var),
                    path_view(dock_dir),
                    plan.mounts@,
                    source,
                )
            },
            Err(_) => false,
        }
}

/// Whether `r` is an error of planning the mounts.
pub open spec fn planning_failed(r: Result<Vec<String>, PrepareRunInArgsError>) -> bool {
    match r {
        Err(PrepareRunInArgsError::ParseConfigOuterPathFailed { .. }) => true,
        Err(PrepareRunInArgsError::WorkdirNotSet) => true,
        Err(
            PrepareRunInArgsError::PrepareRunInMountLocalArgsFailed {
                source: PrepareRunInMountLocalArgsError::GroupMountedWithoutUser,
            },
        ) => true,
        _ => false,
    }
}

/// Returns the arguments of `docker run` for `env`, after the cache volumes
/// (whose arguments are `cache_args`) are ready and the host facts `ids`
/// that its local mounts need are known. The mounts of `env` are planned
/// first (`plan_mounts`), which reports a mount whose outer path isn't
/// relative, a mounted project directory without a `workdir`
/// (`WorkdirNotSet`) and a mounted group without the user. Where there are
/// mounts, `hostpaths_var` (the looked-up value of `$DOCK_HOSTPATHS`)
/// routes their outer paths, under `dock_dir`, to the host.
pub fn prepare_run_in_args(
    env: &DockEnvironmentConfig,
    dock_dir: &AbsPath,
    cache_args: &Vec<String>,
    ids: &LocalIds,
    hostpaths_var: EnvVarValue,
) -> (r: Result<Vec<String>, PrepareRunInArgsError>)
    requires
        local_needs(*env) matches Some(n) ==> (!(n.group && !n.user) ==> ids_cover(n, *ids)),
    ensures
        planning_failed(r) ==> (r matches Err(e) && plan_error(*env, e)),
        !planning_failed(r) ==> exists|plan: MountPlan|
            #[trigger] plan_of(*env, plan) && run_args_outcome(
                *env,
                dock_dir@,
                cache_args@,
                plan,
                *ids,
                hostpaths_var,
                r,
            ),
{
    let plan = match plan_mounts(env) {
        Ok(p) => p,
        Err(e) => {
            return Err(e);
        },
    };
    let ghost var = hostpaths_var;
    let r = run_args_for_plan(env, dock_dir, cache_args, &plan, ids, hostpaths_var);
    proof {
        assert(plan_of(*env, plan) && run_args_outcome(*env, dock_dir@, cache_args@, plan, *ids, var, r));
    }
    r
}

/// Returns the arguments of `docker run` for `env` once its mounts are
/// planned as `plan`.
fn run_args_for_plan(
    env: &DockEnvironmentConfig,
    dock_dir: &AbsPath,
    cache_args: &Vec<String>,
    plan: &MountPlan,
    ids: &LocalIds,
    hostpaths_var: EnvVarValue,
) -> (r: Result<Vec<String>, PrepareRunInArgsError>)
    requires
        plan.local matches Some(n) ==> ids_cover(n, *ids),
    ensures
        run_args_outcome(*env, dock_dir@, cache_args@, *plan, *ids, hostpaths_var, r),
{
    let mut args = leading_args(env, cache_args);
    match &plan.local {
        Some(n) => {
            let la = mount_local_args(n, ids);
            extend_texts(&mut args, &la);
        },
        None => {
            proof {
                assert(texts(args@) =~= texts(args@) + opt_local_args(plan.local, *ids));
            }
        },
    }
    let ghost lead = texts(args@);
    if plan.mounts.len() == 0 {
        proof {
            assert(texts(args@).take(lead.len() as int) =~= lead);
        }
        return Ok(args);
    }
    let cur = match hostpaths(hostpaths_var) {
        Ok(h) => h,
        Err(source) => {
            return Err(PrepareRunInArgsError::GetHostpathsFailed { source });
        },
    };
    let cur_ref = cur.as_ref();
    proof {
        assert(opt_mappings(cur_ref) == var_mappings(hostpaths_var));
    }
    let margs = match prepare_run_mount_args(dock_dir, &plan.mounts, cur_ref) {
        Ok(a) => a,
        Err(source) => {
            return Err(PrepareRunInArgsError::PrepareRunInMountArgsFailed { source });
        },
    };
    extend_texts(&mut args, &margs);
    proof {
        assert(texts(args@).take(lead.len() as int) =~= lead);
        assert(texts(args@).skip(lead.len() as int) =~= texts(margs@));
    }
    Ok(args)
}


/// Whether `dock` rebuilds the environment's image before running it.
#[derive(Debug, Clone, Copy, PartialEq, Eq, Structural)]
pub enum RebuildAction {
    Run,
    Skip,
}

/// How `dock` rebuilds: whether it does, and the tag that keeps the old
/// image during a rebuild.
pub struct Rebuild {
    pub action: RebuildAction,
    pub cache_tag: String,
}

/// The arguments of `docker run` that the caller adds: flags for `docker`,
/// and the command to run.
pub struct Args<'a> {
    pub docker: &'a [&'a str],
    pub command: &'a [&'a str],
}

/// The ways in which a Dockerfile can fail to be read for a build.
#[derive(Debug)]
pub enum NewDockerContextError {
    OpenDockerfileFailed { message: String, path: AbsPath },
}

/// The ways in which rebuilding an environment's image can fail.
#[derive(Debug)]
pub enum RebuildForRunInError {
    NewDockerRebuildInputFailed { source: NewDockerContextError },
    RebuildFailed { message: String, img: String },
    RebuildUnsuccessful { img: String },
}

/// The ways in which running a command in an environment can fail.
#[derive(Debug)]
pub enum RunInError {
    FindAndParseDockConfigFailed { source: FindAndParseDockConfigError, dock_file_name: String },
    EnvironmentNotFound { name: String },
    RelPathFromContextPathFailed { source: NewRelPathError },
    SpinFailed { message: String },
    SpinnerRebuildForRunInFailed { source: RebuildForRunInError },
    RebuildForRunInFailed { source: RebuildForRunInError },
    PrepareRunInArgsFailed { source: PrepareRunInArgsError },
    ExecFailed { message: String },
}

/// What a rebuild of an environment's image uses: the environment's
/// context directory (relative to the Dock directory), if it has one, and
/// its build arguments.
pub struct RebuildPlan {
    pub context: Option<RelPath>,
    pub build_args: Vec<String>,
}

/// The environment that a run uses, and the names derived from it.
pub struct RunInPlan {
    /// The index of the environment in the Dock file's environments.
    pub env_index: usize,
    pub env_name: String,
    pub target_img: String,
    pub cache_img: String,
    pub vol_name_prefix: String,
    /// What to rebuild with, where the image is rebuilt.
    pub rebuild: Option<RebuildPlan>,
}

/// The name of the environment that a run uses: the one asked for, else the
/// default shell environment.
pub open spec fn chosen_env_name(conf: DockConfig, maybe_env_name: Option<&str>) -> Seq<char> {
    match maybe_env_name {
        Some(n) => n@,
        None => conf.default_shell_env@,
    }
}

/// The image name of environment `name` of `conf`.
pub open spec fn image_name_spec(conf: DockConfig, name: Seq<char>) -> Seq<char> {
    conf.organisation@ + "/"@ + conf.project@ + "."@ + name
}

/// The relative path of an environment's context, where it has one.
pub open spec fn context_parsed(env: DockEnvironmentConfig) -> Result<
    Option<Seq<Seq<char>>>,
    NewRelPathError,
> {
    match env.context {
        None => Ok(None),
        Some(c) => match rel_path_spec(path_components(c@)) {
            Ok(p) => Ok(Some(p)),
            Err(e) => Err(e),
        },
    }
}

/// The view of an optional relative path.
pub open spec fn opt_rel_view(p: Option<RelPath>) -> Option<Seq<Seq<char>>> {
    match p {
        Some(q) => Some(path_view(q@)),
        None => None,
    }
}

/// Whether `plan` is the plan of a run of environment `i` of `conf`,
/// named `name`.
pub open spec fn run_in_plan_of(
    conf: DockConfig,
    name: Seq<char>,
    i: int,
    rebuild: Rebuild,
    plan: RunInPlan,
) -> bool {
    let env = conf.environments@[i].1;
    &&& 0 <= i < conf.environments@.len()
    &&& plan.env_index == i
    &&& plan.env_name@ == name
    &&& plan.target_img@ == image_name_spec(conf, name) + ":latest"@
    &&& plan.cache_img@ == image_name_spec(conf, name) + ":"@ + rebuild.cache_tag@
    &&& plan.vol_name_prefix@ == conf.organisation@ + "."@ + conf.project@ + "."@ + name
    &&& match rebuild.action {
        RebuildAction::Skip => plan.rebuild is None,
        RebuildAction::Run => plan.rebuild matches Some(rp) && {
            &&& context_parsed(env) == Ok::<Option<Seq<Seq<char>>>, NewRelPathError>(
                opt_rel_view(rp.context),
            )
            &&& texts(rp.build_args@) == opt_texts(env.build_args)
        },
    }
}

/// Plans a run in the environment named `maybe_env_name` (else the default
/// shell environment) of `conf`: finds the environment, derives the names
/// of its image, of the tag that keeps the old image and of its volumes,
/// and, where the image is rebuilt, what it is rebuilt with.
pub fn plan_run_in(conf: &DockConfig, maybe_env_name: Option<&str>, rebuild: &Rebuild) -> (r:
    Result<RunInPlan, RunInError>)
    requires
        conf.keys_distinct(),
    ensures
        ({
            let name = chosen_env_name(*conf, maybe_env_name);
            match env_index(conf.environments@, name) {
                None => r matches Err(RunInError::EnvironmentNotFound { name: n }) && n@ == name,
                Some(i) => match r {
                    Ok(plan) => run_in_plan_of(*conf, name, i, *rebuild, plan),
                    Err(RunInError::RelPathFromContextPathFailed { source }) => {
                        &&& rebuild.action == RebuildAction::Run
                        &&& context_parsed(conf.environments@[i].1) == Err::<
                            Option<Seq<Seq<char>>>,
                            NewRelPathError,
                        >(source)
                    },
                    Err(_) => false,
                },
            }
        }),
{
    let env_name: &str = match maybe_env_name {
        Some(n) => n,
        None => conf.default_shell_env.as_str(),
    };
    let i = match find_environment(&conf.environments, env_name) {
        Some(i) => i,
        None => {
            return Err(RunInError::EnvironmentNotFound { name: String::from_str(env_name) });
        },
    };
    let env = &conf.environments[i].1;
    let img_name = image_name(conf.organisation.as_str(), conf.project.as_str(), env_name);
    let target_img = tagged_image_name(
        conf.organisation.as_str(),
        conf.project.as_str(),
        env_name,
    );
    let cache_img = cache_image_name(img_name.as_str(), rebuild.cache_tag.as_str());
    let vol_name_prefix = cache_vol_name_prefix(
        conf.organisation.as_str(),
        conf.project.as_str(),
        env_name,
    );
    let rebuild_plan = match rebuild.action {
        RebuildAction::Skip => None,
        RebuildAction::Run => {
            let parse = |c: &String| -> (r: Result<RelPath, NewRelPathError>)
                ensures
                    path_result_view(r) == rel_path_spec(path_components(c@)),
                { rel_path_from_path_buf(c.as_str()) };
            let context = match env.context.as_ref().and_maybe_then(parse) {
                Ok(c) => c,
                Err(source) => {
                    return Err(RunInError::RelPathFromContextPathFailed { source });
                },
            };
            let build_args = match &env.build_args {
                Some(a) => copy_path(a),
                None => Vec::new(),
            };
            proof {
                assert(texts(build_args@) =~= opt_texts(env.build_args));
            }
            Some(RebuildPlan { context, build_args })
        },
    };
    Ok(
        RunInPlan {
            env_index: i,
            env_name: String::from_str(env_name),
            target_img,
            cache_img,
            vol_name_prefix,
            rebuild: rebuild_plan,
        },
    )
}

/// The full arguments of `docker run`.
pub open spec fn docker_run_args_spec(
    env: DockEnvironmentConfig,
    shell: Option<&str>,
    main_run_args: Seq<Seq<char>>,
    docker: Seq<Seq<char>>,
    target_img: Seq<char>,
    command: Seq<Seq<char>>,
) -> Seq<Seq<char>> {
    let entrypoint = match shell {
        None => Seq::empty(),
        Some(s) => match env.shell {
            Some(es) => seq!["--entrypoint="@ + es@],
            None => seq!["--entrypoint="@ + s@],
        },
    };
    seq!["run"@] + entrypoint + main_run_args + docker + seq![target_img] + command
}

/// Returns the arguments of `docker run` for a run of `target_img` in
/// `env`: where a shell is run, the entrypoint is that shell (or the
/// environment's own shell); then come `main_run_args` (from
/// `prepare_run_in_args`), the caller's flags for `docker`, the image and
/// the command.
pub fn docker_run_args(
    env: &DockEnvironmentConfig,
    shell: Option<&str>,
    main_run_args: &Vec<String>,
    args: &Args,
    target_img: &str,
) -> (r: Vec<String>)
    ensures
        texts(r@) == docker_run_args_spec(
            *env,
            shell,
            texts(main_run_args@),
            str_texts(args.docker@),
            target_img@,
            str_texts(args.command@),
        ),
{
    let mut r: Vec<String> = Vec::new();
    r.push(String::from_str("run"));
    match shell {
        None => {},
        Some(s) => {
            let sh: &str = match &env.shell {
                Some(es) => es.as_str(),
                None => s,
            };
            r.push(concat("--entrypoint=", sh));
        },
    }
    extend_texts(&mut r, main_run_args);
    let docker = to_strings(args.docker);
    proof {
        assert(texts(docker@) =~= str_texts(args.docker@));
    }
    extend_texts(&mut r, &docker);
    let ghost before = r@;
    r.push(String::from_str(target_img));
    proof {
        assert(texts(r@) =~= texts(before).push(target_img@));
    }
    let command = to_strings(args.command);
    proof {
        assert(texts(command@) =~= str_texts(args.command@));
    }
    extend_texts(&mut r, &command);
    proof {
        assert(texts(r@) =~= docker_run_args_spec(
            *env,
            shell,
            texts(main_run_args@),
            str_texts(args.docker@),
            target_img@,
            str_texts(args.command@),
        ));
    }
    r
}

/// Returns the relative path made of the single component `c`.
pub fn rel_path_from_component(c: String) -> (p: RelPath)
    ensures
        p@ == seq![c],
{
    let mut p: RelPath = Vec::new();
    p.push(c);
    proof {
        assert(p@ =~= seq![c]);
    }
    p
}

/// Returns the path of the Dockerfile of environment `env_name`:
/// `env_name.Dockerfile` in the Dock directory.
pub fn dockerfile_path(dock_dir: &AbsPath, env_name: &str) -> (p: AbsPath)
    ensures
        path_view(p@) == path_view(dock_dir@).push(env_name@ + ".Dockerfile"@),
{
    let name = concat(env_name, ".Dockerfile");
    let rel = rel_path_from_component(name);
    let p = abs_path_concat(dock_dir.as_slice(), &rel);
    proof {
        assert(path_view(rel@) =~= seq![env_name@ + ".Dockerfile"@]);
        assert(path_view(dock_dir@) + path_view(rel@) =~= path_view(dock_dir@).push(
            env_name@ + ".Dockerfile"@,
        ));
    }
    p
}

/// Returns what a build of the environment reads: its context directory
/// (under the Dock directory) with the Dockerfile, where it has a context,
/// else the Dockerfile alone.
pub fn new_docker_context(
    dock_dir: &AbsPath,
    dockerfile_path: AbsPath,
    maybe_context_sub_path: Option<&RelPath>,
) -> (ctx: DockerContext)
    ensures
        match maybe_context_sub_path {
            Some(sub) => ctx matches DockerContext::Dir { path, dockerfile } && path_view(path@)
                == path_view(dock_dir@) + path_view(sub@) && dockerfile@ == dockerfile_path@,
            None => ctx matches DockerContext::Empty { dockerfile } && dockerfile@
                == dockerfile_path@,
        },
{
    match maybe_context_sub_path {
        Some(sub) => {
            let path = abs_path_concat(dock_dir.as_slice(), sub);
            DockerContext::Dir { path, dockerfile: dockerfile_path }
        },
        None => DockerContext::Empty { dockerfile: dockerfile_path },
    }
}

/// The outcome of a rebuild of `img` that ran and exited with or without
/// success.
pub fn rebuild_outcome(success: bool, img: &str) -> (r: Result<(), RebuildForRunInError>)
    ensures
        success ==> r is Ok,
        !success ==> (r matches Err(RebuildForRunInError::RebuildUnsuccessful { img: i }) && i@
            == img@),
{
    if !success {
        return Err(RebuildForRunInError::RebuildUnsuccessful { img: String::from_str(img) });
    }
    Ok(())
}


/// The loggers of the commands that a run makes: rendering them for
/// debugging, or capturing their output.
pub enum CmdLoggers<'a> {
    Debugging(TimingPrefixingCmdLogger<'a>),
    Capturing(CapturingCmdLogger),
}

impl<'a> CmdLoggers<'a> {
    /// Logs `msg`, where `elapsed` is the rendering of the time since the
    /// command started, and returns the bytes to write out.
    pub fn log(&mut self, msg: &CmdLoggerMsg, elapsed: &[u8]) -> (out: Vec<u8>)
        requires
            *old(self) matches CmdLoggers::Debugging(l) ==> (msg is Exit ==> l.spec_started()),
        ensures
            match *old(self) {
                CmdLoggers::Debugging(l) => *final(self) matches CmdLoggers::Debugging(l2) && {
                    &&& out@ == l.rendered(*msg, elapsed@)
                    &&& l2.logger() == l.logger().after(*msg)
                    &&& l2.spec_started() == (l.spec_started() || *msg is Start)
                    &&& l2.duration_prefix_bytes() == l.duration_prefix_bytes()
                },
                CmdLoggers::Capturing(c) => *final(self) matches CmdLoggers::Capturing(c2) && {
                    &&& out@.len() == 0
                    &&& chunks_view(c2.chunks@) == c.captured(*msg)
                },
            },
    {
        match self {
            CmdLoggers::Debugging(logger) => logger.render(msg, elapsed),
            CmdLoggers::Capturing(logger) => {
                logger.log(msg);
                Vec::new()
            },
        }
    }
}

} // verus!
