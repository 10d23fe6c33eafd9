//! Cleaning up after a project: the Docker volumes and images that `dock`
//! made for its environments.

use vstd::prelude::*;

use crate::run_in::cache_vol_name;
use crate::run_in::cache_vol_name_prefix;
use crate::run_in::image_name_spec;
use crate::run_in::tagged_image_name;
use crate::run_in::DockConfig;
use crate::run_in::FindAndParseDockConfigError;
use crate::text::texts;

verus! {

/// A removal that cleaning makes.
pub enum CleanStep {
    RemoveVolume { name: String },
    RemoveImage { name: String },
}

/// A removal by its kind (`true` for a volume) and the name it removes.
pub open spec fn step_view(s: CleanStep) -> (bool, Seq<char>) {
    match s {
        CleanStep::RemoveVolume { name } => (true, name@),
        CleanStep::RemoveImage { name } => (false, name@),
    }
}

/// The ways in which cleaning can fail.
#[derive(Debug)]
pub enum CleanError {
    FindAndParseDockConfigFailed { source: FindAndParseDockConfigError, dock_file_name: String },
    RemoveVolumeFailed { message: String, name: String },
    RemoveImageFailed { message: String, name: String },
}

impl CleanStep {
    /// The arguments to `docker` that make the removal.
    pub fn docker_args(&self) -> (args: Vec<String>)
        ensures
            texts(args@) == match *self {
                CleanStep::RemoveVolume { name } => seq!["volume"@, "rm"@, name@],
                CleanStep::RemoveImage { name } => seq!["rmi"@, name@],
            },
    {
        let mut args: Vec<String> = Vec::new();
        match self {
            CleanStep::RemoveVolume { name } => {
                args.push(String::from_str("volume"));
                args.push(String::from_str("rm"));
                args.push(name.clone());
                proof {
                    assert(texts(args@) =~= seq!["volume"@, "rm"@, name@]);
                }
            },
            CleanStep::RemoveImage { name } => {
                args.push(String::from_str("rmi"));
                args.push(name.clone());
                proof {
                    assert(texts(args@) =~= seq!["rmi"@, name@]);
                }
            },
        }
        args
    }
}

/// The removals of the cache volumes of environment `i` of `conf`.
pub open spec fn volume_steps(conf: DockConfig, i: int) -> Seq<(bool, Seq<char>)> {
    let env_name = conf.environments@[i].0@;
    let prefix = conf.organisation@ + "."@ + conf.project@ + "."@ + env_name;
    match conf.environments@[i].1.cache_volumes {
        Some(vols) => Seq::new(vols@.len(), |k: int| (true, prefix + ".cache."@ + vols@[k].0@)),
        None => Seq::empty(),
    }
}

/// The removals for environment `i` of `conf`: its cache volumes (where
/// volumes are removed), then its image (where images are removed).
pub open spec fn env_clean_steps(
    conf: DockConfig,
    i: int,
    remove_images: bool,
    remove_volumes: bool,
) -> Seq<(bool, Seq<char>)> {
    let env_name = conf.environments@[i].0@;
    (if remove_volumes {
        volume_steps(conf, i)
    } else {
        Seq::empty()
    }) + (if remove_images {
        seq![(false, conf.organisation@ + "/"@ + conf.project@ + "."@ + env_name + ":latest"@)]
    } else {
        Seq::empty()
    })
}

/// The removals for the first `n` environments of `conf`, in order.
pub open spec fn clean_steps(conf: DockConfig, n: int, remove_images: bool, remove_volumes: bool) -> Seq<
    (bool, Seq<char>),
>
    decreases n,
{
    if n <= 0 {
        Seq::empty()
    } else {
        clean_steps(conf, n - 1, remove_images, remove_volumes) + env_clean_steps(
            conf,
            n - 1,
            remove_images,
            remove_volumes,
        )
    }
}

/// Returns the removals that clean up after the environments of `conf`, in
/// the order of the environments: for each, its cache volumes where
/// `remove_volumes`, then its image where `remove_images`.
pub fn clean_steps_of(conf: &DockConfig, remove_images: bool, remove_volumes: bool) -> (steps: Vec<
    CleanStep,
>)
    ensures
        steps@.map_values(|s: CleanStep| step_view(s)) == clean_steps(
            *conf,
            conf.environments@.len() as int,
            remove_images,
            remove_volumes,
        ),
{
    let mut steps: Vec<CleanStep> = Vec::new();
    let mut i: usize = 0;
    while i < conf.environments.len()
        invariant
            i <= conf.environments@.len(),
            steps@.map_values(|s: CleanStep| step_view(s)) == clean_steps(
                *conf,
                i as int,
                remove_images,
                remove_volumes,
            ),
        decreases conf.environments@.len() - i,
    {
        let (env_name, env) = &conf.environments[i];
        let ghost start = steps@.map_values(|s: CleanStep| step_view(s));
        if remove_volumes {
            let prefix = cache_vol_name_prefix(
                conf.organisation.as_str(),
                conf.project.as_str(),
                env_name.as_str(),
            );
            match &env.cache_volumes {
                Some(vols) => {
                    let mut k: usize = 0;
                    while k < vols.len()
                        invariant
                            k <= vols@.len(),
                            steps@.map_values(|s: CleanStep| step_view(s)) == start
                                + volume_steps(*conf, i as int).take(k as int),
                            prefix@ == conf.organisation@ + "."@ + conf.project@ + "."@
                                + env_name@,
                            conf.environments@[i as int].1.cache_volumes == Some(*vols),
                            conf.environments@[i as int].0 == *env_name,
                        decreases vols@.len() - k,
                    {
                        let name = cache_vol_name(prefix.as_str(), vols[k].0.as_str());
                        let ghost before = steps@;
                        steps.push(CleanStep::RemoveVolume { name });
                        proof {
                            let vs = volume_steps(*conf, i as int);
                            assert(vs.take(k + 1) =~= vs.take(k as int).push(vs[k as int]));
                            assert(steps@.map_values(|s: CleanStep| step_view(s)) =~= before.map_values(
                                |s: CleanStep| step_view(s),
                            ).push(vs[k as int]));
                        }
                        k += 1;
                    }
                    proof {
                        assert(volume_steps(*conf, i as int).take(k as int) =~= volume_steps(
                            *conf,
                            i as int,
                        ));
                    }
                },
                None => {
                    proof {
                        assert(start + volume_steps(*conf, i as int) =~= start);
                    }
                },
            }
        }
        let ghost mid = steps@.map_values(|s: CleanStep| step_view(s));
        if remove_images {
            let name = tagged_image_name(
                conf.organisation.as_str(),
                conf.project.as_str(),
                env_name.as_str(),
            );
            let ghost before = steps@;
            steps.push(CleanStep::RemoveImage { name });
            proof {
                assert(steps@.map_values(|s: CleanStep| step_view(s)) =~= before.map_values(
                    |s: CleanStep| step_view(s),
                ).push(step_view(steps@.last())));
            }
        }
        proof {
            assert(steps@.map_values(|s: CleanStep| step_view(s)) =~= clean_steps(
                *conf,
                i + 1,
                remove_images,
                remove_volumes,
            ));
        }
        i += 1;
    }
    steps
}


/// Cleaning removes what runs make: for each environment, the image that a
/// run of it tags (`image_name_spec` with `:latest`), and each cache volume
/// under the name that a run of it mounts (its volume prefix, `.cache.`, and
/// the volume's name).
pub proof fn lemma_clean_removes_what_runs_make(conf: DockConfig, i: int)
    requires
        0 <= i < conf.environments@.len(),
    ensures
        ({
            let name = conf.environments@[i].0@;
            let prefix = conf.organisation@ + "."@ + conf.project@ + "."@ + name;
            &&& env_clean_steps(conf, i, true, false) == seq![
                (false, image_name_spec(conf, name) + ":latest"@),
            ]
            &&& forall|k: int|
                #![trigger env_clean_steps(conf, i, false, true)[k]]
                0 <= k < env_clean_steps(conf, i, false, true).len() ==> {
                    &&& conf.environments@[i].1.cache_volumes matches Some(vols)
                    &&& k < vols@.len()
                    &&& env_clean_steps(conf, i, false, true)[k] == (
                        true,
                        prefix + ".cache."@ + vols@[k].0@,
                    )
                }
        }),
{
    let steps = env_clean_steps(conf, i, true, false);
    assert(steps =~= seq![
        (false, image_name_spec(conf, conf.environments@[i].0@) + ":latest"@),
    ]);
    assert(env_clean_steps(conf, i, false, true) =~= volume_steps(conf, i));
}

} // verus!
