//! A/B testing between two versions of a model: experiments, their
//! validation, and the observations recorded for them.

use std::collections::HashMap;
use std::sync::Arc;
use vstd::prelude::*;
use crate::clock::{UtcTimestamp, utc_now};
use crate::keyed::{keyed, keys_distinct, lemma_keyed, lemma_keyed_push, lemma_keyed_update};
use crate::ml_model_versioning::error::ModelVersioningError;
use crate::ml_model_versioning::manager::ModelVersioningManager;
use crate::text::str_eq;

verus! {

/// A/B experiment configuration. Fractions and levels are the bit
/// patterns of `f64` values, as `f64::to_bits` gives them.
#[derive(Debug, Clone)]
pub struct ABExperimentConfig {
    /// Unique experiment identifier.
    pub experiment_id: String,
    /// Human-readable experiment name.
    pub name: String,
    /// Description of the experiment.
    pub description: String,
    /// Model identifier being tested.
    pub model_id: String,
    /// Control version (version A).
    pub control_version: String,
    /// Treatment version (version B).
    pub treatment_version: String,
    /// Traffic allocation fraction for treatment (0.0 to 1.0).
    pub treatment_traffic: u64,
    /// Primary metric to evaluate (e.g., "accuracy", "f1_score", "inference_latency").
    pub primary_metric: String,
    /// Secondary metrics to track.
    pub secondary_metrics: Vec<String>,
    /// Minimum sample size per variant before analysis.
    pub min_sample_size: u64,
    /// Statistical significance threshold (e.g., 0.05 for 95% confidence).
    pub significance_level: u64,
    /// Whether the experiment is currently active.
    pub is_active: bool,
    /// Start timestamp.
    pub started_at: UtcTimestamp,
    /// End timestamp (optional).
    pub ended_at: Option<UtcTimestamp>,
    /// Custom metadata.
    pub custom_metadata: HashMap<String, serde_json::Value>,
}

/// Experiment variant assignment.
#[derive(Debug, Clone, Copy, PartialEq, Eq, Structural)]
pub enum Variant {
    /// Control group (version A).
    Control,
    /// Treatment group (version B).
    Treatment,
}

/// Observation record for a single inference or request. Metric values
/// are the bit patterns of `f64` values.
#[derive(Debug, Clone)]
pub struct Observation {
    /// Unique observation identifier.
    pub observation_id: u128,
    /// Experiment identifier.
    pub experiment_id: String,
    /// Assigned variant.
    pub variant: Variant,
    /// Model version used.
    pub model_version: String,
    /// Timestamp of the observation.
    pub timestamp: UtcTimestamp,
    /// Primary metric value.
    pub primary_metric_value: u64,
    /// Secondary metrics.
    pub secondary_metrics: Vec<(String, u64)>,
    /// Context features (for contextual bandits).
    pub context_features: Option<Vec<(String, u64)>>,
    /// Custom metadata.
    pub custom_metadata: HashMap<String, serde_json::Value>,
}

/// The `f64` with bit pattern `bits` lies in [0.0, 1.0].
pub open spec fn in_unit_interval(bits: u64) -> bool {
    bits <= 0x3FF0_0000_0000_0000u64 || bits == 0x8000_0000_0000_0000u64
}

/// The version that serves a variant of an experiment.
pub open spec fn variant_version(config: ABExperimentConfig, variant: Variant) -> Seq<char> {
    match variant {
        Variant::Control => config.control_version@,
        Variant::Treatment => config.treatment_version@,
    }
}

/// The message of an experiment that does not exist.
pub open spec fn experiment_missing_message(id: Seq<char>) -> Seq<char> {
    "Experiment "@ + id + " not found"@
}

/// The message of an experiment that is not active.
pub open spec fn experiment_inactive_message(id: Seq<char>) -> Seq<char> {
    "Experiment "@ + id + " is not active"@
}

/// The message of an observation whose version is not its variant's.
pub open spec fn version_mismatch_message(version: Seq<char>) -> Seq<char> {
    "Model version "@ + version + " does not match expected variant"@
}

/// The observations of an experiment.
pub open spec fn of_experiment(id: Seq<char>) -> spec_fn(Observation) -> bool {
    |o: Observation| o.experiment_id@ == id
}

/// The experiment id of a configuration.
pub open spec fn config_id() -> spec_fn(ABExperimentConfig) -> Seq<char> {
    |c: ABExperimentConfig| c.experiment_id@
}

/// A configuration itself.
pub open spec fn config_itself() -> spec_fn(ABExperimentConfig) -> ABExperimentConfig {
    |c: ABExperimentConfig| c
}

/// Whether the `f64` with bit pattern `bits` lies in [0.0, 1.0].
pub fn is_unit_fraction(bits: u64) -> (r: bool)
    ensures
        r == in_unit_interval(bits),
{
    bits <= 0x3FF0_0000_0000_0000u64 || bits == 0x8000_0000_0000_0000u64
}

/// The version that serves a variant of an experiment.
pub fn version_for_variant(config: &ABExperimentConfig, variant: Variant) -> (r: &String)
    ensures
        r@ == variant_version(*config, variant),
{
    match variant {
        Variant::Control => &config.control_version,
        Variant::Treatment => &config.treatment_version,
    }
}

fn experiment_message(prefix: &str, id: &str, suffix: &str) -> (r: String)
    ensures
        r@ == prefix@ + id@ + suffix@,
{
    let mut m = String::from_str(prefix);
    m.append(id);
    m.append(suffix);
    m
}

/// A/B testing manager.
pub struct ABTestingManager {
    manager: Arc<ModelVersioningManager>,
    experiments: Vec<ABExperimentConfig>,
    observations: Vec<Observation>,
}

impl ABTestingManager {
    /// The model versioning manager the experiments draw versions from.
    pub closed spec fn manager_view(&self) -> ModelVersioningManager {
        *self.manager
    }

    /// The experiments, by id.
    pub closed spec fn experiments_view(&self) -> Map<Seq<char>, ABExperimentConfig> {
        keyed(self.experiments@, config_id(), config_itself())
    }

    /// The ids of the experiments, in the order they were created.
    pub closed spec fn experiment_ids(&self) -> Seq<Seq<char>> {
        self.experiments@.map_values(config_id())
    }

    /// The observations, in the order they were recorded.
    pub closed spec fn observations_view(&self) -> Seq<Observation> {
        self.observations@
    }

    /// The invariant: experiment ids are distinct, and the versioning
    /// manager is well formed.
    pub closed spec fn wf(&self) -> bool {
        &&& keys_distinct(self.experiments@, config_id())
        &&& self.manager_view().wf()
    }

    /// Create a new A/B testing manager.
    pub fn new(manager: Arc<ModelVersioningManager>) -> (r: Self)
        requires
            manager.wf(),
        ensures
            r.wf(),
            r.manager_view() == *manager,
            r.experiments_view() == Map::<Seq<char>, ABExperimentConfig>::empty(),
            r.observations_view() == Seq::<Observation>::empty(),
    {
        ABTestingManager { manager, experiments: Vec::new(), observations: Vec::new() }
    }

    fn find_experiment(&self, id: &str) -> (r: Option<usize>)
        requires
            self.wf(),
        ensures
            match r {
                Some(i) => i < self.experiments@.len() && self.experiments@[i as int].experiment_id@ == id@
                    && self.experiments_view().contains_key(id@) && self.experiments_view()[id@]
                    == self.experiments@[i as int],
                None => !self.experiments_view().contains_key(id@),
            },
    {
        proof { lemma_keyed(self.experiments@, config_id(), config_itself()); }
        let n = self.experiments.len();
        let mut i: usize = 0;
        while i < n
            invariant
                n == self.experiments@.len(),
                i <= n,
                self.wf(),
                forall|j: int| 0 <= j < i ==> self.experiments@[j].experiment_id@ != id@,
            decreases n - i,
        {
            if str_eq(self.experiments[i].experiment_id.as_str(), id) {
                proof { lemma_keyed(self.experiments@, config_id(), config_itself()); }
                return Some(i);
            }
            i = i + 1;
        }
        None
    }

    /// Create a new A/B experiment: both versions must be readable from the
    /// versioning manager, the treatment traffic must lie in [0.0, 1.0],
    /// and the two versions must differ. An experiment with the same id is
    /// replaced.
    pub fn create_experiment(&mut self, config: ABExperimentConfig) -> (r: Result<(), ModelVersioningError>)
        requires
            old(self).wf(),
        ensures
            final(self).wf(),
            final(self).manager_view() == old(self).manager_view(),
            final(self).observations_view() == old(self).observations_view(),
            ({
                let mgr = old(self).manager_view();
                let m = config.model_id@;
                &&& !mgr.get_version_succeeds(m, config.control_version@) ==> (r matches Err(e)
                    && mgr.get_version_error(m, config.control_version@, e))
                &&& mgr.get_version_succeeds(m, config.control_version@) && !mgr.get_version_succeeds(
                    m,
                    config.treatment_version@,
                ) ==> (r matches Err(e) && mgr.get_version_error(m, config.treatment_version@, e))
                &&& mgr.get_version_succeeds(m, config.control_version@) && mgr.get_version_succeeds(
                    m,
                    config.treatment_version@,
                ) && !in_unit_interval(config.treatment_traffic) ==> (r matches Err(
                    ModelVersioningError::InvalidInput(msg),
                ) && msg@ == "treatment_traffic must be between 0.0 and 1.0"@)
                &&& mgr.get_version_succeeds(m, config.control_version@) && mgr.get_version_succeeds(
                    m,
                    config.treatment_version@,
                ) && in_unit_interval(config.treatment_traffic) && config.control_version@ == config.treatment_version@
                    ==> (r matches Err(ModelVersioningError::InvalidInput(msg))
                    && msg@ == "control and treatment versions must be different"@)
                &&& r is Err ==> final(self).experiments_view() == old(self).experiments_view()
                &&& r is Ok <==> (mgr.get_version_succeeds(m, config.control_version@) && mgr.get_version_succeeds(
                    m,
                    config.treatment_version@,
                ) && in_unit_interval(config.treatment_traffic) && config.control_version@ != config.treatment_version@)
                &&& r is Ok ==> final(self).experiments_view() == old(self).experiments_view().insert(
                    config.experiment_id@,
                    config,
                )
            }),
    {
        match self.manager.get_version(config.model_id.as_str(), config.control_version.as_str()) {
            Err(e) => {
                return Err(e);
            },
            Ok(_) => {},
        }
        match self.manager.get_version(config.model_id.as_str(), config.treatment_version.as_str()) {
            Err(e) => {
                return Err(e);
            },
            Ok(_) => {},
        }
        if !is_unit_fraction(config.treatment_traffic) {
            proof { reveal_strlit("treatment_traffic must be between 0.0 and 1.0"); }
            return Err(
                ModelVersioningError::InvalidInput(String::from_str("treatment_traffic must be between 0.0 and 1.0")),
            );
        }
        if str_eq(config.control_version.as_str(), config.treatment_version.as_str()) {
            proof { reveal_strlit("control and treatment versions must be different"); }
            return Err(
                ModelVersioningError::InvalidInput(String::from_str("control and treatment versions must be different")),
            );
        }
        match self.find_experiment(config.experiment_id.as_str()) {
            Some(i) => {
                proof { lemma_keyed_update(self.experiments@, config_id(), config_itself(), i as int, config); }
                self.experiments.set(i, config);
            },
            None => {
                proof { lemma_keyed_push(self.experiments@, config_id(), config_itself(), config); }
                self.experiments.push(config);
            },
        }
        Ok(())
    }

    /// Get an experiment by id.
    pub fn get_experiment(&self, experiment_id: &str) -> (r: Option<&ABExperimentConfig>)
        requires
            self.wf(),
        ensures
            self.experiments_view().contains_key(experiment_id@) ==> (r matches Some(c) && *c
                == self.experiments_view()[experiment_id@]),
            !self.experiments_view().contains_key(experiment_id@) ==> r is None,
    {
        match self.find_experiment(experiment_id) {
            Some(i) => Some(&self.experiments[i]),
            None => None,
        }
    }

    /// List all experiments, in the order of [`Self::experiment_ids`].
    pub fn list_experiments(&self) -> (r: Vec<&ABExperimentConfig>)
        requires
            self.wf(),
        ensures
            r@.len() == self.experiment_ids().len(),
            forall|i: int| 0 <= i < r@.len() ==> *r@[i] == self.experiments_view()[#[trigger] self.experiment_ids()[i]],
    {
        proof { lemma_keyed(self.experiments@, config_id(), config_itself()); }
        let mut r: Vec<&ABExperimentConfig> = Vec::new();
        let n = self.experiments.len();
        let mut i: usize = 0;
        while i < n
            invariant
                n == self.experiments@.len(),
                i <= n,
                r@.len() == i,
                forall|j: int| 0 <= j < i ==> *r@[j] == self.experiments@[j],
            decreases n - i,
        {
            r.push(&self.experiments[i]);
            i = i + 1;
        }
        assert forall|i: int| 0 <= i < r@.len() implies *r@[i] == self.experiments_view()[#[trigger] self.experiment_ids()[i]] by {
            assert(self.experiment_ids()[i] == config_id()(self.experiments@[i]));
        }
        r
    }

    /// The experiment to assign a variant in: it must exist and be active.
    pub fn active_experiment(&self, experiment_id: &str) -> (r: Result<&ABExperimentConfig, ModelVersioningError>)
        requires
            self.wf(),
        ensures
            !self.experiments_view().contains_key(experiment_id@) ==> (r matches Err(ModelVersioningError::NotFound(m))
                && m@ == experiment_missing_message(experiment_id@)),
            self.experiments_view().contains_key(experiment_id@) && !self.experiments_view()[experiment_id@].is_active
                ==> (r matches Err(ModelVersioningError::InvalidState(m)) && m@ == experiment_inactive_message(
                experiment_id@,
            )),
            self.experiments_view().contains_key(experiment_id@) && self.experiments_view()[experiment_id@].is_active
                ==> (r matches Ok(c) && *c == self.experiments_view()[experiment_id@]),
    {
        proof {
            reveal_strlit("Experiment ");
            reveal_strlit(" not found");
            reveal_strlit(" is not active");
        }
        match self.find_experiment(experiment_id) {
            None => Err(ModelVersioningError::NotFound(experiment_message("Experiment ", experiment_id, " not found"))),
            Some(i) => {
                if !self.experiments[i].is_active {
                    Err(ModelVersioningError::InvalidState(experiment_message("Experiment ", experiment_id, " is not active")))
                } else {
                    Ok(&self.experiments[i])
                }
            },
        }
    }

    /// Record an observation: its experiment must exist and be active, and
    /// its model version must be the one its variant is served by.
    pub fn record_observation(&mut self, observation: Observation) -> (r: Result<(), ModelVersioningError>)
        requires
            old(self).wf(),
        ensures
            final(self).wf(),
            final(self).manager_view() == old(self).manager_view(),
            final(self).experiments_view() == old(self).experiments_view(),
            ({
                let exps = old(self).experiments_view();
                let id = observation.experiment_id@;
                &&& !exps.contains_key(id) ==> (r matches Err(ModelVersioningError::NotFound(m))
                    && m@ == experiment_missing_message(id))
                &&& exps.contains_key(id) && !exps[id].is_active ==> (r matches Err(ModelVersioningError::InvalidState(m))
                    && m@ == experiment_inactive_message(id))
                &&& exps.contains_key(id) && exps[id].is_active && observation.model_version@ != variant_version(
                    exps[id],
                    observation.variant,
                ) ==> (r matches Err(ModelVersioningError::InvalidInput(m)) && m@ == version_mismatch_message(
                    observation.model_version@,
                ))
                &&& r is Err ==> final(self).observations_view() == old(self).observations_view()
                &&& exps.contains_key(id) && exps[id].is_active && observation.model_version@ == variant_version(
                    exps[id],
                    observation.variant,
                ) ==> (r is Ok && final(self).observations_view() == old(self).observations_view().push(observation))
            }),
    {
        let expected = match self.active_experiment(observation.experiment_id.as_str()) {
            Err(e) => {
                return Err(e);
            },
            Ok(c) => version_for_variant(c, observation.variant),
        };
        if !str_eq(observation.model_version.as_str(), expected.as_str()) {
            proof {
                reveal_strlit("Model version ");
                reveal_strlit(" does not match expected variant");
            }
            return Err(
                ModelVersioningError::InvalidInput(
                    experiment_message("Model version ", observation.model_version.as_str(), " does not match expected variant"),
                ),
            );
        }
        self.observations.push(observation);
        Ok(())
    }

    /// Stop an experiment: it becomes inactive, with the current time as
    /// its end.
    pub fn stop_experiment(&mut self, experiment_id: &str) -> (r: Result<(), ModelVersioningError>)
        requires
            old(self).wf(),
        ensures
            final(self).wf(),
            final(self).manager_view() == old(self).manager_view(),
            final(self).observations_view() == old(self).observations_view(),
            !old(self).experiments_view().contains_key(experiment_id@) ==> (r matches Err(
                ModelVersioningError::NotFound(m),
            ) && m@ == experiment_missing_message(experiment_id@) && final(self).experiments_view()
                == old(self).experiments_view()),
            old(self).experiments_view().contains_key(experiment_id@) ==> ({
                let stopped = final(self).experiments_view()[experiment_id@];
                &&& r is Ok
                &&& stopped.ended_at is Some
                &&& stopped == ABExperimentConfig {
                    is_active: false,
                    ended_at: stopped.ended_at,
                    ..old(self).experiments_view()[experiment_id@]
                }
                &&& final(self).experiments_view() == old(self).experiments_view().insert(experiment_id@, stopped)
            }),
    {
        proof {
            reveal_strlit("Experiment ");
            reveal_strlit(" not found");
        }
        match self.find_experiment(experiment_id) {
            None => Err(ModelVersioningError::NotFound(experiment_message("Experiment ", experiment_id, " not found"))),
            Some(i) => {
                let mut c = self.experiments.remove(i);
                c.is_active = false;
                c.ended_at = Some(utc_now());
                proof {
                    lemma_keyed_update(old(self).experiments@, config_id(), config_itself(), i as int, c);
                }
                self.experiments.insert(i, c);
                assert(self.experiments@ =~= old(self).experiments@.update(i as int, c));
                Ok(())
            },
        }
    }

    /// The observations recorded for an experiment, in the order they were
    /// recorded.
    pub fn get_observations(&self, experiment_id: &str) -> (r: Vec<&Observation>)
        ensures
            r@.map_values(|o: &Observation| *o) == self.observations_view().filter(of_experiment(experiment_id@)),
    {
        let ghost p = of_experiment(experiment_id@);
        let ghost d = |o: &Observation| *o;
        let mut r: Vec<&Observation> = Vec::new();
        let n = self.observations.len();
        let mut i: usize = 0;
        assert(r@.map_values(d) =~= self.observations@.subrange(0, 0).filter(p)) by {
            reveal_with_fuel(Seq::filter, 1);
        }
        while i < n
            invariant
                n == self.observations@.len(),
                i <= n,
                p == of_experiment(experiment_id@),
                d == (|o: &Observation| *o),
                r@.map_values(d) == self.observations@.subrange(0, i as int).filter(p),
            decreases n - i,
        {
            let keep = str_eq(self.observations[i].experiment_id.as_str(), experiment_id);
            let ghost before = r@;
            if keep {
                r.push(&self.observations[i]);
            }
            proof {
                reveal_with_fuel(Seq::filter, 1);
                let sub = self.observations@.subrange(0, i + 1);
                assert(sub.drop_last() =~= self.observations@.subrange(0, i as int));
                assert(sub.last() == self.observations@[i as int]);
                if keep {
                    assert(r@.map_values(d) =~= before.map_values(d).push(self.observations@[i as int]));
                }
                assert(r@.map_values(d) == sub.filter(p));
            }
            i = i + 1;
        }
        assert(self.observations@.subrange(0, n as int) =~= self.observations@);
        r
    }
}

} // verus!
