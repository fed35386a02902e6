//! The backend-agnostic network-lifecycle contract.
//!
//! A [`LineraNetConfig`] declares the desired topology and can be
//! instantiated into a running network; a [`LineraNet`] is the handle to
//! such a network and carries its whole mutable lifecycle. The contract is
//! stated over the bookkeeping model of [`crate::model`], together with a
//! fault plan: four spec functions that say which backend commands would
//! fail. Every operation promises success exactly where no fault stands in
//! its way, and says exactly how the bookkeeping changes either way, so a
//! failed stop is never recorded as stopped and a failed start never as
//! running.

use vstd::prelude::*;
use crate::errors::OrchestratorError;
use crate::model::NetModel;
use crate::model::shard_running;
use crate::model::valid_index;
use crate::model::validator_fully_running;
use crate::model::live;
use crate::model::with_shard;
use crate::model::with_configured;
use crate::model::with_validator_started;
use crate::model::with_validator_stopped;
use crate::model::without_validator;
use crate::model::terminated_model;
use crate::naming::name_spec;
use crate::protocol::Network;

verus! {

/// A non-owning view of a running network, bound to one validator.
///
/// It records how to reach that validator — its backend label, built from
/// the protocol's short tag — and nothing else; dropping it has no effect
/// on the network.
pub struct ClientWrapper {
    /// The backend label of the validator this client talks to.
    pub address: String,
    /// The index of that validator.
    pub validator: usize,
    /// The wire protocol the client must speak.
    pub protocol: Network,
}

/// A running network of validators: the uniform lifecycle contract over
/// every backend.
pub trait LineraNet: Sized {
    /// The recorded bookkeeping of the network.
    spec fn model(&self) -> NetModel;

    /// The handle's internal well-formedness.
    spec fn inv(&self) -> bool;

    /// The backend would fail to start shard `j` of validator `i`.
    spec fn start_fault(&self, i: int, j: int) -> bool;

    /// The backend would fail to stop shard `j` of validator `i`.
    spec fn stop_fault(&self, i: int, j: int) -> bool;

    /// The backend would fail to write the configuration artifact of
    /// validator `i`.
    spec fn config_fault(&self, i: int) -> bool;

    /// Shard `j` of validator `i` would not answer its liveness probe.
    spec fn ready_fault(&self, i: int, j: int) -> bool;

    /// Polls every component that the bookkeeping expects to be up, until
    /// each answers its liveness probe or a bounded window elapses. Mutates
    /// nothing; succeeds exactly when every expected-up component answers.
    fn ensure_is_running(&mut self) -> (r: Result<(), OrchestratorError>)
        requires
            old(self).inv(),
            !old(self).model().terminated,
        ensures
            *final(self) == *old(self),
            r is Ok <==> (forall|i: int, j: int|
                shard_running(old(self).model(), i, j) ==> !old(self).ready_fault(i, j)),
            r matches Err(e) ==> ({
                &&& e matches OrchestratorError::ReadinessTimeout { validator, shard }
                &&& shard_running(old(self).model(), validator as int, shard as int)
                &&& old(self).ready_fault(validator as int, shard as int)
            });

    /// Returns a new non-owning client bound to the first fully running
    /// validator. A pure read: the network itself is untouched.
    fn make_client(&mut self) -> (c: ClientWrapper)
        requires
            old(self).inv(),
            !old(self).model().terminated,
            exists|i: int| validator_fully_running(old(self).model(), i),
        ensures
            *final(self) == *old(self),
            validator_fully_running(old(self).model(), c.validator as int),
            forall|k: int|
                0 <= k < c.validator ==> !validator_fully_running(old(self).model(), k),
            c.protocol == old(self).model().protocol,
            c.address@ == name_spec(old(self).model().protocol, c.validator as nat),
    ;

    /// (Re)writes the configuration artifact of validator `i`, which must
    /// not be running. On failure the artifact is recorded absent, never
    /// presumed present.
    fn generate_validator_config(&mut self, i: usize) -> (r: Result<(), OrchestratorError>)
        requires
            old(self).inv(),
            !old(self).model().terminated,
            forall|j: int| !shard_running(old(self).model(), i as int, j),
        ensures
            final(self).inv(),
            forall|a: int, b: int| #[trigger] final(self).start_fault(a, b) == old(self).start_fault(a, b),
            forall|a: int, b: int| #[trigger] final(self).stop_fault(a, b) == old(self).stop_fault(a, b),
            forall|a: int| #[trigger] final(self).config_fault(a) == old(self).config_fault(a),
            forall|a: int, b: int| #[trigger] final(self).ready_fault(a, b) == old(self).ready_fault(a, b),
            r is Ok <==> valid_index(old(self).model(), i as int) && !old(self).config_fault(
                i as int,
            ),
            r is Ok ==> final(self).model() == with_configured(old(self).model(), i as int, true),
            !valid_index(old(self).model(), i as int) ==> ({
                &&& r matches Err(e)
                &&& e matches OrchestratorError::ValidatorNotFound { validator }
                &&& validator == i
                &&& final(self).model() == old(self).model()
            }),
            valid_index(old(self).model(), i as int) && old(self).config_fault(i as int) ==> ({
                &&& r matches Err(e)
                &&& e matches OrchestratorError::ConfigGenerationFailure { validator }
                &&& validator == i
                &&& final(self).model() == with_configured(old(self).model(), i as int, false)
            });

    /// Starts the backend resource of shard `j` of validator `i`, which
    /// must be configured and currently stopped. A failed start is not
    /// recorded as running.
    fn start_server(&mut self, i: usize, j: usize) -> (r: Result<(), OrchestratorError>)
        requires
            old(self).inv(),
            !old(self).model().terminated,
            j < old(self).model().shards_per_validator,
            valid_index(old(self).model(), i as int) ==> live(
                old(self).model(),
                i as int,
            ).configured && !shard_running(old(self).model(), i as int, j as int),
        ensures
            final(self).inv(),
            forall|a: int, b: int| #[trigger] final(self).start_fault(a, b) == old(self).start_fault(a, b),
            forall|a: int, b: int| #[trigger] final(self).stop_fault(a, b) == old(self).stop_fault(a, b),
            forall|a: int| #[trigger] final(self).config_fault(a) == old(self).config_fault(a),
            forall|a: int, b: int| #[trigger] final(self).ready_fault(a, b) == old(self).ready_fault(a, b),
            r is Ok <==> valid_index(old(self).model(), i as int) && !old(self).start_fault(
                i as int,
                j as int,
            ),
            r is Ok ==> final(self).model() == with_shard(
                old(self).model(),
                i as int,
                j as int,
                true,
            ),
            r is Err ==> final(self).model() == old(self).model(),
            !valid_index(old(self).model(), i as int) ==> ({
                &&& r matches Err(e)
                &&& e matches OrchestratorError::ValidatorNotFound { validator }
                &&& validator == i
            }),
            valid_index(old(self).model(), i as int) && old(self).start_fault(
                i as int,
                j as int,
            ) ==> ({
                &&& r matches Err(e)
                &&& e matches OrchestratorError::BackendCommandFailure { validator, shard }
                &&& validator == i
                &&& shard == j
            });

    /// Stops the backend resource of shard `j` of validator `i`, which must
    /// be currently running, without touching its siblings. A failed stop
    /// is not recorded as stopped.
    fn terminate_server(&mut self, i: usize, j: usize) -> (r: Result<(), OrchestratorError>)
        requires
            old(self).inv(),
            !old(self).model().terminated,
            j < old(self).model().shards_per_validator,
            valid_index(old(self).model(), i as int) ==> shard_running(
                old(self).model(),
                i as int,
                j as int,
            ),
        ensures
            final(self).inv(),
            forall|a: int, b: int| #[trigger] final(self).start_fault(a, b) == old(self).start_fault(a, b),
            forall|a: int, b: int| #[trigger] final(self).stop_fault(a, b) == old(self).stop_fault(a, b),
            forall|a: int| #[trigger] final(self).config_fault(a) == old(self).config_fault(a),
            forall|a: int, b: int| #[trigger] final(self).ready_fault(a, b) == old(self).ready_fault(a, b),
            r is Ok <==> valid_index(old(self).model(), i as int) && !old(self).stop_fault(
                i as int,
                j as int,
            ),
            r is Ok ==> final(self).model() == with_shard(
                old(self).model(),
                i as int,
                j as int,
                false,
            ),
            r is Err ==> final(self).model() == old(self).model(),
            !valid_index(old(self).model(), i as int) ==> ({
                &&& r matches Err(e)
                &&& e matches OrchestratorError::ValidatorNotFound { validator }
                &&& validator == i
            }),
            valid_index(old(self).model(), i as int) && old(self).stop_fault(
                i as int,
                j as int,
            ) ==> ({
                &&& r matches Err(e)
                &&& e matches OrchestratorError::BackendCommandFailure { validator, shard }
                &&& validator == i
                &&& shard == j
            });

    /// Starts every stopped shard of validator `i`, which must be
    /// configured; already running shards are left alone. Attempts every
    /// shard before reporting the first failure.
    fn start_validator(&mut self, i: usize) -> (r: Result<(), OrchestratorError>)
        requires
            old(self).inv(),
            !old(self).model().terminated,
            valid_index(old(self).model(), i as int) ==> live(
                old(self).model(),
                i as int,
            ).configured,
        ensures
            final(self).inv(),
            forall|a: int, b: int| #[trigger] final(self).start_fault(a, b) == old(self).start_fault(a, b),
            forall|a: int, b: int| #[trigger] final(self).stop_fault(a, b) == old(self).stop_fault(a, b),
            forall|a: int| #[trigger] final(self).config_fault(a) == old(self).config_fault(a),
            forall|a: int, b: int| #[trigger] final(self).ready_fault(a, b) == old(self).ready_fault(a, b),
            !valid_index(old(self).model(), i as int) ==> ({
                &&& r matches Err(e)
                &&& e matches OrchestratorError::ValidatorNotFound { validator }
                &&& validator == i
                &&& final(self).model() == old(self).model()
            }),
            valid_index(old(self).model(), i as int) ==> final(self).model()
                == with_validator_started(
                old(self).model(),
                i as int,
                (|a: int, b: int| old(self).start_fault(a, b)),
            ),
            valid_index(old(self).model(), i as int) ==> (r is Ok <==> (forall|j: int|
                0 <= j < old(self).model().shards_per_validator && !shard_running(
                    old(self).model(),
                    i as int,
                    j,
                ) ==> !old(self).start_fault(i as int, j))),
            valid_index(old(self).model(), i as int) && r is Err ==> (r matches Err(e) && {
                &&& e matches OrchestratorError::BackendCommandFailure { validator, shard }
                &&& validator == i
                &&& !shard_running(old(self).model(), i as int, shard as int)
                &&& old(self).start_fault(i as int, shard as int)
            });

    /// Permanently removes validator `i` from the tracked set after
    /// stopping it. Its index is never reused. If some shard cannot be
    /// stopped, the validator stays tracked, with the still-running shards
    /// recorded, and the failure is reported.
    fn remove_validator(&mut self, i: usize) -> (r: Result<(), OrchestratorError>)
        requires
            old(self).inv(),
            !old(self).model().terminated,
        ensures
            final(self).inv(),
            forall|a: int, b: int| #[trigger] final(self).start_fault(a, b) == old(self).start_fault(a, b),
            forall|a: int, b: int| #[trigger] final(self).stop_fault(a, b) == old(self).stop_fault(a, b),
            forall|a: int| #[trigger] final(self).config_fault(a) == old(self).config_fault(a),
            forall|a: int, b: int| #[trigger] final(self).ready_fault(a, b) == old(self).ready_fault(a, b),
            !valid_index(old(self).model(), i as int) ==> ({
                &&& r matches Err(e)
                &&& e matches OrchestratorError::ValidatorNotFound { validator }
                &&& validator == i
                &&& final(self).model() == old(self).model()
            }),
            valid_index(old(self).model(), i as int) ==> (r is Ok <==> (forall|j: int|
                shard_running(old(self).model(), i as int, j) ==> !old(self).stop_fault(
                    i as int,
                    j,
                ))),
            r is Ok ==> final(self).model() == without_validator(old(self).model(), i as int),
            valid_index(old(self).model(), i as int) && r is Err ==> (r matches Err(e) && {
                &&& final(self).model() == with_validator_stopped(
                    old(self).model(),
                    i as int,
                    (|a: int, b: int| old(self).stop_fault(a, b)),
                )
                &&& e matches OrchestratorError::PartialTeardownFailure { failed }
                &&& forall|a: usize, b: usize|
                    failed@.contains((a, b)) <==> a == i && shard_running(
                        old(self).model(),
                        i as int,
                        b as int,
                    ) && old(self).stop_fault(i as int, b as int)
            });

    /// Stops every tracked component and marks the network terminated,
    /// whatever the outcomes: failures are accumulated and reported, never
    /// retried indefinitely. On an already terminated network this is a
    /// no-op success that releases nothing again.
    fn terminate(&mut self) -> (r: Result<(), OrchestratorError>)
        requires
            old(self).inv(),
        ensures
            final(self).inv(),
            forall|a: int, b: int| #[trigger] final(self).start_fault(a, b) == old(self).start_fault(a, b),
            forall|a: int, b: int| #[trigger] final(self).stop_fault(a, b) == old(self).stop_fault(a, b),
            forall|a: int| #[trigger] final(self).config_fault(a) == old(self).config_fault(a),
            forall|a: int, b: int| #[trigger] final(self).ready_fault(a, b) == old(self).ready_fault(a, b),
            final(self).model().terminated,
            old(self).model().terminated ==> r is Ok && final(self).model() == old(self).model(),
            !old(self).model().terminated ==> final(self).model() == terminated_model(
                old(self).model(),
                (|a: int, b: int| old(self).stop_fault(a, b)),
            ),
            !old(self).model().terminated ==> (r is Ok <==> (forall|i: int, j: int|
                shard_running(old(self).model(), i, j) ==> !old(self).stop_fault(i, j))),
            r matches Err(e) ==> ({
                &&& e matches OrchestratorError::PartialTeardownFailure { failed }
                &&& forall|a: usize, b: usize|
                    failed@.contains((a, b)) <==> shard_running(
                        old(self).model(),
                        a as int,
                        b as int,
                    ) && old(self).stop_fault(a as int, b as int)
            });

    /// Pure lookup of the backend label of validator `i`; absent when the
    /// index is unknown or removed.
    fn validator_name(&self, i: usize) -> (r: Option<String>)
        requires
            self.inv(),
        ensures
            match r {
                Some(s) => valid_index(self.model(), i as int) && s@ == name_spec(
                    self.model().protocol,
                    i as nat,
                ),
                None => !valid_index(self.model(), i as int),
            },
    ;

    /// The lifecycle state the bookkeeping is in.
    fn state(&self) -> (r: crate::model::NetState)
        requires
            self.inv(),
        ensures
            r == crate::model::state_of(self.model()),
    ;

    /// Lists the backend resources this network currently holds: one entry
    /// per recorded-running shard, each listed once.
    fn list_resources(&self) -> (r: Vec<(usize, usize)>)
        requires
            self.inv(),
        ensures
            forall|a: usize, b: usize|
                #[trigger] r@.contains((a, b)) <==> shard_running(self.model(), a as int, b as int),
            forall|k1: int, k2: int| 0 <= k1 < k2 < r@.len() ==> r@[k1] != r@[k2],
    ;
}

/// The information needed to start a network of a particular kind.
pub trait LineraNetConfig: Sized {
    /// The kind of network this configuration starts.
    type Net: LineraNet;

    /// The declared wire protocol.
    spec fn network_spec(&self) -> Network;

    /// The declared number of validators.
    spec fn num_validators(&self) -> nat;

    /// The declared number of shards per validator.
    spec fn num_shards(&self) -> nat;

    /// The configuration declares at least one validator with at least one
    /// shard each.
    spec fn valid(&self) -> bool;

    /// The backend would fail to write the configuration artifact of
    /// validator `i`.
    spec fn config_fault(&self, i: int) -> bool;

    /// The backend would fail to start shard `j` of validator `i`.
    spec fn start_fault(&self, i: int, j: int) -> bool;

    /// Brings up the whole declared topology and hands back the running
    /// network with a client bound to its first validator. Atomic from the
    /// caller's view: on any partial failure everything already started is
    /// torn down again and only an error is returned.
    fn instantiate(self) -> (r: Result<(Self::Net, ClientWrapper), OrchestratorError>)
        requires
            self.valid(),
        ensures
            r matches Ok((net, client)) ==> ({
                &&& net.inv()
                &&& net.model() == crate::model::fresh_model(
                    self.network_spec(),
                    self.num_validators(),
                    self.num_shards(),
                    true,
                    true,
                )
                &&& forall|i: int, j: int|
                    #[trigger] net.start_fault(i, j) == self.start_fault(i, j)
                &&& forall|i: int| #[trigger] net.config_fault(i) == self.config_fault(i)
                &&& forall|i: int, j: int| !net.stop_fault(i, j)
                &&& forall|i: int, j: int| !net.ready_fault(i, j)
                &&& client.validator == 0
                &&& client.protocol == self.network_spec()
                &&& client.address@ == name_spec(self.network_spec(), 0)
            }),
            r is Ok <==> ({
                &&& forall|i: int| 0 <= i < self.num_validators() ==> !self.config_fault(i)
                &&& forall|i: int, j: int|
                    0 <= i < self.num_validators() && 0 <= j < self.num_shards()
                        ==> !self.start_fault(i, j)
            }),
            r matches Err(e) ==> ({
                ||| (e matches OrchestratorError::ConfigGenerationFailure { validator }
                    && 0 <= validator < self.num_validators() && self.config_fault(
                    validator as int,
                ))
                ||| (e matches OrchestratorError::BackendCommandFailure { validator, shard }
                    && 0 <= validator < self.num_validators() && 0 <= shard < self.num_shards()
                    && self.start_fault(validator as int, shard as int))
            });

    /// The declared wire protocol, as a value.
    fn get_network(&self) -> (r: Network)
        ensures
            r == self.network_spec(),
    ;
}

/// A network that a successful bring-up just returned — its bookkeeping is
/// the fresh fully-running model and no liveness fault is scripted — would
/// pass a readiness probe at once: it is in the running state, and every
/// recorded-running component answers, which is exactly the condition under
/// which `ensure_is_running` promises to return success.
pub proof fn lemma_instantiated_network_is_ready<T: LineraNet>(
    net: &T,
    p: Network,
    nv: nat,
    ns: nat,
)
    requires
        net.model() == crate::model::fresh_model(p, nv, ns, true, true),
        forall|i: int, j: int| !net.ready_fault(i, j),
    ensures
        crate::model::state_of(net.model()) == crate::model::NetState::Running,
        forall|i: int, j: int| shard_running(net.model(), i, j) ==> !net.ready_fault(i, j),
{
    crate::model::lemma_fresh_model_running(p, nv, ns);
}

} // verus!
