//! The mathematical model of a network's bookkeeping.
//!
//! A network is described by a [`NetModel`]: one slot per validator index,
//! where a slot is either a live [`ValidatorModel`] or empty (the validator
//! was removed; the index is never reused). Every lifecycle operation states
//! its effect as a transformation of this model, so that the recorded state
//! of the network is pinned down exactly, also when a backend command fails.

use vstd::prelude::*;
use crate::protocol::Network;
use crate::naming::name_spec;

verus! {

/// The recorded state of one live validator.
#[verifier::ext_equal]
pub struct ValidatorModel {
    /// The backend label of the validator.
    pub name: Seq<char>,
    /// Whether its configuration artifact has been generated.
    pub configured: bool,
    /// One entry per shard; `true` means the shard is recorded running.
    pub shards: Seq<bool>,
}

/// The bookkeeping of a whole network.
#[verifier::ext_equal]
pub struct NetModel {
    /// The wire protocol every component speaks.
    pub protocol: Network,
    /// How many shards each validator has.
    pub shards_per_validator: nat,
    /// Whether the network has been terminated.
    pub terminated: bool,
    /// One slot per validator index; `None` marks a removed validator.
    pub validators: Seq<Option<ValidatorModel>>,
}

/// The lifecycle state of a network.
#[derive(Copy, Clone, PartialEq, Eq, Structural, Debug)]
pub enum NetState {
    /// Every shard of every live validator is recorded running.
    Running,
    /// At least one shard is not running, but the network was not terminated.
    Degraded,
    /// The network was torn down; no operation may start components again.
    Terminated,
}

/// Validator index `i` refers to a live validator of `m`.
pub open spec fn valid_index(m: NetModel, i: int) -> bool {
    0 <= i < m.validators.len() && m.validators[i] is Some
}

/// The live validator at index `i`.
pub open spec fn live(m: NetModel, i: int) -> ValidatorModel {
    m.validators[i]->Some_0
}

/// Shard `j` of validator `i` is recorded running.
pub open spec fn shard_running(m: NetModel, i: int, j: int) -> bool {
    valid_index(m, i) && 0 <= j < live(m, i).shards.len() && live(m, i).shards[j]
}

/// Every shard of live validator `i` is recorded running.
pub open spec fn validator_fully_running(m: NetModel, i: int) -> bool {
    valid_index(m, i) && forall|j: int|
        0 <= j < live(m, i).shards.len() ==> live(m, i).shards[j]
}

/// Every shard of every live validator is recorded running.
pub open spec fn all_running(m: NetModel) -> bool {
    forall|i: int| valid_index(m, i) ==> #[trigger] validator_fully_running(m, i)
}

/// The lifecycle state of the bookkeeping `m`.
pub open spec fn state_of(m: NetModel) -> NetState {
    if m.terminated {
        NetState::Terminated
    } else if all_running(m) {
        NetState::Running
    } else {
        NetState::Degraded
    }
}

/// Well-formedness: every live validator has the declared number of shards
/// and carries the label derived from its index and the network's protocol.
pub open spec fn wf(m: NetModel) -> bool {
    forall|i: int| 0 <= i < m.validators.len() && #[trigger] m.validators[i] is Some ==> {
        &&& live(m, i).shards.len() == m.shards_per_validator
        &&& live(m, i).name == name_spec(m.protocol, i as nat)
    }
}

/// `m` with shard `j` of live validator `i` recorded as `val`.
pub open spec fn with_shard(m: NetModel, i: int, j: int, val: bool) -> NetModel {
    let v = live(m, i);
    NetModel {
        validators: m.validators.update(
            i,
            Some(ValidatorModel { shards: v.shards.update(j, val), ..v }),
        ),
        ..m
    }
}

/// `m` with the configuration artifact of live validator `i` recorded as
/// present (`c == true`) or absent.
pub open spec fn with_configured(m: NetModel, i: int, c: bool) -> NetModel {
    let v = live(m, i);
    NetModel {
        validators: m.validators.update(i, Some(ValidatorModel { configured: c, ..v })),
        ..m
    }
}

/// `m` with validator `i` removed from the tracked set. The slot stays,
/// empty, so no later validator ever takes index `i`.
pub open spec fn without_validator(m: NetModel, i: int) -> NetModel {
    NetModel { validators: m.validators.update(i, None), ..m }
}

/// `m` after an attempt to start every stopped shard of live validator `i`:
/// a shard ends running unless it was stopped and its start failed.
pub open spec fn with_validator_started(
    m: NetModel,
    i: int,
    fault: spec_fn(int, int) -> bool,
) -> NetModel {
    let v = live(m, i);
    NetModel {
        validators: m.validators.update(
            i,
            Some(
                ValidatorModel {
                    shards: Seq::new(v.shards.len(), |j: int| v.shards[j] || !fault(i, j)),
                    ..v
                },
            ),
        ),
        ..m
    }
}

/// `m` after an attempt to stop every running shard of live validator `i`:
/// a shard stays running exactly where its stop command failed.
pub open spec fn with_validator_stopped(
    m: NetModel,
    i: int,
    fault: spec_fn(int, int) -> bool,
) -> NetModel {
    let v = live(m, i);
    NetModel {
        validators: m.validators.update(
            i,
            Some(
                ValidatorModel {
                    shards: Seq::new(v.shards.len(), |j: int| v.shards[j] && fault(i, j)),
                    ..v
                },
            ),
        ),
        ..m
    }
}

/// `m` after an attempt to stop every running shard of every live
/// validator: a shard stays running exactly where its stop command failed.
pub open spec fn all_stopped_model(m: NetModel, fault: spec_fn(int, int) -> bool) -> NetModel {
    NetModel {
        validators: Seq::new(
            m.validators.len(),
            |i: int| match m.validators[i] {
                Some(v) => Some(
                    ValidatorModel {
                        shards: Seq::new(v.shards.len(), |j: int| v.shards[j] && fault(i, j)),
                        ..v
                    },
                ),
                None => None,
            },
        ),
        ..m
    }
}

/// `m` after teardown: every stop was attempted and the network is marked
/// terminated whatever the outcomes were.
pub open spec fn terminated_model(m: NetModel, fault: spec_fn(int, int) -> bool) -> NetModel {
    NetModel { terminated: true, ..all_stopped_model(m, fault) }
}

/// `m` after a successful bring-up: every live validator is configured and
/// every one of its shards is running.
pub open spec fn booted_model(m: NetModel) -> NetModel {
    NetModel {
        validators: Seq::new(
            m.validators.len(),
            |i: int| match m.validators[i] {
                Some(v) => Some(
                    ValidatorModel {
                        name: v.name,
                        configured: true,
                        shards: Seq::new(v.shards.len(), |j: int| true),
                    },
                ),
                None => None,
            },
        ),
        ..m
    }
}

/// The bookkeeping of a freshly declared network of `nv` validators with
/// `ns` shards each, all in the given `configured` / `running` state.
pub open spec fn fresh_model(
    p: Network,
    nv: nat,
    ns: nat,
    configured: bool,
    running: bool,
) -> NetModel {
    NetModel {
        protocol: p,
        shards_per_validator: ns,
        terminated: false,
        validators: Seq::new(
            nv,
            |i: int| Some(
                ValidatorModel {
                    name: name_spec(p, i as nat),
                    configured,
                    shards: Seq::new(ns, |j: int| running),
                },
            ),
        ),
    }
}

/// Starting a stopped shard and then stopping it again returns the
/// bookkeeping to exactly the state before the start: no record leaks.
pub proof fn lemma_start_then_stop_restores(m: NetModel, i: int, j: int)
    requires
        valid_index(m, i),
        0 <= j < live(m, i).shards.len(),
        !shard_running(m, i, j),
    ensures
        with_shard(with_shard(m, i, j, true), i, j, false) == m,
{
    assert(with_shard(with_shard(m, i, j, true), i, j, false) =~~= m);
}

/// A removed validator index stays removed under every lifecycle
/// transformation of the bookkeeping: no operation ever reuses it.
pub proof fn lemma_removed_never_reassigned(
    m: NetModel,
    k: int,
    i: int,
    j: int,
    val: bool,
    fault: spec_fn(int, int) -> bool,
)
    requires
        0 <= k < m.validators.len(),
        m.validators[k] is None,
    ensures
        valid_index(m, i) ==> with_shard(m, i, j, val).validators[k] is None,
        valid_index(m, i) ==> with_configured(m, i, val).validators[k] is None,
        valid_index(m, i) ==> with_validator_started(m, i, fault).validators[k] is None,
        valid_index(m, i) ==> with_validator_stopped(m, i, fault).validators[k] is None,
        0 <= i < m.validators.len() ==> without_validator(m, i).validators[k] is None,
        terminated_model(m, fault).validators[k] is None,
        booted_model(m).validators[k] is None,
{
}

/// A freshly booted network is fully running and well formed.
pub proof fn lemma_fresh_model_running(p: Network, nv: nat, ns: nat)
    ensures
        all_running(fresh_model(p, nv, ns, true, true)),
        state_of(fresh_model(p, nv, ns, true, true)) == NetState::Running,
        wf(fresh_model(p, nv, ns, true, true)),
        wf(fresh_model(p, nv, ns, false, false)),
{
    let m = fresh_model(p, nv, ns, true, true);
    assert forall|i: int| valid_index(m, i) implies #[trigger] validator_fully_running(
        m,
        i,
    ) by {
        assert(live(m, i).shards =~= Seq::new(ns, |j: int| true));
    }
}

/// Booting the stopped declaration of a fresh network yields exactly the
/// fresh running network.
pub proof fn lemma_booted_fresh(p: Network, nv: nat, ns: nat)
    ensures
        booted_model(fresh_model(p, nv, ns, false, false)) == fresh_model(p, nv, ns, true, true),
{
    assert(booted_model(fresh_model(p, nv, ns, false, false)) =~~= fresh_model(
        p,
        nv,
        ns,
        true,
        true,
    ));
}

} // verus!
