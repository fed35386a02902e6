//! A fully verified realization of the lifecycle contract.
//!
//! `ScriptedNet` keeps the orchestrator's bookkeeping in memory and models
//! the backend substrate by a scripted fault plan: lists of components whose
//! start, stop, configuration write or liveness probe would fail, as chaos
//! tests script them. Every lifecycle operation is proved against the
//! contract of [`crate::net::LineraNet`], so the bookkeeping stays
//! consistent with the scripted reality even when commands fail.

use vstd::prelude::*;
use crate::errors::OrchestratorError;
use crate::model::NetModel;
use crate::model::NetState;
use crate::model::ValidatorModel;
use crate::model::all_running;
use crate::model::all_stopped_model;
use crate::model::booted_model;
use crate::model::fresh_model;
use crate::model::live;
use crate::model::shard_running;
use crate::model::terminated_model;
use crate::model::valid_index;
use crate::model::validator_fully_running;
use crate::model::wf;
use crate::model::with_configured;
use crate::model::with_shard;
use crate::model::with_validator_started;
use crate::model::with_validator_stopped;
use crate::model::without_validator;
use crate::naming::validator_label;
use crate::net::ClientWrapper;
use crate::net::LineraNet;
use crate::net::LineraNetConfig;
use crate::protocol::Network;

verus! {

/// The pair `(i, j)` occurs in `s`.
pub open spec fn has_pair(s: Seq<(usize, usize)>, i: int, j: int) -> bool {
    exists|t: int| 0 <= t < s.len() && (#[trigger] s[t]).0 == i && s[t].1 == j
}

/// The index `i` occurs in `s`.
pub open spec fn has_idx(s: Seq<usize>, i: int) -> bool {
    exists|t: int| 0 <= t < s.len() && (#[trigger] s[t]) == i
}

/// Shard `b` of validator `i` is recorded running in `m`.
pub open spec fn shard_of(m: NetModel, i: int, b: int) -> bool {
    live(m, i).shards[b]
}

/// An element is in a concatenation exactly when it is in one of the parts.
proof fn lemma_concat_contains(s: Seq<(usize, usize)>, t: Seq<(usize, usize)>, y: (usize, usize))
    ensures
        (s + t).contains(y) <==> s.contains(y) || t.contains(y),
{
    if s.contains(y) {
        let k = choose|k: int| 0 <= k < s.len() && s[k] == y;
        assert((s + t)[k] == y);
    }
    if t.contains(y) {
        let k = choose|k: int| 0 <= k < t.len() && t[k] == y;
        assert((s + t)[s.len() + k] == y);
    }
    if (s + t).contains(y) {
        let k = choose|k: int| 0 <= k < (s + t).len() && (s + t)[k] == y;
        if k < s.len() {
            assert(s[k] == y);
        } else {
            assert(t[k - s.len()] == y);
        }
    }
}

/// Whether the pair `(i, j)` occurs in `v`.
fn contains_pair(v: &Vec<(usize, usize)>, i: usize, j: usize) -> (r: bool)
    ensures
        r == has_pair(v@, i as int, j as int),
{
    let mut k: usize = 0;
    while k < v.len()
        invariant
            k <= v@.len(),
            forall|t: int| 0 <= t < k ==> !((#[trigger] v@[t]).0 == i && v@[t].1 == j),
        decreases v@.len() - k,
    {
        let p = v[k];
        if p.0 == i && p.1 == j {
            return true;
        }
        k += 1;
    }
    false
}

/// Whether the index `i` occurs in `v`.
fn contains_idx(v: &Vec<usize>, i: usize) -> (r: bool)
    ensures
        r == has_idx(v@, i as int),
{
    let mut k: usize = 0;
    while k < v.len()
        invariant
            k <= v@.len(),
            forall|t: int| 0 <= t < k ==> (#[trigger] v@[t]) != i,
        decreases v@.len() - k,
    {
        if v[k] == i {
            return true;
        }
        k += 1;
    }
    false
}

/// Whether every entry of `v` is `true`.
fn all_true(v: &Vec<bool>) -> (r: bool)
    ensures
        r == (forall|t: int| 0 <= t < v@.len() ==> v@[t]),
{
    let mut k: usize = 0;
    while k < v.len()
        invariant
            k <= v@.len(),
            forall|t: int| 0 <= t < k ==> v@[t],
        decreases v@.len() - k,
    {
        if !v[k] {
            return false;
        }
        k += 1;
    }
    true
}

/// The in-memory record of one live validator.
struct Validator {
    name: String,
    configured: bool,
    shards: Vec<bool>,
}

impl Validator {
    /// The model of this record.
    spec fn model(&self) -> ValidatorModel {
        ValidatorModel { name: self.name@, configured: self.configured, shards: self.shards@ }
    }
}

/// The model of one validator slot.
spec fn slot_model(ov: Option<Validator>) -> Option<ValidatorModel> {
    match ov {
        Some(v) => Some(v.model()),
        None => None,
    }
}

/// A running network whose backend outcomes are scripted.
///
/// The backend substrate is modeled in memory: starting or stopping a shard
/// succeeds unless the fault plan lists it. Chaos tests inject faults to
/// exercise exactly the partial-failure paths of the lifecycle contract.
pub struct ScriptedNet {
    protocol: Network,
    num_shards: usize,
    terminated: bool,
    validators: Vec<Option<Validator>>,
    fail_start: Vec<(usize, usize)>,
    fail_stop: Vec<(usize, usize)>,
    fail_config: Vec<usize>,
    not_ready: Vec<(usize, usize)>,
}

/// The declared topology of a [`ScriptedNet`], together with the part of
/// the fault plan that acts at bring-up time.
pub struct ScriptedNetConfig {
    /// How many validators to declare; at least one.
    pub validators: usize,
    /// How many shards each validator has; at least one.
    pub shards: usize,
    /// The wire protocol every component speaks.
    pub protocol: Network,
    /// Validators whose configuration artifact fails to be written.
    pub fail_config: Vec<usize>,
    /// Shards whose start command fails.
    pub fail_start: Vec<(usize, usize)>,
}

impl ScriptedNet {
    /// Reads whether shard `j` of validator `i` is recorded running.
    fn shard_is_running(&self, i: usize, j: usize) -> (r: bool)
        requires
            self.inv(),
        ensures
            r == shard_running(self.model(), i as int, j as int),
    {
        if i >= self.validators.len() {
            return false;
        }
        match &self.validators[i] {
            Some(v) => {
                if j < v.shards.len() {
                    v.shards[j]
                } else {
                    false
                }
            },
            None => false,
        }
    }

    /// Reads whether every shard of validator `i` is recorded running.
    fn validator_all_running(&self, i: usize) -> (r: bool)
        requires
            self.inv(),
            i < self.model().validators.len(),
        ensures
            r == validator_fully_running(self.model(), i as int),
    {
        match &self.validators[i] {
            Some(v) => all_true(&v.shards),
            None => false,
        }
    }

    /// Records shard `j` of live validator `i` as `val`.
    fn set_shard(&mut self, i: usize, j: usize, val: bool)
        requires
            old(self).inv(),
            valid_index(old(self).model(), i as int),
            (j as nat) < old(self).model().shards_per_validator,
        ensures
            final(self).inv(),
            final(self).model() == with_shard(old(self).model(), i as int, j as int, val),
            final(self).fail_start@ == old(self).fail_start@,
            final(self).fail_stop@ == old(self).fail_stop@,
            final(self).fail_config@ == old(self).fail_config@,
            final(self).not_ready@ == old(self).not_ready@,
    {
        match &mut self.validators[i] {
            Some(v) => {
                v.shards[j] = val;
            },
            None => {
                proof {
                    assert(false);
                }
            },
        }
        proof {
            let m0 = old(self).model();
            let m1 = self.model();
            let tgt = with_shard(m0, i as int, j as int, val);
            assert forall|k: int| 0 <= k < m1.validators.len() implies m1.validators[k]
                == tgt.validators[k] by {
                if k == i as int {
                    assert(live(m0, k).shards.update(j as int, val)
                        == self.validators@[k]->Some_0.shards@);
                } else {
                    assert(self.validators@[k] == old(self).validators@[k]);
                }
            }
            assert(m1.validators =~= tgt.validators);
            assert(m1 =~= tgt);
            assert(wf(m1));
        }
    }

    /// Records the configuration artifact of live validator `i` as present
    /// or absent.
    fn set_configured(&mut self, i: usize, val: bool)
        requires
            old(self).inv(),
            valid_index(old(self).model(), i as int),
        ensures
            final(self).inv(),
            final(self).model() == with_configured(old(self).model(), i as int, val),
            final(self).fail_start@ == old(self).fail_start@,
            final(self).fail_stop@ == old(self).fail_stop@,
            final(self).fail_config@ == old(self).fail_config@,
            final(self).not_ready@ == old(self).not_ready@,
    {
        match &mut self.validators[i] {
            Some(v) => {
                v.configured = val;
            },
            None => {
                proof {
                    assert(false);
                }
            },
        }
        proof {
            let m0 = old(self).model();
            let m1 = self.model();
            let tgt = with_configured(m0, i as int, val);
            assert forall|k: int| 0 <= k < m1.validators.len() implies m1.validators[k]
                == tgt.validators[k] by {
                if k != i as int {
                    assert(self.validators@[k] == old(self).validators@[k]);
                }
            }
            assert(m1.validators =~= tgt.validators);
            assert(m1 =~= tgt);
            assert(wf(m1));
        }
    }

    /// Attempts to start every stopped shard of live validator `i`; the
    /// first shard whose start command fails is reported, the others are
    /// still attempted.
    fn start_all_shards(&mut self, i: usize) -> (ff: Option<usize>)
        requires
            old(self).inv(),
            valid_index(old(self).model(), i as int),
        ensures
            final(self).inv(),
            final(self).model() == with_validator_started(
                old(self).model(),
                i as int,
                (|a: int, b: int| old(self).start_fault(a, b)),
            ),
            final(self).fail_start@ == old(self).fail_start@,
            final(self).fail_stop@ == old(self).fail_stop@,
            final(self).fail_config@ == old(self).fail_config@,
            final(self).not_ready@ == old(self).not_ready@,
            ff is None <==> (forall|b: int|
                0 <= b < old(self).model().shards_per_validator && !live(
                    old(self).model(),
                    i as int,
                ).shards[b] ==> !old(self).start_fault(i as int, b)),
            ff matches Some(s) ==> 0 <= (s as int) < old(self).model().shards_per_validator
                && !live(old(self).model(), i as int).shards[s as int] && old(self).start_fault(
                i as int,
                s as int,
            ),
            ff is None ==> validator_fully_running(final(self).model(), i as int),
            ff is None ==> (forall|b: int|
                0 <= b < old(self).model().shards_per_validator && !live(
                    old(self).model(),
                    i as int,
                ).shards[b] ==> !final(self).start_fault(i as int, b)),
    {
        let ns = self.num_shards;
        let ghost m0 = self.model();
        let ghost fs0 = self.fail_start@;
        let mut ff: Option<usize> = None;
        let mut j: usize = 0;
        while j < ns
            invariant
                self.inv(),
                old(self).inv(),
                m0 == old(self).model(),
                fs0 == old(self).fail_start@,
                valid_index(m0, i as int),
                valid_index(self.model(), i as int),
                j <= ns,
                ns == self.num_shards,
                ns as nat == m0.shards_per_validator,
                self.model().validators.len() == m0.validators.len(),
                self.model().protocol == m0.protocol,
                self.model().shards_per_validator == m0.shards_per_validator,
                self.model().terminated == m0.terminated,
                forall|k: int|
                    0 <= k < self.model().validators.len() && k != i as int
                        ==> self.model().validators[k] == m0.validators[k],
                live(self.model(), i as int).name == live(m0, i as int).name,
                live(self.model(), i as int).configured == live(m0, i as int).configured,
                live(self.model(), i as int).shards.len() == ns as nat,
                live(m0, i as int).shards.len() == ns as nat,
                forall|b: int|
                    0 <= b < j ==> shard_of(self.model(), i as int, b) == (shard_of(
                        m0,
                        i as int,
                        b,
                    ) || !has_pair(fs0, i as int, b)),
                forall|b: int|
                    j <= b < ns ==> shard_of(self.model(), i as int, b) == shard_of(
                        m0,
                        i as int,
                        b,
                    ),
                match ff {
                    None => forall|b: int|
                        0 <= b < j ==> !(!shard_of(m0, i as int, b) && has_pair(fs0, i as int, b)),
                    Some(s) => 0 <= (s as int) < j && !shard_of(m0, i as int, s as int)
                        && has_pair(fs0, i as int, s as int),
                },
                self.fail_start@ == fs0,
                self.fail_stop@ == old(self).fail_stop@,
                self.fail_config@ == old(self).fail_config@,
                self.not_ready@ == old(self).not_ready@,
            decreases ns - j,
        {
            let ghost m_entry = self.model();
            proof {
                assert forall|b: int| 0 <= b < j implies shard_of(m_entry, i as int, b) == (
                shard_of(m0, i as int, b) || !has_pair(fs0, i as int, b)) by {
                    assert(shard_of(self.model(), i as int, b) == (shard_of(m0, i as int, b)
                        || !has_pair(fs0, i as int, b)));
                }
                assert forall|b: int| j <= b < ns implies shard_of(m_entry, i as int, b)
                    == shard_of(m0, i as int, b) by {
                    assert(shard_of(self.model(), i as int, b) == shard_of(m0, i as int, b));
                }
            }
            let was_running = self.shard_is_running(i, j);
            let has_fault = contains_pair(&self.fail_start, i, j);
            proof {
                assert(was_running == shard_of(m_entry, i as int, j as int));
            }
            if !was_running && has_fault {
                if ff.is_none() {
                    ff = Some(j);
                }
            } else if !was_running {
                self.set_shard(i, j, true);
            }
            proof {
                assert forall|b: int| 0 <= b <= j implies shard_of(self.model(), i as int, b)
                    == (shard_of(m0, i as int, b) || !has_pair(fs0, i as int, b)) by {
                    if b == j as int {
                        assert(shard_of(m_entry, i as int, b) == shard_of(m0, i as int, b));
                        if !was_running && !has_fault {
                            assert(live(self.model(), i as int).shards[b]);
                            assert(shard_of(self.model(), i as int, b));
                        } else {
                            assert(live(self.model(), i as int).shards[b] == live(
                                m_entry,
                                i as int,
                            ).shards[b]);
                            assert(shard_of(self.model(), i as int, b) == shard_of(
                                m_entry,
                                i as int,
                                b,
                            ));
                        }
                    } else {
                        assert(live(self.model(), i as int).shards[b] == live(
                            m_entry,
                            i as int,
                        ).shards[b]);
                        assert(shard_of(self.model(), i as int, b) == shard_of(
                            m_entry,
                            i as int,
                            b,
                        ));
                        assert(shard_of(m_entry, i as int, b) == (shard_of(m0, i as int, b)
                            || !has_pair(fs0, i as int, b)));
                    }
                }
                assert forall|b: int| j + 1 <= b < ns implies shard_of(
                    self.model(),
                    i as int,
                    b,
                ) == shard_of(m0, i as int, b) by {
                    assert(live(self.model(), i as int).shards[b] == live(
                        m_entry,
                        i as int,
                    ).shards[b]);
                    assert(shard_of(self.model(), i as int, b) == shard_of(m_entry, i as int, b));
                    assert(shard_of(m_entry, i as int, b) == shard_of(m0, i as int, b));
                }
            }
            j += 1;
        }
        proof {
            let tgt = with_validator_started(
                m0,
                i as int,
                (|a: int, b: int| old(self).start_fault(a, b)),
            );
            let starget = Seq::new(
                live(m0, i as int).shards.len(),
                |b: int| live(m0, i as int).shards[b] || !old(self).start_fault(i as int, b),
            );
            assert forall|b: int| 0 <= b < starget.len() implies live(
                self.model(),
                i as int,
            ).shards[b] == starget[b] by {
                assert(shard_of(self.model(), i as int, b) == (shard_of(m0, i as int, b)
                    || !has_pair(fs0, i as int, b)));
                assert(has_pair(old(self).fail_start@, i as int, b) == has_pair(
                    fs0,
                    i as int,
                    b,
                ));
            }
            assert(live(self.model(), i as int).shards =~= starget);
            assert forall|k: int| 0 <= k < self.model().validators.len() implies self
                .model().validators[k] == tgt.validators[k] by {
                if k == i as int {
                    assert(tgt.validators[k]->Some_0.shards =~= starget);
                    assert(live(self.model(), k).shards == starget);
                    assert(live(self.model(), k) =~= tgt.validators[k]->Some_0);
                } else {
                    assert(self.model().validators[k] == m0.validators[k]);
                }
            }
            assert(self.model().validators =~= tgt.validators);
            assert(self.model() =~= tgt);
            if ff is Some {
                let s = ff->Some_0;
                assert(!shard_of(m0, i as int, s as int) && has_pair(fs0, i as int, s as int));
                assert(old(self).start_fault(i as int, s as int) == has_pair(
                    old(self).fail_start@,
                    i as int,
                    s as int,
                ));
                assert(!(forall|b: int|
                    0 <= b < old(self).model().shards_per_validator && !live(
                        old(self).model(),
                        i as int,
                    ).shards[b] ==> !old(self).start_fault(i as int, b)));
            } else {
                assert forall|b: int|
                    0 <= b < old(self).model().shards_per_validator && !live(
                        old(self).model(),
                        i as int,
                    ).shards[b] implies !old(self).start_fault(i as int, b) by {
                    assert(!shard_of(m0, i as int, b) && !has_pair(fs0, i as int, b));
                    assert(has_pair(old(self).fail_start@, i as int, b) == has_pair(
                        fs0,
                        i as int,
                        b,
                    ));
                }
                assert forall|b: int|
                    0 <= b < live(self.model(), i as int).shards.len() implies live(
                    self.model(),
                    i as int,
                ).shards[b] by {
                    assert(shard_of(self.model(), i as int, b) == (shard_of(m0, i as int, b)
                        || !has_pair(fs0, i as int, b)));
                    if !shard_of(m0, i as int, b) {
                        assert(!has_pair(fs0, i as int, b));
                    }
                }
                assert(validator_fully_running(self.model(), i as int));
                assert forall|b: int|
                    0 <= b < old(self).model().shards_per_validator && !live(
                        old(self).model(),
                        i as int,
                    ).shards[b] implies !self.start_fault(i as int, b) by {
                    assert(!shard_of(m0, i as int, b));
                    assert(!has_pair(fs0, i as int, b));
                    assert(has_pair(self.fail_start@, i as int, b) == has_pair(fs0, i as int, b));
                }
            }
        }
        ff
    }

    /// Attempts to stop every running shard of live validator `i`; the
    /// shards whose stop command fails stay recorded running and are
    /// returned, not silently dropped.
    fn stop_all_shards(&mut self, i: usize) -> (failed: Vec<(usize, usize)>)
        requires
            old(self).inv(),
            valid_index(old(self).model(), i as int),
        ensures
            final(self).inv(),
            final(self).model() == with_validator_stopped(
                old(self).model(),
                i as int,
                (|a: int, b: int| old(self).stop_fault(a, b)),
            ),
            final(self).fail_start@ == old(self).fail_start@,
            final(self).fail_stop@ == old(self).fail_stop@,
            final(self).fail_config@ == old(self).fail_config@,
            final(self).not_ready@ == old(self).not_ready@,
            forall|a: usize, b: usize|
                #[trigger] failed@.contains((a, b)) <==> (a == i && shard_running(
                    old(self).model(),
                    i as int,
                    b as int,
                ) && old(self).stop_fault(i as int, b as int)),
    {
        let ns = self.num_shards;
        let ghost m0 = self.model();
        let ghost fs0 = self.fail_stop@;
        let mut failed: Vec<(usize, usize)> = Vec::new();
        let mut j: usize = 0;
        while j < ns
            invariant
                self.inv(),
                old(self).inv(),
                m0 == old(self).model(),
                fs0 == old(self).fail_stop@,
                valid_index(m0, i as int),
                valid_index(self.model(), i as int),
                j <= ns,
                ns == self.num_shards,
                ns as nat == m0.shards_per_validator,
                self.model().validators.len() == m0.validators.len(),
                self.model().protocol == m0.protocol,
                self.model().shards_per_validator == m0.shards_per_validator,
                self.model().terminated == m0.terminated,
                forall|k: int|
                    0 <= k < self.model().validators.len() && k != i as int
                        ==> self.model().validators[k] == m0.validators[k],
                live(self.model(), i as int).name == live(m0, i as int).name,
                live(self.model(), i as int).configured == live(m0, i as int).configured,
                live(self.model(), i as int).shards.len() == ns as nat,
                live(m0, i as int).shards.len() == ns as nat,
                forall|b: int|
                    0 <= b < j ==> shard_of(self.model(), i as int, b) == (shard_of(
                        m0,
                        i as int,
                        b,
                    ) && has_pair(fs0, i as int, b)),
                forall|b: int|
                    j <= b < ns ==> shard_of(self.model(), i as int, b) == shard_of(
                        m0,
                        i as int,
                        b,
                    ),
                forall|t: int|
                    0 <= t < failed@.len() ==> (#[trigger] failed@[t]).0 == i && (
                    failed@[t].1 as int) < j && shard_of(m0, i as int, failed@[t].1 as int)
                        && has_pair(fs0, i as int, failed@[t].1 as int),
                forall|b: int|
                    0 <= b < j && shard_of(m0, i as int, b) && has_pair(fs0, i as int, b)
                        ==> failed@.contains((i, b as usize)),
                self.fail_start@ == old(self).fail_start@,
                self.fail_stop@ == fs0,
                self.fail_config@ == old(self).fail_config@,
                self.not_ready@ == old(self).not_ready@,
            decreases ns - j,
        {
            let ghost m_entry = self.model();
            let ghost f0 = failed@;
            proof {
                assert forall|b: int| 0 <= b < j implies shard_of(m_entry, i as int, b) == (
                shard_of(m0, i as int, b) && has_pair(fs0, i as int, b)) by {
                    assert(shard_of(self.model(), i as int, b) == (shard_of(m0, i as int, b)
                        && has_pair(fs0, i as int, b)));
                }
                assert forall|b: int| j <= b < ns implies shard_of(m_entry, i as int, b)
                    == shard_of(m0, i as int, b) by {
                    assert(shard_of(self.model(), i as int, b) == shard_of(m0, i as int, b));
                }
            }
            let was_running = self.shard_is_running(i, j);
            let has_fault = contains_pair(&self.fail_stop, i, j);
            proof {
                assert(was_running == shard_of(m_entry, i as int, j as int));
            }
            if was_running && has_fault {
                failed.push((i, j));
            } else if was_running {
                self.set_shard(i, j, false);
            }
            proof {
                assert forall|b: int| 0 <= b <= j implies shard_of(self.model(), i as int, b)
                    == (shard_of(m0, i as int, b) && has_pair(fs0, i as int, b)) by {
                    if b == j as int {
                        assert(shard_of(m_entry, i as int, b) == shard_of(m0, i as int, b));
                        if was_running && !has_fault {
                            assert(!live(self.model(), i as int).shards[b]);
                            assert(!shard_of(self.model(), i as int, b));
                        } else {
                            assert(live(self.model(), i as int).shards[b] == live(
                                m_entry,
                                i as int,
                            ).shards[b]);
                            assert(shard_of(self.model(), i as int, b) == shard_of(
                                m_entry,
                                i as int,
                                b,
                            ));
                        }
                    } else {
                        assert(live(self.model(), i as int).shards[b] == live(
                            m_entry,
                            i as int,
                        ).shards[b]);
                        assert(shard_of(self.model(), i as int, b) == shard_of(
                            m_entry,
                            i as int,
                            b,
                        ));
                        assert(shard_of(m_entry, i as int, b) == (shard_of(m0, i as int, b)
                            && has_pair(fs0, i as int, b)));
                    }
                }
                assert forall|b: int| j + 1 <= b < ns implies shard_of(
                    self.model(),
                    i as int,
                    b,
                ) == shard_of(m0, i as int, b) by {
                    assert(live(self.model(), i as int).shards[b] == live(
                        m_entry,
                        i as int,
                    ).shards[b]);
                    assert(shard_of(self.model(), i as int, b) == shard_of(m_entry, i as int, b));
                    assert(shard_of(m_entry, i as int, b) == shard_of(m0, i as int, b));
                }
                assert forall|b: int|
                    0 <= b <= j && shard_of(m0, i as int, b) && has_pair(
                        fs0,
                        i as int,
                        b,
                    ) implies failed@.contains((i, b as usize)) by {
                    if b < j {
                        assert(f0.contains((i, b as usize)));
                        let t = choose|t: int| 0 <= t < f0.len() && f0[t] == (i, b as usize);
                        assert(failed@[t] == (i, b as usize));
                    } else {
                        assert(failed@[failed@.len() - 1] == (i, j));
                    }
                }
            }
            j += 1;
        }
        proof {
            let tgt = with_validator_stopped(
                m0,
                i as int,
                (|a: int, b: int| old(self).stop_fault(a, b)),
            );
            let starget = Seq::new(
                live(m0, i as int).shards.len(),
                |b: int| live(m0, i as int).shards[b] && old(self).stop_fault(i as int, b),
            );
            assert forall|b: int| 0 <= b < starget.len() implies live(
                self.model(),
                i as int,
            ).shards[b] == starget[b] by {
                assert(shard_of(self.model(), i as int, b) == (shard_of(m0, i as int, b)
                    && has_pair(fs0, i as int, b)));
                assert(has_pair(old(self).fail_stop@, i as int, b) == has_pair(fs0, i as int, b));
            }
            assert(live(self.model(), i as int).shards =~= starget);
            assert forall|k: int| 0 <= k < self.model().validators.len() implies self
                .model().validators[k] == tgt.validators[k] by {
                if k == i as int {
                    assert(tgt.validators[k]->Some_0.shards =~= starget);
                    assert(live(self.model(), k).shards == starget);
                    assert(live(self.model(), k) =~= tgt.validators[k]->Some_0);
                } else {
                    assert(self.model().validators[k] == m0.validators[k]);
                }
            }
            assert(self.model().validators =~= tgt.validators);
            assert(self.model() =~= tgt);
            assert forall|a: usize, b: usize| #[trigger] failed@.contains((a, b)) implies (a == i
                && shard_running(old(self).model(), i as int, b as int) && old(self).stop_fault(
                i as int,
                b as int,
            )) by {
                let t = choose|t: int| 0 <= t < failed@.len() && failed@[t] == (a, b);
                assert(failed@[t].0 == i);
                assert(shard_of(m0, i as int, b as int) && has_pair(fs0, i as int, b as int));
                assert(has_pair(old(self).fail_stop@, i as int, b as int) == has_pair(
                    fs0,
                    i as int,
                    b as int,
                ));
            }
            assert forall|a: usize, b: usize|
                a == i && shard_running(old(self).model(), i as int, b as int) && old(
                    self,
                ).stop_fault(i as int, b as int) implies #[trigger] failed@.contains((a, b)) by {
                assert(0 <= (b as int) < ns as int);
                assert(shard_of(m0, i as int, b as int));
                assert(has_pair(old(self).fail_stop@, i as int, b as int) == has_pair(
                    fs0,
                    i as int,
                    b as int,
                ));
                assert(has_pair(fs0, i as int, b as int));
            }
        }
        failed
    }

    /// Attempts to stop every running shard of every live validator; shards
    /// whose stop command fails stay recorded running.
    fn stop_everything(&mut self)
        requires
            old(self).inv(),
        ensures
            final(self).inv(),
            final(self).model() == all_stopped_model(
                old(self).model(),
                (|a: int, b: int| old(self).stop_fault(a, b)),
            ),
            final(self).fail_start@ == old(self).fail_start@,
            final(self).fail_stop@ == old(self).fail_stop@,
            final(self).fail_config@ == old(self).fail_config@,
            final(self).not_ready@ == old(self).not_ready@,
    {
        let n = self.validators.len();
        let ghost tgt = all_stopped_model(
            old(self).model(),
            (|a: int, b: int| old(self).stop_fault(a, b)),
        );
        let mut i: usize = 0;
        while i < n
            invariant
                self.inv(),
                old(self).inv(),
                i <= n,
                n == old(self).model().validators.len(),
                self.model().validators.len() == n,
                self.model().protocol == old(self).model().protocol,
                self.model().shards_per_validator == old(self).model().shards_per_validator,
                self.model().terminated == old(self).model().terminated,
                self.num_shards as nat == self.model().shards_per_validator,
                tgt == all_stopped_model(
                    old(self).model(),
                    (|a: int, b: int| old(self).stop_fault(a, b)),
                ),
                forall|k: int| 0 <= k < i ==> self.model().validators[k] == tgt.validators[k],
                forall|k: int|
                    i <= k < n ==> self.model().validators[k] == old(self).model().validators[k],
                self.fail_start@ == old(self).fail_start@,
                self.fail_stop@ == old(self).fail_stop@,
                self.fail_config@ == old(self).fail_config@,
                self.not_ready@ == old(self).not_ready@,
            decreases n - i,
        {
            let is_live = match &self.validators[i] {
                Some(_) => true,
                None => false,
            };
            if is_live {
                let ghost m_entry = self.model();
                let _failed = self.stop_all_shards(i);
                proof {
                    assert(live(self.model(), i as int).shards =~= Seq::new(
                        live(old(self).model(), i as int).shards.len(),
                        |b: int| live(old(self).model(), i as int).shards[b] && old(
                            self,
                        ).stop_fault(i as int, b),
                    ));
                    assert(live(self.model(), i as int) =~= tgt.validators[i as int]->Some_0);
                    assert(self.model().validators[i as int] == tgt.validators[i as int]);
                }
            } else {
                proof {
                    assert(self.model().validators[i as int] == tgt.validators[i as int]);
                }
            }
            i += 1;
        }
        proof {
            assert(self.model().validators =~= tgt.validators);
            assert(self.model() =~= tgt);
        }
    }
}

impl LineraNet for ScriptedNet {
    closed spec fn model(&self) -> NetModel {
        NetModel {
            protocol: self.protocol,
            shards_per_validator: self.num_shards as nat,
            terminated: self.terminated,
            validators: self.validators@.map_values(|ov: Option<Validator>| slot_model(ov)),
        }
    }

    closed spec fn inv(&self) -> bool {
        &&& wf(self.model())
        &&& 1 <= self.num_shards
    }

    closed spec fn start_fault(&self, i: int, j: int) -> bool {
        has_pair(self.fail_start@, i, j)
    }

    closed spec fn stop_fault(&self, i: int, j: int) -> bool {
        has_pair(self.fail_stop@, i, j)
    }

    closed spec fn config_fault(&self, i: int) -> bool {
        has_idx(self.fail_config@, i)
    }

    closed spec fn ready_fault(&self, i: int, j: int) -> bool {
        has_pair(self.not_ready@, i, j)
    }

    fn ensure_is_running(&mut self) -> (r: Result<(), OrchestratorError>) {
        let n = self.validators.len();
        let mut i: usize = 0;
        while i < n
            invariant
                self.inv(),
                !self.model().terminated,
                n == self.model().validators.len(),
                i <= n,
                forall|a: int, b: int|
                    0 <= a < i ==> !(shard_running(self.model(), a, b) && self.ready_fault(a, b)),
            decreases n - i,
        {
            let mut j: usize = 0;
            while j < self.num_shards
                invariant
                    self.inv(),
                    !self.model().terminated,
                    i < n,
                    n == self.model().validators.len(),
                    j <= self.num_shards,
                    self.num_shards as nat == self.model().shards_per_validator,
                    forall|b: int|
                        0 <= b < j ==> !(shard_running(self.model(), i as int, b)
                            && self.ready_fault(i as int, b)),
                decreases self.num_shards - j,
            {
                if self.shard_is_running(i, j) && contains_pair(&self.not_ready, i, j) {
                    proof {
                        assert(shard_running(old(self).model(), i as int, j as int));
                        assert(old(self).ready_fault(i as int, j as int));
                        assert(!(forall|a: int, b: int|
                            shard_running(old(self).model(), a, b) ==> !old(self).ready_fault(
                                a,
                                b,
                            )));
                    }
                    return Err(OrchestratorError::ReadinessTimeout { validator: i, shard: j });
                }
                j += 1;
            }
            proof {
                assert forall|b: int|
                    !(shard_running(self.model(), i as int, b) && self.ready_fault(
                        i as int,
                        b,
                    )) by {
                    if shard_running(self.model(), i as int, b) {
                        assert(0 <= b < self.model().shards_per_validator);
                    }
                }
            }
            i += 1;
        }
        Ok(())
    }

    fn make_client(&mut self) -> (c: ClientWrapper) {
        let n = self.validators.len();
        let mut i: usize = 0;
        while i < n && !self.validator_all_running(i)
            invariant
                self.inv(),
                n == self.model().validators.len(),
                i <= n,
                exists|w: int| validator_fully_running(self.model(), w),
                forall|k: int| 0 <= k < i ==> !validator_fully_running(self.model(), k),
            decreases n - i,
        {
            i += 1;
        }
        proof {
            if i >= n {
                let w = choose|w: int| validator_fully_running(self.model(), w);
                assert(valid_index(self.model(), w));
                assert(false);
            }
        }
        let address = validator_label(self.protocol, i);
        ClientWrapper { address, validator: i, protocol: self.protocol }
    }

    fn generate_validator_config(&mut self, i: usize) -> (r: Result<(), OrchestratorError>) {
        if i >= self.validators.len() {
            return Err(OrchestratorError::ValidatorNotFound { validator: i });
        }
        let is_live = match &self.validators[i] {
            Some(_) => true,
            None => false,
        };
        if !is_live {
            return Err(OrchestratorError::ValidatorNotFound { validator: i });
        }
        if contains_idx(&self.fail_config, i) {
            self.set_configured(i, false);
            Err(OrchestratorError::ConfigGenerationFailure { validator: i })
        } else {
            self.set_configured(i, true);
            Ok(())
        }
    }

    fn start_server(&mut self, i: usize, j: usize) -> (r: Result<(), OrchestratorError>) {
        if i >= self.validators.len() {
            return Err(OrchestratorError::ValidatorNotFound { validator: i });
        }
        let is_live = match &self.validators[i] {
            Some(_) => true,
            None => false,
        };
        if !is_live {
            return Err(OrchestratorError::ValidatorNotFound { validator: i });
        }
        if contains_pair(&self.fail_start, i, j) {
            Err(OrchestratorError::BackendCommandFailure { validator: i, shard: j })
        } else {
            self.set_shard(i, j, true);
            Ok(())
        }
    }

    fn terminate_server(&mut self, i: usize, j: usize) -> (r: Result<(), OrchestratorError>) {
        if i >= self.validators.len() {
            return Err(OrchestratorError::ValidatorNotFound { validator: i });
        }
        let is_live = match &self.validators[i] {
            Some(_) => true,
            None => false,
        };
        if !is_live {
            return Err(OrchestratorError::ValidatorNotFound { validator: i });
        }
        if contains_pair(&self.fail_stop, i, j) {
            Err(OrchestratorError::BackendCommandFailure { validator: i, shard: j })
        } else {
            self.set_shard(i, j, false);
            Ok(())
        }
    }

    fn start_validator(&mut self, i: usize) -> (r: Result<(), OrchestratorError>) {
        if i >= self.validators.len() {
            return Err(OrchestratorError::ValidatorNotFound { validator: i });
        }
        let is_live = match &self.validators[i] {
            Some(_) => true,
            None => false,
        };
        if !is_live {
            return Err(OrchestratorError::ValidatorNotFound { validator: i });
        }
        let ff = self.start_all_shards(i);
        match ff {
            None => Ok(()),
            Some(s) => Err(OrchestratorError::BackendCommandFailure { validator: i, shard: s }),
        }
    }

    fn remove_validator(&mut self, i: usize) -> (r: Result<(), OrchestratorError>) {
        if i >= self.validators.len() {
            return Err(OrchestratorError::ValidatorNotFound { validator: i });
        }
        let is_live = match &self.validators[i] {
            Some(_) => true,
            None => false,
        };
        if !is_live {
            return Err(OrchestratorError::ValidatorNotFound { validator: i });
        }
        let failed = self.stop_all_shards(i);
        if failed.is_empty() {
            proof {
                assert forall|b: int|
                    shard_running(old(self).model(), i as int, b) implies !old(self).stop_fault(
                    i as int,
                    b,
                ) by {
                    if old(self).stop_fault(i as int, b) {
                        assert(failed@.contains((i, b as usize)));
                    }
                }
            }
            let ghost m_mid = self.model();
            proof {
                assert(m_mid == with_validator_stopped(
                    old(self).model(),
                    i as int,
                    (|a: int, b: int| old(self).stop_fault(a, b)),
                ));
                assert(m_mid.validators.len() == old(self).model().validators.len());
                assert(self.validators@.len() == m_mid.validators.len());
            }
            self.validators[i] = None;
            proof {
                let m0 = old(self).model();
                let m1 = self.model();
                let tgt = without_validator(m0, i as int);
                assert forall|k: int| 0 <= k < m1.validators.len() implies m1.validators[k]
                    == tgt.validators[k] by {
                    if k != i as int {
                        assert(m1.validators[k] == m_mid.validators[k]);
                    }
                }
                assert(m1.validators =~= tgt.validators);
                assert(m1 =~= tgt);
                assert(wf(m1));
            }
            Ok(())
        } else {
            proof {
                let p0 = failed@[0];
                assert(failed@.contains(p0));
                assert(failed@.contains((p0.0, p0.1)));
                assert(shard_running(old(self).model(), i as int, p0.1 as int) && old(
                    self,
                ).stop_fault(i as int, p0.1 as int));
            }
            Err(OrchestratorError::PartialTeardownFailure { failed })
        }
    }

    fn terminate(&mut self) -> (r: Result<(), OrchestratorError>) {
        if self.terminated {
            return Ok(());
        }
        let n = self.validators.len();
        let ghost tgt = all_stopped_model(
            old(self).model(),
            (|a: int, b: int| old(self).stop_fault(a, b)),
        );
        let mut failed: Vec<(usize, usize)> = Vec::new();
        let mut i: usize = 0;
        while i < n
            invariant
                self.inv(),
                old(self).inv(),
                !self.model().terminated,
                !old(self).model().terminated,
                i <= n,
                n == old(self).model().validators.len(),
                self.model().validators.len() == n,
                self.model().protocol == old(self).model().protocol,
                self.model().shards_per_validator == old(self).model().shards_per_validator,
                self.num_shards as nat == self.model().shards_per_validator,
                tgt == all_stopped_model(
                    old(self).model(),
                    (|a: int, b: int| old(self).stop_fault(a, b)),
                ),
                forall|k: int| 0 <= k < i ==> self.model().validators[k] == tgt.validators[k],
                forall|k: int|
                    i <= k < n ==> self.model().validators[k] == old(self).model().validators[k],
                forall|a: usize, b: usize|
                    #[trigger] failed@.contains((a, b)) <==> ((a as int) < i && shard_running(
                        old(self).model(),
                        a as int,
                        b as int,
                    ) && old(self).stop_fault(a as int, b as int)),
                self.fail_start@ == old(self).fail_start@,
                self.fail_stop@ == old(self).fail_stop@,
                self.fail_config@ == old(self).fail_config@,
                self.not_ready@ == old(self).not_ready@,
            decreases n - i,
        {
            let is_live = match &self.validators[i] {
                Some(_) => true,
                None => false,
            };
            let ghost f0 = failed@;
            if is_live {
                let mut f = self.stop_all_shards(i);
                let ghost fi = f@;
                failed.append(&mut f);
                proof {
                    assert(live(self.model(), i as int).shards =~= Seq::new(
                        live(old(self).model(), i as int).shards.len(),
                        |b: int| live(old(self).model(), i as int).shards[b] && old(
                            self,
                        ).stop_fault(i as int, b),
                    ));
                    assert(live(self.model(), i as int) =~= tgt.validators[i as int]->Some_0);
                    assert(self.model().validators[i as int] == tgt.validators[i as int]);
                    assert forall|a: usize, b: usize| #[trigger] failed@.contains((a, b))
                        <==> ((a as int) < i + 1 && shard_running(
                        old(self).model(),
                        a as int,
                        b as int,
                    ) && old(self).stop_fault(a as int, b as int)) by {
                        lemma_concat_contains(f0, fi, (a, b));
                    }
                }
            } else {
                proof {
                    assert(self.model().validators[i as int] == tgt.validators[i as int]);
                    assert forall|a: usize, b: usize| #[trigger] failed@.contains((a, b))
                        <==> ((a as int) < i + 1 && shard_running(
                        old(self).model(),
                        a as int,
                        b as int,
                    ) && old(self).stop_fault(a as int, b as int)) by {
                        if a == i {
                            assert(!shard_running(old(self).model(), a as int, b as int));
                        }
                    }
                }
            }
            i += 1;
        }
        self.terminated = true;
        proof {
            let m1 = self.model();
            let full = terminated_model(
                old(self).model(),
                (|a: int, b: int| old(self).stop_fault(a, b)),
            );
            assert(m1.validators =~= full.validators);
            assert(m1 =~= full);
            assert(wf(m1));
            assert forall|a: usize, b: usize| #[trigger] failed@.contains((a, b)) <==> (
            shard_running(old(self).model(), a as int, b as int) && old(self).stop_fault(
                a as int,
                b as int,
            )) by {
                if shard_running(old(self).model(), a as int, b as int) {
                    assert((a as int) < n);
                }
            }
        }
        if failed.is_empty() {
            proof {
                assert forall|a: int, b: int|
                    shard_running(old(self).model(), a, b) implies !old(self).stop_fault(a, b) by {
                    if old(self).stop_fault(a, b) {
                        assert(0 <= a && 0 <= b);
                        assert(failed@.contains((a as usize, b as usize)));
                    }
                }
            }
            Ok(())
        } else {
            proof {
                let p0 = failed@[0];
                assert(failed@.contains(p0));
                assert(failed@.contains((p0.0, p0.1)));
                assert(shard_running(old(self).model(), p0.0 as int, p0.1 as int) && old(
                    self,
                ).stop_fault(p0.0 as int, p0.1 as int));
            }
            Err(OrchestratorError::PartialTeardownFailure { failed })
        }
    }

    fn validator_name(&self, i: usize) -> (r: Option<String>) {
        if i >= self.validators.len() {
            return None;
        }
        match &self.validators[i] {
            Some(v) => Some(v.name.clone()),
            None => None,
        }
    }

    fn state(&self) -> (r: NetState) {
        if self.terminated {
            return NetState::Terminated;
        }
        let n = self.validators.len();
        let mut i: usize = 0;
        while i < n
            invariant
                self.inv(),
                !self.model().terminated,
                i <= n,
                n == self.model().validators.len(),
                forall|k: int|
                    0 <= k < i && valid_index(self.model(), k) ==> validator_fully_running(
                        self.model(),
                        k,
                    ),
            decreases n - i,
        {
            let is_live = match &self.validators[i] {
                Some(_) => true,
                None => false,
            };
            if is_live && !self.validator_all_running(i) {
                proof {
                    assert(valid_index(self.model(), i as int));
                    assert(!all_running(self.model()));
                }
                return NetState::Degraded;
            }
            i += 1;
        }
        proof {
            assert forall|k: int| valid_index(self.model(), k) implies validator_fully_running(
                self.model(),
                k,
            ) by {
                assert(0 <= k < n);
            }
        }
        NetState::Running
    }

    fn list_resources(&self) -> (r: Vec<(usize, usize)>) {
        let n = self.validators.len();
        let mut out: Vec<(usize, usize)> = Vec::new();
        let mut i: usize = 0;
        while i < n
            invariant
                self.inv(),
                i <= n,
                n == self.model().validators.len(),
                forall|a: usize, b: usize|
                    #[trigger] out@.contains((a, b)) <==> ((a as int) < i && shard_running(
                        self.model(),
                        a as int,
                        b as int,
                    )),
                forall|t: int| 0 <= t < out@.len() ==> ((#[trigger] out@[t]).0 as int) < i,
                forall|t1: int, t2: int| 0 <= t1 < t2 < out@.len() ==> out@[t1] != out@[t2],
            decreases n - i,
        {
            let ns = self.num_shards;
            let mut j: usize = 0;
            while j < ns
                invariant
                    self.inv(),
                    i < n,
                    j <= ns,
                    n == self.model().validators.len(),
                    self.num_shards == ns,
                    ns as nat == self.model().shards_per_validator,
                    forall|a: usize, b: usize|
                        #[trigger] out@.contains((a, b)) <==> (((a as int) < i && shard_running(
                            self.model(),
                            a as int,
                            b as int,
                        )) || (a == i && (b as int) < j && shard_running(
                            self.model(),
                            a as int,
                            b as int,
                        ))),
                    forall|t: int|
                        0 <= t < out@.len() ==> (((#[trigger] out@[t]).0 as int) < i || (out@[t].0
                            == i && (out@[t].1 as int) < j)),
                    forall|t1: int, t2: int| 0 <= t1 < t2 < out@.len() ==> out@[t1] != out@[t2],
                decreases ns - j,
            {
                let ghost o0 = out@;
                if self.shard_is_running(i, j) {
                    out.push((i, j));
                }
                proof {
                    assert forall|a: usize, b: usize| #[trigger] out@.contains((a, b)) implies ((
                    (a as int) < i && shard_running(self.model(), a as int, b as int)) || (a == i
                        && (b as int) < j + 1 && shard_running(
                        self.model(),
                        a as int,
                        b as int,
                    ))) by {
                        let t = choose|t: int| 0 <= t < out@.len() && out@[t] == (a, b);
                        if t < o0.len() {
                            assert(o0[t] == (a, b));
                            assert(o0.contains((a, b)));
                        }
                    }
                    assert forall|a: usize, b: usize|
                        (((a as int) < i && shard_running(self.model(), a as int, b as int)) || (a
                            == i && (b as int) < j + 1 && shard_running(
                            self.model(),
                            a as int,
                            b as int,
                        ))) implies #[trigger] out@.contains((a, b)) by {
                        if a == i && b == j {
                            assert(out@[out@.len() - 1] == (a, b));
                        } else {
                            assert(o0.contains((a, b)));
                            let t = choose|t: int| 0 <= t < o0.len() && o0[t] == (a, b);
                            assert(out@[t] == (a, b));
                        }
                    }
                }
                j += 1;
            }
            proof {
                assert forall|a: usize, b: usize| #[trigger] out@.contains((a, b)) implies ((
                a as int) < i + 1 && shard_running(self.model(), a as int, b as int)) by {}
                assert forall|a: usize, b: usize|
                    (a as int) < i + 1 && shard_running(self.model(), a as int, b as int) implies
                    #[trigger] out@.contains((a, b)) by {
                    if a as int == i as int {
                        assert(0 <= (b as int) < self.model().shards_per_validator);
                    }
                }
            }
            i += 1;
        }
        out
    }
}

impl ScriptedNet {
    /// Declares the bookkeeping of the configured topology without touching
    /// the backend: every validator is tracked, unconfigured and stopped.
    pub fn new_stopped(config: ScriptedNetConfig) -> (n: ScriptedNet)
        requires
            config.valid(),
        ensures
            n.inv(),
            n.model() == fresh_model(
                config.network_spec(),
                config.num_validators(),
                config.num_shards(),
                false,
                false,
            ),
            forall|a: int, b: int| #[trigger] n.start_fault(a, b) == config.start_fault(a, b),
            forall|a: int| #[trigger] n.config_fault(a) == config.config_fault(a),
            forall|a: int, b: int| !n.stop_fault(a, b),
            forall|a: int, b: int| !n.ready_fault(a, b),
    {
        let nv = config.validators;
        let ns = config.shards;
        let p = config.protocol;
        let ghost tgt = fresh_model(p, nv as nat, ns as nat, false, false);
        let mut validators: Vec<Option<Validator>> = Vec::new();
        let mut i: usize = 0;
        while i < nv
            invariant
                validators@.len() == i,
                i <= nv,
                tgt == fresh_model(p, nv as nat, ns as nat, false, false),
                forall|k: int|
                    0 <= k < i ==> slot_model(#[trigger] validators@[k]) == tgt.validators[k],
            decreases nv - i,
        {
            let name = validator_label(p, i);
            let shards = vec![false; ns];
            proof {
                assert(shards@ =~= Seq::new(ns as nat, |b: int| false));
            }
            validators.push(Some(Validator { name, configured: false, shards }));
            proof {
                assert(slot_model(validators@[i as int]) == tgt.validators[i as int]);
            }
            i += 1;
        }
        let net = ScriptedNet {
            protocol: p,
            num_shards: ns,
            terminated: false,
            validators,
            fail_start: config.fail_start,
            fail_stop: Vec::new(),
            fail_config: config.fail_config,
            not_ready: Vec::new(),
        };
        proof {
            assert(net.model().validators =~= tgt.validators);
            assert(net.model() =~= tgt);
            assert(wf(net.model()));
        }
        net
    }

    /// Generates every live validator's configuration artifact and starts
    /// all of its shards, in index order. Atomic: at the first failure,
    /// everything already started is stopped again and only the error is
    /// returned. Requires a fault plan without stop faults, so the rollback
    /// itself cannot fail.
    pub fn boot(&mut self) -> (r: Result<(), OrchestratorError>)
        requires
            old(self).inv(),
            !old(self).model().terminated,
            forall|a: int, b: int| !old(self).stop_fault(a, b),
            forall|a: int, b: int| !shard_running(old(self).model(), a, b),
        ensures
            final(self).inv(),
            forall|a: int, b: int|
                #[trigger] final(self).start_fault(a, b) == old(self).start_fault(a, b),
            forall|a: int, b: int|
                #[trigger] final(self).stop_fault(a, b) == old(self).stop_fault(a, b),
            forall|a: int| #[trigger] final(self).config_fault(a) == old(self).config_fault(a),
            forall|a: int, b: int|
                #[trigger] final(self).ready_fault(a, b) == old(self).ready_fault(a, b),
            r is Ok <==> ({
                &&& forall|a: int| valid_index(old(self).model(), a) ==> !old(self).config_fault(a)
                &&& forall|a: int, b: int|
                    valid_index(old(self).model(), a) && 0 <= b < old(
                        self,
                    ).model().shards_per_validator ==> !old(self).start_fault(a, b)
            }),
            r is Ok ==> final(self).model() == booted_model(old(self).model()),
            r is Err ==> (forall|a: int, b: int| !shard_running(final(self).model(), a, b)),
            r is Err ==> final(self).model().terminated == old(self).model().terminated,
            r matches Err(e) ==> ({
                ||| (e matches OrchestratorError::ConfigGenerationFailure { validator }
                    && valid_index(old(self).model(), validator as int) && old(self).config_fault(
                    validator as int,
                ))
                ||| (e matches OrchestratorError::BackendCommandFailure { validator, shard }
                    && valid_index(old(self).model(), validator as int) && 0 <= (shard as int)
                    < old(self).model().shards_per_validator && old(self).start_fault(
                    validator as int,
                    shard as int,
                ))
            }),
    {
        let n = self.validators.len();
        let ghost m0b = self.model();
        let ghost fs_start = self.fail_start@;
        let ghost fs_stop = self.fail_stop@;
        let ghost fs_cfg = self.fail_config@;
        let ghost btgt = booted_model(old(self).model());
        proof {
            assert forall|a: int, b: int| !has_pair(fs_stop, a, b) by {
                assert(!old(self).stop_fault(a, b));
            }
            assert forall|a: int, b: int| !shard_running(m0b, a, b) by {
                assert(!shard_running(old(self).model(), a, b));
            }
        }
        let mut i: usize = 0;
        while i < n
            invariant
                self.inv(),
                old(self).inv(),
                m0b == old(self).model(),
                fs_start == old(self).fail_start@,
                fs_stop == old(self).fail_stop@,
                fs_cfg == old(self).fail_config@,
                btgt == booted_model(m0b),
                !self.model().terminated,
                !m0b.terminated,
                i <= n,
                n == m0b.validators.len(),
                self.model().validators.len() == n,
                self.model().protocol == m0b.protocol,
                self.model().shards_per_validator == m0b.shards_per_validator,
                self.num_shards as nat == self.model().shards_per_validator,
                forall|a: int, b: int| !has_pair(fs_stop, a, b),
                forall|a: int, b: int| !shard_running(m0b, a, b),
                forall|k: int| 0 <= k < i ==> self.model().validators[k] == btgt.validators[k],
                forall|k: int| i <= k < n ==> self.model().validators[k] == m0b.validators[k],
                forall|k: int| 0 <= k < i && valid_index(m0b, k) ==> !has_idx(fs_cfg, k),
                forall|k: int, b: int|
                    0 <= k < i && valid_index(m0b, k) && 0 <= b < m0b.shards_per_validator
                        ==> !has_pair(fs_start, k, b),
                self.fail_start@ == fs_start,
                self.fail_stop@ == fs_stop,
                self.fail_config@ == fs_cfg,
                self.not_ready@ == old(self).not_ready@,
            decreases n - i,
        {
            let ghost m_it = self.model();
            proof {
                assert(self.model().validators[i as int] == m0b.validators[i as int]);
            }
            let is_live = match &self.validators[i] {
                Some(_) => true,
                None => false,
            };
            if is_live {
                if contains_idx(&self.fail_config, i) {
                    self.stop_everything();
                    proof {
                        assert forall|a: int, b: int| !shard_running(self.model(), a, b) by {
                            if 0 <= a < self.model().validators.len() && self.model().validators[a]
                                is Some {
                                assert(!has_pair(fs_stop, a, b));
                            }
                        }
                        assert(valid_index(old(self).model(), i as int));
                        assert(old(self).config_fault(i as int));
                        assert(!(forall|a: int|
                            valid_index(old(self).model(), a) ==> !old(self).config_fault(a)));
                    }
                    return Err(OrchestratorError::ConfigGenerationFailure { validator: i });
                }
                self.set_configured(i, true);
                let ghost m_cfg = self.model();
                let ff = self.start_all_shards(i);
                match ff {
                    Some(s) => {
                        proof {
                            assert(live(m_cfg, i as int).shards[s as int] == live(
                                m_it,
                                i as int,
                            ).shards[s as int]);
                            assert(valid_index(old(self).model(), i as int));
                            assert(has_pair(fs_start, i as int, s as int));
                            assert(old(self).start_fault(i as int, s as int) == has_pair(
                                fs_start,
                                i as int,
                                s as int,
                            ));
                            assert(0 <= (s as int) < old(self).model().shards_per_validator);
                            assert(!(forall|a: int, b: int|
                                valid_index(old(self).model(), a) && 0 <= b < old(
                                    self,
                                ).model().shards_per_validator ==> !old(self).start_fault(a, b)));
                        }
                        self.stop_everything();
                        proof {
                            assert forall|a: int, b: int| !shard_running(self.model(), a, b) by {
                                if 0 <= a < self.model().validators.len()
                                    && self.model().validators[a] is Some {
                                    assert(!has_pair(fs_stop, a, b));
                                }
                            }
                        }
                        return Err(
                            OrchestratorError::BackendCommandFailure { validator: i, shard: s },
                        );
                    },
                    None => {
                        proof {
                            assert(validator_fully_running(self.model(), i as int));
                            assert(live(self.model(), i as int).shards =~= Seq::new(
                                live(self.model(), i as int).shards.len(),
                                |b: int| true,
                            ));
                            assert(live(self.model(), i as int).configured == live(
                                m_cfg,
                                i as int,
                            ).configured);
                            assert(live(self.model(), i as int).name == live(
                                m_cfg,
                                i as int,
                            ).name);
                            assert(live(m_cfg, i as int).name == live(m_it, i as int).name);
                            assert(live(self.model(), i as int).shards.len() == live(
                                m_it,
                                i as int,
                            ).shards.len());
                            assert(live(self.model(), i as int) =~= btgt.validators[
                                i as int
                            ]->Some_0);
                            assert(self.model().validators[i as int] == btgt.validators[i as int]);
                            assert forall|b: int|
                                0 <= b < m0b.shards_per_validator implies !has_pair(
                                fs_start,
                                i as int,
                                b,
                            ) by {
                                assert(!shard_running(m0b, i as int, b));
                                assert(live(m_cfg, i as int).shards == live(
                                    m_it,
                                    i as int,
                                ).shards);
                                assert(!live(m_cfg, i as int).shards[b]);
                                assert(!self.start_fault(i as int, b));
                                assert(has_pair(self.fail_start@, i as int, b) == has_pair(
                                    fs_start,
                                    i as int,
                                    b,
                                ));
                            }
                        }
                    },
                }
            } else {
                proof {
                    assert(self.model().validators[i as int] == btgt.validators[i as int]);
                }
            }
            i += 1;
        }
        proof {
            assert(self.model().validators =~= btgt.validators);
            assert(self.model() =~= btgt);
            assert forall|a: int| valid_index(old(self).model(), a) implies !old(
                self,
            ).config_fault(a) by {
                assert(valid_index(m0b, a));
                assert(0 <= a < n);
                assert(!has_idx(fs_cfg, a));
                assert(old(self).config_fault(a) == has_idx(fs_cfg, a));
            }
            assert forall|a: int, b: int|
                valid_index(old(self).model(), a) && 0 <= b < old(
                    self,
                ).model().shards_per_validator implies !old(self).start_fault(a, b) by {
                assert(valid_index(m0b, a));
                assert(0 <= a < n);
                assert(!has_pair(fs_start, a, b));
                assert(old(self).start_fault(a, b) == has_pair(fs_start, a, b));
            }
        }
        Ok(())
    }

    /// Scripts a later start of shard `j` of validator `i` to fail.
    pub fn inject_start_failure(&mut self, i: usize, j: usize)
        requires
            old(self).inv(),
        ensures
            final(self).inv(),
            final(self).model() == old(self).model(),
            forall|a: int, b: int|
                #[trigger] final(self).start_fault(a, b) <==> (old(self).start_fault(a, b) || (a
                    == i && b == j)),
            forall|a: int, b: int|
                #[trigger] final(self).stop_fault(a, b) == old(self).stop_fault(a, b),
            forall|a: int| #[trigger] final(self).config_fault(a) == old(self).config_fault(a),
            forall|a: int, b: int|
                #[trigger] final(self).ready_fault(a, b) == old(self).ready_fault(a, b),
    {
        self.fail_start.push((i, j));
        proof {
            assert forall|a: int, b: int|
                #[trigger] self.start_fault(a, b) <==> (old(self).start_fault(a, b) || (a == i && b
                    == j)) by {
                if self.start_fault(a, b) {
                    let t = choose|t: int|
                        0 <= t < self.fail_start@.len() && (#[trigger] self.fail_start@[t]).0 == a
                            && self.fail_start@[t].1 == b;
                    if t < old(self).fail_start@.len() {
                        assert(old(self).fail_start@[t].0 == a);
                    }
                }
                if old(self).start_fault(a, b) {
                    let t = choose|t: int|
                        0 <= t < old(self).fail_start@.len() && (#[trigger] old(
                            self,
                        ).fail_start@[t]).0 == a && old(self).fail_start@[t].1 == b;
                    assert(self.fail_start@[t].0 == a && self.fail_start@[t].1 == b);
                }
                if a == i && b == j {
                    assert(self.fail_start@[self.fail_start@.len() - 1].0 == a);
                }
            }
        }
    }

    /// Scripts a later stop of shard `j` of validator `i` to fail.
    pub fn inject_stop_failure(&mut self, i: usize, j: usize)
        requires
            old(self).inv(),
        ensures
            final(self).inv(),
            final(self).model() == old(self).model(),
            forall|a: int, b: int|
                #[trigger] final(self).stop_fault(a, b) <==> (old(self).stop_fault(a, b) || (a == i
                    && b == j)),
            forall|a: int, b: int|
                #[trigger] final(self).start_fault(a, b) == old(self).start_fault(a, b),
            forall|a: int| #[trigger] final(self).config_fault(a) == old(self).config_fault(a),
            forall|a: int, b: int|
                #[trigger] final(self).ready_fault(a, b) == old(self).ready_fault(a, b),
    {
        self.fail_stop.push((i, j));
        proof {
            assert forall|a: int, b: int|
                #[trigger] self.stop_fault(a, b) <==> (old(self).stop_fault(a, b) || (a == i && b
                    == j)) by {
                if self.stop_fault(a, b) {
                    let t = choose|t: int|
                        0 <= t < self.fail_stop@.len() && (#[trigger] self.fail_stop@[t]).0 == a
                            && self.fail_stop@[t].1 == b;
                    if t < old(self).fail_stop@.len() {
                        assert(old(self).fail_stop@[t].0 == a);
                    }
                }
                if old(self).stop_fault(a, b) {
                    let t = choose|t: int|
                        0 <= t < old(self).fail_stop@.len() && (#[trigger] old(
                            self,
                        ).fail_stop@[t]).0 == a && old(self).fail_stop@[t].1 == b;
                    assert(self.fail_stop@[t].0 == a && self.fail_stop@[t].1 == b);
                }
                if a == i && b == j {
                    assert(self.fail_stop@[self.fail_stop@.len() - 1].0 == a);
                }
            }
        }
    }

    /// Scripts the liveness probe of shard `j` of validator `i` to fail.
    pub fn inject_unready(&mut self, i: usize, j: usize)
        requires
            old(self).inv(),
        ensures
            final(self).inv(),
            final(self).model() == old(self).model(),
            forall|a: int, b: int|
                #[trigger] final(self).ready_fault(a, b) <==> (old(self).ready_fault(a, b) || (a
                    == i && b == j)),
            forall|a: int, b: int|
                #[trigger] final(self).start_fault(a, b) == old(self).start_fault(a, b),
            forall|a: int, b: int|
                #[trigger] final(self).stop_fault(a, b) == old(self).stop_fault(a, b),
            forall|a: int| #[trigger] final(self).config_fault(a) == old(self).config_fault(a),
    {
        self.not_ready.push((i, j));
        proof {
            assert forall|a: int, b: int|
                #[trigger] self.ready_fault(a, b) <==> (old(self).ready_fault(a, b) || (a == i && b
                    == j)) by {
                if self.ready_fault(a, b) {
                    let t = choose|t: int|
                        0 <= t < self.not_ready@.len() && (#[trigger] self.not_ready@[t]).0 == a
                            && self.not_ready@[t].1 == b;
                    if t < old(self).not_ready@.len() {
                        assert(old(self).not_ready@[t].0 == a);
                    }
                }
                if old(self).ready_fault(a, b) {
                    let t = choose|t: int|
                        0 <= t < old(self).not_ready@.len() && (#[trigger] old(
                            self,
                        ).not_ready@[t]).0 == a && old(self).not_ready@[t].1 == b;
                    assert(self.not_ready@[t].0 == a && self.not_ready@[t].1 == b);
                }
                if a == i && b == j {
                    assert(self.not_ready@[self.not_ready@.len() - 1].0 == a);
                }
            }
        }
    }

    /// Scripts a later configuration write for validator `i` to fail.
    pub fn inject_config_failure(&mut self, i: usize)
        requires
            old(self).inv(),
        ensures
            final(self).inv(),
            final(self).model() == old(self).model(),
            forall|a: int|
                #[trigger] final(self).config_fault(a) <==> (old(self).config_fault(a) || a == i),
            forall|a: int, b: int|
                #[trigger] final(self).start_fault(a, b) == old(self).start_fault(a, b),
            forall|a: int, b: int|
                #[trigger] final(self).stop_fault(a, b) == old(self).stop_fault(a, b),
            forall|a: int, b: int|
                #[trigger] final(self).ready_fault(a, b) == old(self).ready_fault(a, b),
    {
        self.fail_config.push(i);
        proof {
            assert forall|a: int|
                #[trigger] self.config_fault(a) <==> (old(self).config_fault(a) || a == i) by {
                if self.config_fault(a) {
                    let t = choose|t: int|
                        0 <= t < self.fail_config@.len() && (#[trigger] self.fail_config@[t]) == a;
                    if t < old(self).fail_config@.len() {
                        assert(old(self).fail_config@[t] == a);
                    }
                }
                if old(self).config_fault(a) {
                    let t = choose|t: int|
                        0 <= t < old(self).fail_config@.len() && (#[trigger] old(
                            self,
                        ).fail_config@[t]) == a;
                    assert(self.fail_config@[t] == a);
                }
                if a == i {
                    assert(self.fail_config@[self.fail_config@.len() - 1] == a);
                }
            }
        }
    }
}

impl LineraNetConfig for ScriptedNetConfig {
    type Net = ScriptedNet;

    open spec fn network_spec(&self) -> Network {
        self.protocol
    }

    open spec fn num_validators(&self) -> nat {
        self.validators as nat
    }

    open spec fn num_shards(&self) -> nat {
        self.shards as nat
    }

    open spec fn valid(&self) -> bool {
        1 <= self.validators && 1 <= self.shards
    }

    open spec fn config_fault(&self, i: int) -> bool {
        has_idx(self.fail_config@, i)
    }

    open spec fn start_fault(&self, i: int, j: int) -> bool {
        has_pair(self.fail_start@, i, j)
    }

    fn instantiate(self) -> (r: Result<(ScriptedNet, ClientWrapper), OrchestratorError>) {
        let ghost cfg = self;
        let ghost stopped = fresh_model(
            cfg.network_spec(),
            cfg.num_validators(),
            cfg.num_shards(),
            false,
            false,
        );
        let mut net = ScriptedNet::new_stopped(self);
        let ghost net0 = net;
        proof {
            crate::model::lemma_fresh_model_running(
                cfg.network_spec(),
                cfg.num_validators(),
                cfg.num_shards(),
            );
            assert forall|a: int, b: int| !shard_running(net.model(), a, b) by {}
            assert forall|a: int| 0 <= a < cfg.num_validators() implies valid_index(
                stopped,
                a,
            ) by {}
        }
        match net.boot() {
            Ok(()) => {
                proof {
                    crate::model::lemma_booted_fresh(
                        cfg.network_spec(),
                        cfg.num_validators(),
                        cfg.num_shards(),
                    );
                    let m = net.model();
                    assert(m == fresh_model(
                        cfg.network_spec(),
                        cfg.num_validators(),
                        cfg.num_shards(),
                        true,
                        true,
                    ));
                    assert(valid_index(m, 0));
                    assert(validator_fully_running(m, 0));
                }
                let client = net.make_client();
                proof {
                    if client.validator != 0 {
                        assert(!validator_fully_running(net.model(), 0));
                        assert(false);
                    }
                    assert forall|a: int| 0 <= a < cfg.num_validators() implies (!cfg.config_fault(
                        a,
                    )) by {
                        assert(valid_index(net0.model(), a));
                        assert(!net0.config_fault(a));
                        assert(net0.config_fault(a) == cfg.config_fault(a));
                    }
                    assert forall|a: int, b: int|
                        0 <= a < cfg.num_validators() && 0 <= b < cfg.num_shards() implies (
                    !cfg.start_fault(a, b)) by {
                        assert(valid_index(net0.model(), a));
                        assert(!net0.start_fault(a, b));
                        assert(net0.start_fault(a, b) == cfg.start_fault(a, b));
                    }
                }
                Ok((net, client))
            },
            Err(e) => {
                proof {
                    assert forall|a: int| valid_index(net0.model(), a) implies 0 <= a
                        < cfg.num_validators() by {}
                    if (forall|a: int| 0 <= a < cfg.num_validators() ==> !cfg.config_fault(a)) && (
                    forall|a: int, b: int|
                        0 <= a < cfg.num_validators() && 0 <= b < cfg.num_shards()
                            ==> !cfg.start_fault(a, b)) {
                        assert forall|a: int| valid_index(net0.model(), a) implies (
                        !net0.config_fault(a)) by {
                            assert(0 <= a < cfg.num_validators());
                            assert(net0.config_fault(a) == cfg.config_fault(a));
                        }
                        assert forall|a: int, b: int|
                            valid_index(net0.model(), a) && 0 <= b
                                < net0.model().shards_per_validator implies (!net0.start_fault(
                            a,
                            b,
                        )) by {
                            assert(0 <= a < cfg.num_validators());
                            assert(0 <= b < cfg.num_shards());
                            assert(net0.start_fault(a, b) == cfg.start_fault(a, b));
                        }
                        assert(false);
                    }
                }
                Err(e)
            },
        }
    }

    fn get_network(&self) -> (r: Network) {
        self.protocol
    }
}

} // verus!
