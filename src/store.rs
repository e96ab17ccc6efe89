use vstd::prelude::*;

use crate::clock::{fresh_id, now_millis};
use crate::status::{transition_allowed, DeploymentStatus};

verus! {

/// Policy read by admission on every decision; fixed for a session.
#[derive(Debug, Clone, Copy, PartialEq, Eq, Structural)]
pub struct PluginConfig {
    pub auto_scaling: bool,
    pub max_replicas_per_tenant: u32,
    pub resource_isolation: bool,
    pub enable_gpu_sharing: bool,
    /// GPU slots of the whole system. Without GPU sharing, a request for `n`
    /// replicas needs `n` slots beyond those held by other tenants, each of
    /// whose non-terminal deployments holds one.
    pub gpu_slots: u32,
    /// How long a deployment may stay `Deploying` before it counts as failed.
    pub deploy_timeout_ms: u64,
}

/// One deployment of a model for a tenant. Times are milliseconds since the
/// Unix epoch.
#[derive(Debug, Clone)]
pub struct TenantDeployment {
    pub id: u128,
    pub tenant_id: String,
    pub model_name: String,
    pub status: DeploymentStatus,
    pub created_at: i64,
    pub last_request: i64,
    pub request_count: u64,
}

/// Errors returned by the store, admission and lifecycle operations.
#[derive(Debug, Clone, Copy, PartialEq, Eq, Structural)]
pub enum ServingError {
    NotFound,
    DuplicateTenantModel,
    InvalidTransition,
    InvalidState,
    DeploymentNotServing,
    ReplicaLimitExceeded,
    TenantQuarantined,
    ExclusiveGpuRequired,
    /// A deployment that outlived its provisioning deadline. The store records
    /// this as a move to `Failed` rather than returning it.
    ProvisioningTimeout,
    /// A freshly drawn deployment id is already taken.
    IdInUse,
}

/// Outcome of an admission check.
#[derive(Debug, Clone, Copy, PartialEq, Eq, Structural)]
pub enum Admission {
    Allow,
    Deny(ServingError),
}

/// Aggregates derived from the store.
#[derive(Debug, Clone, Copy, PartialEq, Eq, Structural)]
pub struct SystemMetrics {
    pub total_deployments: u64,
    pub active_deployments: u32,
    pub total_requests: u64,
    pub average_latency_ms: u64,
}

/// The deployment store: every record, the session's policy and the running
/// totals that outlive removed records.
pub struct PluginState {
    pub active_deployments: Vec<TenantDeployment>,
    pub config: PluginConfig,
    /// Deployments ever created (saturating).
    pub total_created: u64,
    /// Requests served by deployments that have been removed (saturating).
    pub retired_requests: u64,
    /// Sum of the reported request latencies (saturating).
    pub latency_total_ms: u64,
    /// Number of reported request latencies (saturating).
    pub latency_samples: u64,
}

/// Mathematical model of a `PluginState`.
pub struct StoreView {
    pub config: PluginConfig,
    pub deployments: Seq<TenantDeployment>,
    pub total_created: u64,
    pub retired_requests: u64,
    pub latency_total_ms: u64,
    pub latency_samples: u64,
}

impl View for PluginState {
    type V = StoreView;

    open spec fn view(&self) -> StoreView {
        StoreView {
            config: self.config,
            deployments: self.active_deployments@,
            total_created: self.total_created,
            retired_requests: self.retired_requests,
            latency_total_ms: self.latency_total_ms,
            latency_samples: self.latency_samples,
        }
    }
}

// ---------------------------------------------------------------------------
// Counting over the records
// ---------------------------------------------------------------------------

/// Sum of `f` over the records.
pub open spec fn tally(ds: Seq<TenantDeployment>, f: spec_fn(TenantDeployment) -> nat) -> nat
    decreases ds.len(),
{
    if ds.len() == 0 {
        0
    } else {
        tally(ds.drop_last(), f) + f(ds.last())
    }
}

/// 1 for a non-terminal record of `tenant`, else 0.
pub open spec fn live_of(tenant: Seq<char>) -> spec_fn(TenantDeployment) -> nat {
    |d: TenantDeployment|
        if d.tenant_id@ == tenant && !d.status.spec_is_terminal() {
            1nat
        } else {
            0nat
        }
}

/// 1 for a non-terminal record of any tenant but `tenant`, else 0.
pub open spec fn live_of_others(tenant: Seq<char>) -> spec_fn(TenantDeployment) -> nat {
    |d: TenantDeployment|
        if d.tenant_id@ != tenant && !d.status.spec_is_terminal() {
            1nat
        } else {
            0nat
        }
}

/// 1 for a `Running` or `Scaling` record, else 0.
pub open spec fn serving_one() -> spec_fn(TenantDeployment) -> nat {
    |d: TenantDeployment|
        if d.status.spec_is_serving() {
            1nat
        } else {
            0nat
        }
}

/// A record's request counter.
pub open spec fn requests_of() -> spec_fn(TenantDeployment) -> nat {
    |d: TenantDeployment| d.request_count as nat
}

/// Number of non-terminal deployments of `tenant`.
pub open spec fn live_count(ds: Seq<TenantDeployment>, tenant: Seq<char>) -> nat {
    tally(ds, live_of(tenant))
}

pub proof fn lemma_tally_concat(a: Seq<TenantDeployment>, b: Seq<TenantDeployment>, f: spec_fn(TenantDeployment) -> nat)
    ensures
        tally(a + b, f) == tally(a, f) + tally(b, f),
    decreases b.len(),
{
    if b.len() == 0 {
        assert(a + b =~= a);
    } else {
        assert((a + b).drop_last() =~= a + b.drop_last());
        lemma_tally_concat(a, b.drop_last(), f);
    }
}

pub proof fn lemma_tally_single(d: TenantDeployment, f: spec_fn(TenantDeployment) -> nat)
    ensures
        tally(seq![d], f) == f(d),
{
    assert(seq![d].drop_last() =~= Seq::<TenantDeployment>::empty());
    assert(tally(Seq::<TenantDeployment>::empty(), f) == 0);
}

pub proof fn lemma_tally_update(ds: Seq<TenantDeployment>, i: int, d: TenantDeployment, f: spec_fn(TenantDeployment) -> nat)
    requires
        0 <= i < ds.len(),
    ensures
        tally(ds.update(i, d), f) + f(ds[i]) == tally(ds, f) + f(d),
{
    let pre = ds.subrange(0, i);
    let post = ds.subrange(i + 1, ds.len() as int);
    assert(ds =~= pre + seq![ds[i]] + post);
    assert(ds.update(i, d) =~= pre + seq![d] + post);
    lemma_tally_concat(pre + seq![ds[i]], post, f);
    lemma_tally_concat(pre, seq![ds[i]], f);
    lemma_tally_concat(pre + seq![d], post, f);
    lemma_tally_concat(pre, seq![d], f);
    lemma_tally_single(ds[i], f);
    lemma_tally_single(d, f);
}

pub proof fn lemma_tally_remove(ds: Seq<TenantDeployment>, i: int, f: spec_fn(TenantDeployment) -> nat)
    requires
        0 <= i < ds.len(),
    ensures
        tally(ds.remove(i), f) + f(ds[i]) == tally(ds, f),
{
    let pre = ds.subrange(0, i);
    let post = ds.subrange(i + 1, ds.len() as int);
    assert(ds =~= pre + seq![ds[i]] + post);
    assert(ds.remove(i) =~= pre + post);
    lemma_tally_concat(pre + seq![ds[i]], post, f);
    lemma_tally_concat(pre, seq![ds[i]], f);
    lemma_tally_concat(pre, post, f);
    lemma_tally_single(ds[i], f);
}

pub proof fn lemma_tally_push(ds: Seq<TenantDeployment>, d: TenantDeployment, f: spec_fn(TenantDeployment) -> nat)
    ensures
        tally(ds.push(d), f) == tally(ds, f) + f(d),
{
    assert(ds.push(d).drop_last() =~= ds);
}

/// Running sum over a prefix, one element further.
pub proof fn lemma_tally_prefix(ds: Seq<TenantDeployment>, i: int, f: spec_fn(TenantDeployment) -> nat)
    requires
        0 <= i < ds.len(),
    ensures
        tally(ds.subrange(0, i + 1), f) == tally(ds.subrange(0, i), f) + f(ds[i]),
{
    assert(ds.subrange(0, i + 1).drop_last() =~= ds.subrange(0, i));
}

// ---------------------------------------------------------------------------
// The store's behaviour, stated over its model
// ---------------------------------------------------------------------------

pub open spec fn sat_inc(x: u64) -> u64 {
    if x == u64::MAX {
        x
    } else {
        (x + 1) as u64
    }
}

pub open spec fn sat_add(x: u64, y: u64) -> u64 {
    if x + y > u64::MAX {
        u64::MAX
    } else {
        (x + y) as u64
    }
}

pub open spec fn cap(x: int, bound: int) -> int {
    if x > bound {
        bound
    } else {
        x
    }
}

/// Position of the record with id `id`, if any.
pub open spec fn lookup(ds: Seq<TenantDeployment>, id: u128) -> Option<int> {
    if exists|i: int| 0 <= i < ds.len() && ds[i].id == id {
        Some(choose|i: int| 0 <= i < ds.len() && ds[i].id == id)
    } else {
        None
    }
}

/// Some non-terminal record serves `model` for `tenant`.
pub open spec fn has_live_pair(ds: Seq<TenantDeployment>, tenant: Seq<char>, model: Seq<char>) -> bool {
    exists|i: int|
        0 <= i < ds.len() && ds[i].tenant_id@ == tenant && ds[i].model_name@ == model
            && !ds[i].status.spec_is_terminal()
}

/// Some record of `tenant` is `Failed` and not yet removed.
pub open spec fn has_failed(ds: Seq<TenantDeployment>, tenant: Seq<char>) -> bool {
    exists|i: int| 0 <= i < ds.len() && ds[i].tenant_id@ == tenant && ds[i].status is Failed
}

/// The admission policy, rules in order. `held` is the number of slots of
/// the tenant that the request replaces (1 when a deployment is rescaled).
pub open spec fn admission(
    cfg: PluginConfig,
    ds: Seq<TenantDeployment>,
    tenant: Seq<char>,
    replicas: u32,
    held: nat,
) -> Admission {
    if cfg.resource_isolation && has_failed(ds, tenant) {
        Admission::Deny(ServingError::TenantQuarantined)
    } else if live_count(ds, tenant) + replicas > cfg.max_replicas_per_tenant + held {
        Admission::Deny(ServingError::ReplicaLimitExceeded)
    } else if !cfg.enable_gpu_sharing && tally(ds, live_of_others(tenant)) + replicas
        > cfg.gpu_slots {
        Admission::Deny(ServingError::ExclusiveGpuRequired)
    } else {
        Admission::Allow
    }
}

/// A fresh record, as `create` inserts it.
pub open spec fn new_record(id: u128, tenant_id: String, model_name: String, now: i64) -> TenantDeployment {
    TenantDeployment {
        id,
        tenant_id,
        model_name,
        status: DeploymentStatus::Deploying,
        created_at: now,
        last_request: now,
        request_count: 0,
    }
}

/// A record left `Deploying` past the provisioning deadline.
pub open spec fn overdue(d: TenantDeployment, timeout_ms: u64, now: i64) -> bool {
    d.status is Deploying && now - d.created_at > timeout_ms
}

/// The record as the provisioning deadline leaves it at time `now`.
pub open spec fn expired(d: TenantDeployment, timeout_ms: u64, now: i64) -> TenantDeployment {
    if overdue(d, timeout_ms, now) {
        TenantDeployment { status: DeploymentStatus::Failed, ..d }
    } else {
        d
    }
}

/// No two records share an id.
pub open spec fn unique_ids(ds: Seq<TenantDeployment>) -> bool {
    forall|i: int, j: int|
        0 <= i < ds.len() && 0 <= j < ds.len() && i != j ==> ds[i].id != ds[j].id
}

/// Every id is found where it was found before.
pub open spec fn keeps_positions(before: Seq<TenantDeployment>, after: Seq<TenantDeployment>) -> bool {
    forall|id: u128| #[trigger] lookup(after, id) == lookup(before, id)
}

/// `id` is found last, and every other id where it was found before.
pub open spec fn appends(before: Seq<TenantDeployment>, after: Seq<TenantDeployment>, id: u128) -> bool {
    &&& lookup(after, id) == Some(before.len() as int)
    &&& forall|other: u128| other != id ==> #[trigger] lookup(after, other) == lookup(before, other)
}

impl StoreView {
    /// Ids are unique and no record was last used before it was created.
    pub open spec fn wf(self) -> bool {
        &&& unique_ids(self.deployments)
        &&& forall|i: int|
            0 <= i < self.deployments.len() ==> self.deployments[i].created_at
                <= self.deployments[i].last_request
    }

    pub open spec fn with_deployments(self, ds: Seq<TenantDeployment>) -> StoreView {
        StoreView { deployments: ds, ..self }
    }

    pub open spec fn create(self, id: u128, tenant_id: String, model_name: String, now: i64) -> (
        StoreView,
        Result<u128, ServingError>,
    ) {
        if has_live_pair(self.deployments, tenant_id@, model_name@) {
            (self, Err(ServingError::DuplicateTenantModel))
        } else if lookup(self.deployments, id) is Some {
            (self, Err(ServingError::IdInUse))
        } else {
            (
                StoreView {
                    deployments: self.deployments.push(new_record(id, tenant_id, model_name, now)),
                    total_created: sat_inc(self.total_created),
                    ..self
                },
                Ok(id),
            )
        }
    }

    pub open spec fn deploy(
        self,
        id: u128,
        tenant_id: String,
        model_name: String,
        replicas: u32,
        now: i64,
    ) -> (StoreView, Result<u128, ServingError>) {
        match admission(self.config, self.deployments, tenant_id@, replicas, 0) {
            Admission::Deny(e) => (self, Err(e)),
            Admission::Allow => self.create(id, tenant_id, model_name, now),
        }
    }

    pub open spec fn update_status(self, id: u128, to: DeploymentStatus) -> (StoreView, Result<(), ServingError>) {
        match lookup(self.deployments, id) {
            None => (self, Err(ServingError::NotFound)),
            Some(i) => if transition_allowed(self.deployments[i].status, to) {
                (
                    self.with_deployments(
                        self.deployments.update(i, TenantDeployment { status: to, ..self.deployments[i] }),
                    ),
                    Ok(()),
                )
            } else {
                (self, Err(ServingError::InvalidTransition))
            },
        }
    }

    pub open spec fn scale(self, id: u128, replicas: u32) -> (StoreView, Result<(), ServingError>) {
        match lookup(self.deployments, id) {
            None => (self, Err(ServingError::NotFound)),
            Some(i) => if !(self.deployments[i].status is Running) {
                (self, Err(ServingError::InvalidTransition))
            } else {
                match admission(self.config, self.deployments, self.deployments[i].tenant_id@, replicas, 1) {
                    Admission::Deny(e) => (self, Err(e)),
                    Admission::Allow => self.update_status(id, DeploymentStatus::Scaling),
                }
            },
        }
    }

    pub open spec fn record_request(self, id: u128, now: i64) -> (StoreView, Result<(), ServingError>) {
        match lookup(self.deployments, id) {
            None => (self, Err(ServingError::NotFound)),
            Some(i) => {
                let d = self.deployments[i];
                if !(d.status is Running) {
                    (self, Err(ServingError::DeploymentNotServing))
                } else {
                    let last = if now > d.last_request { now } else { d.last_request };
                    (
                        self.with_deployments(
                            self.deployments.update(
                                i,
                                TenantDeployment { request_count: sat_inc(d.request_count), last_request: last, ..d },
                            ),
                        ),
                        Ok(()),
                    )
                }
            },
        }
    }

    pub open spec fn remove(self, id: u128) -> (StoreView, Result<TenantDeployment, ServingError>) {
        match lookup(self.deployments, id) {
            None => (self, Err(ServingError::NotFound)),
            Some(i) => {
                let d = self.deployments[i];
                if !d.status.spec_is_terminal() {
                    (self, Err(ServingError::InvalidState))
                } else {
                    (
                        StoreView {
                            deployments: self.deployments.remove(i),
                            retired_requests: sat_add(self.retired_requests, d.request_count),
                            ..self
                        },
                        Ok(d),
                    )
                }
            },
        }
    }

    pub open spec fn get(self, id: u128, now: i64) -> (StoreView, Result<TenantDeployment, ServingError>) {
        match lookup(self.deployments, id) {
            None => (self, Err(ServingError::NotFound)),
            Some(i) => {
                let d = expired(self.deployments[i], self.config.deploy_timeout_ms, now);
                (self.with_deployments(self.deployments.update(i, d)), Ok(d))
            },
        }
    }

    pub open spec fn expire_all(self, now: i64) -> StoreView {
        self.with_deployments(
            self.deployments.map_values(|d: TenantDeployment| expired(d, self.config.deploy_timeout_ms, now)),
        )
    }

    pub open spec fn record_latency(self, latency_ms: u64) -> StoreView {
        StoreView {
            latency_total_ms: sat_add(self.latency_total_ms, latency_ms),
            latency_samples: sat_inc(self.latency_samples),
            ..self
        }
    }

    pub open spec fn metrics(self) -> SystemMetrics {
        SystemMetrics {
            total_deployments: self.total_created,
            active_deployments: cap(tally(self.deployments, serving_one()) as int, u32::MAX as int) as u32,
            total_requests: cap(
                self.retired_requests + tally(self.deployments, requests_of()),
                u64::MAX as int,
            ) as u64,
            average_latency_ms: if self.latency_samples == 0 {
                0
            } else {
                (self.latency_total_ms / self.latency_samples) as u64
            },
        }
    }
}

/// In a well-formed store, `lookup` finds the one record with the id.
pub proof fn lemma_lookup_unique(s: StoreView, id: u128, i: int)
    requires
        s.wf(),
        0 <= i < s.deployments.len(),
        s.deployments[i].id == id,
    ensures
        lookup(s.deployments, id) == Some(i),
{
}

/// Records that keep their ids in place keep every lookup.
pub proof fn lemma_keeps_positions(a: Seq<TenantDeployment>, b: Seq<TenantDeployment>)
    requires
        unique_ids(a),
        a.len() == b.len(),
        forall|i: int| 0 <= i < a.len() ==> #[trigger] b[i].id == a[i].id,
    ensures
        keeps_positions(a, b),
{
    assert forall|id: u128| #[trigger] lookup(b, id) == lookup(a, id) by {
        if exists|i: int| 0 <= i < a.len() && a[i].id == id {
            let i = choose|i: int| 0 <= i < a.len() && a[i].id == id;
            assert(b[i].id == id);
        } else {
            assert forall|i: int| 0 <= i < b.len() implies b[i].id != id by {
                assert(b[i].id == a[i].id);
            }
        }
    }
}

/// Pushing a record with a new id finds it last and every other id in place.
pub proof fn lemma_appends(a: Seq<TenantDeployment>, d: TenantDeployment)
    requires
        unique_ids(a.push(d)),
    ensures
        appends(a, a.push(d), d.id),
{
    let b = a.push(d);
    assert(b[a.len() as int] == d);
    assert forall|other: u128| other != d.id implies #[trigger] lookup(b, other) == lookup(a, other) by {
        if exists|i: int| 0 <= i < a.len() && a[i].id == other {
            let i = choose|i: int| 0 <= i < a.len() && a[i].id == other;
            assert(b[i].id == other);
        } else {
            assert forall|i: int| 0 <= i < b.len() implies b[i].id != other by {
                if i < a.len() {
                    assert(b[i] == a[i]);
                }
            }
        }
    }
}

impl TenantDeployment {
    /// An exact copy of the record.
    pub fn snapshot(&self) -> (r: TenantDeployment)
        ensures
            r == *self,
    {
        TenantDeployment {
            id: self.id,
            tenant_id: self.tenant_id.clone(),
            model_name: self.model_name.clone(),
            status: self.status,
            created_at: self.created_at,
            last_request: self.last_request,
            request_count: self.request_count,
        }
    }

    fn is_overdue(&self, timeout_ms: u64, now: i64) -> (r: bool)
        ensures
            r == overdue(*self, timeout_ms, now),
    {
        match self.status {
            DeploymentStatus::Deploying => (now as i128) - (self.created_at as i128) > (timeout_ms as i128),
            _ => false,
        }
    }
}

impl PluginState {
    /// An empty store under `config`.
    pub fn new(config: PluginConfig) -> (r: PluginState)
        ensures
            r@.wf(),
            r@.config == config,
            r@.deployments.len() == 0,
            r@.total_created == 0,
            r@.retired_requests == 0,
            r@.latency_total_ms == 0,
            r@.latency_samples == 0,
    {
        PluginState {
            active_deployments: Vec::new(),
            config,
            total_created: 0,
            retired_requests: 0,
            latency_total_ms: 0,
            latency_samples: 0,
        }
    }

    fn find_index(&self, id: u128) -> (r: Option<usize>)
        requires
            self@.wf(),
        ensures
            match r {
                Some(i) => i < self@.deployments.len() && lookup(self@.deployments, id) == Some(i as int),
                None => lookup(self@.deployments, id) is None,
            },
    {
        let n = self.active_deployments.len();
        let mut i: usize = 0;
        while i < n
            invariant
                n == self@.deployments.len(),
                i <= n,
                self@.wf(),
                forall|j: int| 0 <= j < i ==> self@.deployments[j].id != id,
            decreases n - i,
        {
            if self.active_deployments[i].id == id {
                proof {
                    lemma_lookup_unique(self@, id, i as int);
                }
                return Some(i);
            }
            i += 1;
        }
        None
    }

    fn find_live_pair(&self, tenant_id: &String, model_name: &String) -> (r: bool)
        ensures
            r == has_live_pair(self@.deployments, tenant_id@, model_name@),
    {
        let ds = &self.active_deployments;
        let mut i: usize = 0;
        while i < ds.len()
            invariant
                i <= ds@.len(),
                ds@ == self@.deployments,
                forall|j: int|
                    0 <= j < i ==> !(ds@[j].tenant_id@ == tenant_id@ && ds@[j].model_name@ == model_name@
                        && !ds@[j].status.spec_is_terminal()),
            decreases ds@.len() - i,
        {
            let d = &ds[i];
            if d.tenant_id == *tenant_id && d.model_name == *model_name && !d.status.is_terminal() {
                return true;
            }
            i += 1;
        }
        false
    }

    fn find_failed(&self, tenant_id: &String) -> (r: bool)
        ensures
            r == has_failed(self@.deployments, tenant_id@),
    {
        let ds = &self.active_deployments;
        let mut i: usize = 0;
        while i < ds.len()
            invariant
                i <= ds@.len(),
                ds@ == self@.deployments,
                forall|j: int|
                    0 <= j < i ==> !(ds@[j].tenant_id@ == tenant_id@ && ds@[j].status is Failed),
            decreases ds@.len() - i,
        {
            let d = &ds[i];
            if d.tenant_id == *tenant_id && d.status == DeploymentStatus::Failed {
                return true;
            }
            i += 1;
        }
        false
    }

    /// Non-terminal records of `tenant_id` (`mine`) and of every other
    /// tenant (`others`).
    fn live_counts(&self, tenant_id: &String) -> (r: (usize, usize))
        ensures
            r.0 == live_count(self@.deployments, tenant_id@),
            r.1 == tally(self@.deployments, live_of_others(tenant_id@)),
    {
        let ds = &self.active_deployments;
        let mut mine: usize = 0;
        let mut others: usize = 0;
        let mut i: usize = 0;
        while i < ds.len()
            invariant
                i <= ds@.len(),
                ds@ == self@.deployments,
                mine + others <= i,
                mine == tally(ds@.subrange(0, i as int), live_of(tenant_id@)),
                others == tally(ds@.subrange(0, i as int), live_of_others(tenant_id@)),
            decreases ds@.len() - i,
        {
            let d = &ds[i];
            proof {
                lemma_tally_prefix(ds@, i as int, live_of(tenant_id@));
                lemma_tally_prefix(ds@, i as int, live_of_others(tenant_id@));
            }
            if !d.status.is_terminal() {
                if d.tenant_id == *tenant_id {
                    mine += 1;
                } else {
                    others += 1;
                }
            }
            i += 1;
        }
        proof {
            assert(ds@.subrange(0, ds@.len() as int) =~= ds@);
        }
        (mine, others)
    }

    fn decide(&self, tenant_id: &String, replicas: u32, held: u32) -> (r: Admission)
        ensures
            r == admission(self@.config, self@.deployments, tenant_id@, replicas, held as nat),
    {
        if self.config.resource_isolation && self.find_failed(tenant_id) {
            return Admission::Deny(ServingError::TenantQuarantined);
        }
        let (mine, others) = self.live_counts(tenant_id);
        if (mine as u128) + (replicas as u128) > (self.config.max_replicas_per_tenant as u128) + (held as u128) {
            return Admission::Deny(ServingError::ReplicaLimitExceeded);
        }
        if !self.config.enable_gpu_sharing && (others as u128) + (replicas as u128) > (self.config.gpu_slots as u128) {
            return Admission::Deny(ServingError::ExclusiveGpuRequired);
        }
        Admission::Allow
    }

    /// Whether `tenant_id` may add `replicas` replicas now.
    pub fn check_admission(&self, tenant_id: &String, replicas: u32) -> (r: Admission)
        ensures
            r == admission(self@.config, self@.deployments, tenant_id@, replicas, 0),
    {
        self.decide(tenant_id, replicas, 0)
    }

    /// Inserts a `Deploying` record with id `id`, created at `now`.
    pub fn create_at(&mut self, id: u128, tenant_id: String, model_name: String, now: i64) -> (r: Result<u128, ServingError>)
        requires
            old(self)@.wf(),
        ensures
            final(self)@.wf(),
            r is Ok ==> appends(old(self)@.deployments, final(self)@.deployments, id),
            (final(self)@, r) == old(self)@.create(id, tenant_id, model_name, now),
    {
        if self.find_live_pair(&tenant_id, &model_name) {
            return Err(ServingError::DuplicateTenantModel);
        }
        if self.find_index(id).is_some() {
            return Err(ServingError::IdInUse);
        }
        let ghost tenant = tenant_id;
        let ghost model = model_name;
        let record = TenantDeployment {
            id,
            tenant_id,
            model_name,
            status: DeploymentStatus::Deploying,
            created_at: now,
            last_request: now,
            request_count: 0,
        };
        self.active_deployments.push(record);
        self.total_created = self.total_created.saturating_add(1);
        proof {
            let ds = final(self)@.deployments;
            assert(ds == old(self)@.deployments.push(new_record(id, tenant, model, now)));
            assert forall|i: int, j: int|
                0 <= i < ds.len() && 0 <= j < ds.len() && i != j implies ds[i].id != ds[j].id by {
                if i == ds.len() - 1 {
                    assert(old(self)@.deployments[j].id != id);
                } else if j == ds.len() - 1 {
                    assert(old(self)@.deployments[i].id != id);
                }
            }
            lemma_appends(old(self)@.deployments, new_record(id, tenant, model, now));
        }
        Ok(id)
    }

    /// Inserts a `Deploying` record for the pair under a freshly drawn id,
    /// stamped with the current time, without an admission check.
    pub fn create(&mut self, tenant_id: String, model_name: String) -> (r: Result<u128, ServingError>)
        requires
            old(self)@.wf(),
        ensures
            final(self)@.wf(),
            r matches Ok(x) ==> appends(old(self)@.deployments, final(self)@.deployments, x),
            exists|id: u128, now: i64| (final(self)@, r) == old(self)@.create(id, tenant_id, model_name, now),
    {
        let id = fresh_id();
        let now = now_millis();
        self.create_at(id, tenant_id, model_name, now)
    }

    /// Admission, then creation, as one step.
    pub fn deploy_at(
        &mut self,
        id: u128,
        tenant_id: String,
        model_name: String,
        replicas: u32,
        now: i64,
    ) -> (r: Result<u128, ServingError>)
        requires
            old(self)@.wf(),
        ensures
            final(self)@.wf(),
            r matches Ok(x) ==> appends(old(self)@.deployments, final(self)@.deployments, x),
            (final(self)@, r) == old(self)@.deploy(id, tenant_id, model_name, replicas, now),
    {
        match self.check_admission(&tenant_id, replicas) {
            Admission::Deny(e) => Err(e),
            Admission::Allow => self.create_at(id, tenant_id, model_name, now),
        }
    }

    /// Deploys `model_name` for `tenant_id` under a freshly drawn id, stamped
    /// with the current time.
    pub fn deploy(&mut self, tenant_id: String, model_name: String, replicas: u32) -> (r: Result<u128, ServingError>)
        requires
            old(self)@.wf(),
        ensures
            final(self)@.wf(),
            r matches Ok(x) ==> appends(old(self)@.deployments, final(self)@.deployments, x),
            exists|id: u128, now: i64|
                (final(self)@, r) == old(self)@.deploy(id, tenant_id, model_name, replicas, now),
    {
        let id = fresh_id();
        let now = now_millis();
        self.deploy_at(id, tenant_id, model_name, replicas, now)
    }

    /// Moves a deployment to `to` where the state machine allows it.
    pub fn update_status(&mut self, id: u128, to: DeploymentStatus) -> (r: Result<(), ServingError>)
        requires
            old(self)@.wf(),
        ensures
            final(self)@.wf(),
            keeps_positions(old(self)@.deployments, final(self)@.deployments),
            (final(self)@, r) == old(self)@.update_status(id, to),
    {
        match self.find_index(id) {
            None => Err(ServingError::NotFound),
            Some(i) => {
                if self.active_deployments[i].status.can_transition_to(to) {
                    self.active_deployments[i].status = to;
                    proof {
                        assert(final(self)@.deployments =~= old(self)@.deployments.update(
                            i as int,
                            TenantDeployment { status: to, ..old(self)@.deployments[i as int] },
                        ));
                        lemma_keeps_positions(old(self)@.deployments, self@.deployments);
                    }
                    Ok(())
                } else {
                    Err(ServingError::InvalidTransition)
                }
            },
        }
    }

    /// Stops a running deployment.
    pub fn stop(&mut self, id: u128) -> (r: Result<(), ServingError>)
        requires
            old(self)@.wf(),
        ensures
            final(self)@.wf(),
            keeps_positions(old(self)@.deployments, final(self)@.deployments),
            (final(self)@, r) == old(self)@.update_status(id, DeploymentStatus::Stopped),
    {
        self.update_status(id, DeploymentStatus::Stopped)
    }

    /// Starts rescaling a running deployment to `replicas` replicas, if
    /// admission allows it.
    pub fn scale(&mut self, id: u128, replicas: u32) -> (r: Result<(), ServingError>)
        requires
            old(self)@.wf(),
        ensures
            final(self)@.wf(),
            keeps_positions(old(self)@.deployments, final(self)@.deployments),
            (final(self)@, r) == old(self)@.scale(id, replicas),
    {
        match self.find_index(id) {
            None => Err(ServingError::NotFound),
            Some(i) => {
                if self.active_deployments[i].status != DeploymentStatus::Running {
                    return Err(ServingError::InvalidTransition);
                }
                let tenant_id = self.active_deployments[i].tenant_id.clone();
                match self.decide(&tenant_id, replicas, 1) {
                    Admission::Deny(e) => Err(e),
                    Admission::Allow => self.update_status(id, DeploymentStatus::Scaling),
                }
            },
        }
    }

    /// Counts one served request at time `now`.
    pub fn record_request_at(&mut self, id: u128, now: i64) -> (r: Result<(), ServingError>)
        requires
            old(self)@.wf(),
        ensures
            final(self)@.wf(),
            keeps_positions(old(self)@.deployments, final(self)@.deployments),
            (final(self)@, r) == old(self)@.record_request(id, now),
    {
        match self.find_index(id) {
            None => Err(ServingError::NotFound),
            Some(i) => {
                if self.active_deployments[i].status != DeploymentStatus::Running {
                    return Err(ServingError::DeploymentNotServing);
                }
                let count = self.active_deployments[i].request_count.saturating_add(1);
                let last = if now > self.active_deployments[i].last_request {
                    now
                } else {
                    self.active_deployments[i].last_request
                };
                self.active_deployments[i].request_count = count;
                self.active_deployments[i].last_request = last;
                proof {
                    let d = old(self)@.deployments[i as int];
                    assert(final(self)@.deployments =~= old(self)@.deployments.update(
                        i as int,
                        TenantDeployment { request_count: sat_inc(d.request_count), last_request: last, ..d },
                    ));
                    lemma_keeps_positions(old(self)@.deployments, self@.deployments);
                }
                Ok(())
            },
        }
    }

    /// Counts one served request now.
    pub fn record_request(&mut self, id: u128) -> (r: Result<(), ServingError>)
        requires
            old(self)@.wf(),
        ensures
            final(self)@.wf(),
            keeps_positions(old(self)@.deployments, final(self)@.deployments),
            exists|now: i64| (final(self)@, r) == old(self)@.record_request(id, now),
    {
        let now = now_millis();
        self.record_request_at(id, now)
    }

    /// Removes a `Stopped` or `Failed` deployment, keeping its requests in
    /// the running total.
    pub fn remove(&mut self, id: u128) -> (r: Result<TenantDeployment, ServingError>)
        requires
            old(self)@.wf(),
        ensures
            final(self)@.wf(),
            (final(self)@, r) == old(self)@.remove(id),
    {
        match self.find_index(id) {
            None => Err(ServingError::NotFound),
            Some(i) => {
                if !self.active_deployments[i].status.is_terminal() {
                    return Err(ServingError::InvalidState);
                }
                let d = self.active_deployments.remove(i);
                self.retired_requests = self.retired_requests.saturating_add(d.request_count);
                proof {
                    let ds = final(self)@.deployments;
                    let od = old(self)@.deployments;
                    assert forall|a: int, b: int|
                        0 <= a < ds.len() && 0 <= b < ds.len() && a != b implies ds[a].id != ds[b].id by {
                        let oa = if a < i { a } else { a + 1 };
                        let ob = if b < i { b } else { b + 1 };
                        assert(ds[a] == od[oa] && ds[b] == od[ob]);
                    }
                    assert forall|a: int| 0 <= a < ds.len() implies ds[a].created_at <= ds[a].last_request by {
                        let oa = if a < i { a } else { a + 1 };
                        assert(ds[a] == od[oa]);
                    }
                }
                Ok(d)
            },
        }
    }

    /// Looks a deployment up at time `now`, first failing it if it has stayed
    /// `Deploying` past the deadline.
    pub fn get_at(&mut self, id: u128, now: i64) -> (r: Result<TenantDeployment, ServingError>)
        requires
            old(self)@.wf(),
        ensures
            final(self)@.wf(),
            keeps_positions(old(self)@.deployments, final(self)@.deployments),
            (final(self)@, r) == old(self)@.get(id, now),
    {
        match self.find_index(id) {
            None => Err(ServingError::NotFound),
            Some(i) => {
                if self.active_deployments[i].is_overdue(self.config.deploy_timeout_ms, now) {
                    self.active_deployments[i].status = DeploymentStatus::Failed;
                }
                proof {
                    let d = expired(old(self)@.deployments[i as int], self.config.deploy_timeout_ms, now);
                    assert(final(self)@.deployments =~= old(self)@.deployments.update(i as int, d));
                    lemma_keeps_positions(old(self)@.deployments, self@.deployments);
                }
                Ok(self.active_deployments[i].snapshot())
            },
        }
    }

    /// Looks a deployment up now.
    pub fn get(&mut self, id: u128) -> (r: Result<TenantDeployment, ServingError>)
        requires
            old(self)@.wf(),
        ensures
            final(self)@.wf(),
            keeps_positions(old(self)@.deployments, final(self)@.deployments),
            exists|now: i64| (final(self)@, r) == old(self)@.get(id, now),
    {
        let now = now_millis();
        self.get_at(id, now)
    }

    /// Fails every deployment that has stayed `Deploying` past the deadline
    /// at time `now`.
    pub fn expire_overdue(&mut self, now: i64)
        requires
            old(self)@.wf(),
        ensures
            final(self)@.wf(),
            keeps_positions(old(self)@.deployments, final(self)@.deployments),
            final(self)@ == old(self)@.expire_all(now),
    {
        let timeout = self.config.deploy_timeout_ms;
        let n = self.active_deployments.len();
        let mut i: usize = 0;
        while i < n
            invariant
                n == self@.deployments.len(),
                i <= n,
                timeout == old(self)@.config.deploy_timeout_ms,
                self@.with_deployments(old(self)@.deployments) == old(self)@,
                forall|j: int| 0 <= j < i ==> self@.deployments[j] == expired(old(self)@.deployments[j], timeout, now),
                forall|j: int| i <= j < n ==> self@.deployments[j] == old(self)@.deployments[j],
            decreases n - i,
        {
            if self.active_deployments[i].is_overdue(timeout, now) {
                self.active_deployments[i].status = DeploymentStatus::Failed;
            }
            i += 1;
        }
        proof {
            assert(self@.deployments =~= old(self)@.deployments.map_values(
                |d: TenantDeployment| expired(d, timeout, now),
            ));
            lemma_keeps_positions(old(self)@.deployments, self@.deployments);
        }
    }

    /// Snapshot of every record at time `now`, after the deadline sweep.
    pub fn list_deployments_at(&mut self, now: i64) -> (r: Vec<TenantDeployment>)
        requires
            old(self)@.wf(),
        ensures
            final(self)@.wf(),
            keeps_positions(old(self)@.deployments, final(self)@.deployments),
            final(self)@ == old(self)@.expire_all(now),
            r@ == final(self)@.deployments,
    {
        self.expire_overdue(now);
        let mut out: Vec<TenantDeployment> = Vec::new();
        let mut i: usize = 0;
        while i < self.active_deployments.len()
            invariant
                i <= self@.deployments.len(),
                out@ == self@.deployments.subrange(0, i as int),
            decreases self@.deployments.len() - i,
        {
            out.push(self.active_deployments[i].snapshot());
            i += 1;
        }
        proof {
            assert(self@.deployments.subrange(0, i as int) =~= self@.deployments);
        }
        out
    }

    /// Snapshot of every record now, after the deadline sweep.
    pub fn list_deployments(&mut self) -> (r: Vec<TenantDeployment>)
        requires
            old(self)@.wf(),
        ensures
            final(self)@.wf(),
            keeps_positions(old(self)@.deployments, final(self)@.deployments),
            exists|now: i64| final(self)@ == old(self)@.expire_all(now),
            r@ == final(self)@.deployments,
    {
        let now = now_millis();
        self.list_deployments_at(now)
    }

    /// Adds the latency of one completed request to the accumulator.
    pub fn record_latency(&mut self, latency_ms: u64)
        requires
            old(self)@.wf(),
        ensures
            final(self)@.wf(),
            final(self)@ == old(self)@.record_latency(latency_ms),
    {
        self.latency_total_ms = self.latency_total_ms.saturating_add(latency_ms);
        self.latency_samples = self.latency_samples.saturating_add(1);
    }

    /// The system metrics, recomputed from the records and running totals.
    pub fn get_metrics(&self) -> (r: SystemMetrics)
        ensures
            r == self@.metrics(),
    {
        let ds = &self.active_deployments;
        let mut serving: u32 = 0;
        let mut requests: u64 = self.retired_requests;
        let mut i: usize = 0;
        while i < ds.len()
            invariant
                i <= ds@.len(),
                ds@ == self@.deployments,
                serving as int == cap(tally(ds@.subrange(0, i as int), serving_one()) as int, u32::MAX as int),
                requests as int == cap(
                    self.retired_requests + tally(ds@.subrange(0, i as int), requests_of()),
                    u64::MAX as int,
                ),
            decreases ds@.len() - i,
        {
            proof {
                lemma_tally_prefix(ds@, i as int, serving_one());
                lemma_tally_prefix(ds@, i as int, requests_of());
            }
            if ds[i].status.is_serving() {
                serving = serving.saturating_add(1);
            }
            requests = requests.saturating_add(ds[i].request_count);
            i += 1;
        }
        proof {
            assert(ds@.subrange(0, ds@.len() as int) =~= ds@);
        }
        let average = if self.latency_samples == 0 {
            0
        } else {
            self.latency_total_ms / self.latency_samples
        };
        SystemMetrics {
            total_deployments: self.total_created,
            active_deployments: serving,
            total_requests: requests,
            average_latency_ms: average,
        }
    }
}

} // verus!
