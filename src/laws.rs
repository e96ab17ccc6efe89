//! Properties of the store that hold across calls.

use vstd::prelude::*;

use crate::status::DeploymentStatus;
use crate::store::{
    admission, has_live_pair, lemma_lookup_unique, lemma_tally_push, lemma_tally_remove,
    lemma_tally_update, live_count, live_of, lookup, new_record, requests_of, Admission,
    ServingError, StoreView, TenantDeployment,
};

verus! {

/// A request that can grow a tenant's footprint.
pub enum CapacityRequest {
    Deploy { id: u128, tenant_id: String, model_name: String, replicas: u32, now: i64 },
    Scale { id: u128, replicas: u32 },
}

/// The store after the requests, in order.
pub open spec fn apply_all(s: StoreView, reqs: Seq<CapacityRequest>) -> StoreView
    decreases reqs.len(),
{
    if reqs.len() == 0 {
        s
    } else {
        let prev = apply_all(s, reqs.drop_last());
        match reqs.last() {
            CapacityRequest::Deploy { id, tenant_id, model_name, replicas, now } => prev.deploy(
                id,
                tenant_id,
                model_name,
                replicas,
                now,
            ).0,
            CapacityRequest::Scale { id, replicas } => prev.scale(id, replicas).0,
        }
    }
}

/// Every deploy in the sequence asks for at least one replica.
pub open spec fn deploys_nonempty(reqs: Seq<CapacityRequest>) -> bool {
    forall|k: int|
        0 <= k < reqs.len() ==> match #[trigger] reqs[k] {
            CapacityRequest::Deploy { replicas, .. } => replicas >= 1,
            CapacityRequest::Scale { .. } => true,
        }
}

/// No tenant has more non-terminal deployments than its replica limit.
pub open spec fn within_replica_limit(s: StoreView) -> bool {
    forall|t: Seq<char>| #[trigger] live_count(s.deployments, t) <= s.config.max_replicas_per_tenant
}

proof fn lemma_deploy_step(s: StoreView, id: u128, tenant_id: String, model_name: String, replicas: u32, now: i64)
    requires
        s.wf(),
        within_replica_limit(s),
        replicas >= 1,
    ensures
        s.deploy(id, tenant_id, model_name, replicas, now).0.wf(),
        s.deploy(id, tenant_id, model_name, replicas, now).0.config == s.config,
        within_replica_limit(s.deploy(id, tenant_id, model_name, replicas, now).0),
{
    let n = s.deploy(id, tenant_id, model_name, replicas, now).0;
    if n != s {
        assert(admission(s.config, s.deployments, tenant_id@, replicas, 0) == Admission::Allow);
        let d = new_record(id, tenant_id, model_name, now);
        assert(n.deployments == s.deployments.push(d));
        assert forall|t: Seq<char>| #[trigger] live_count(n.deployments, t) <= n.config.max_replicas_per_tenant by {
            lemma_tally_push(s.deployments, d, live_of(t));
            assert(live_count(s.deployments, t) <= s.config.max_replicas_per_tenant);
            if t == tenant_id@ {
                assert(live_of(t)(d) == 1);
            } else {
                assert(live_of(t)(d) == 0);
            }
        }
        assert forall|i: int, j: int|
            0 <= i < n.deployments.len() && 0 <= j < n.deployments.len() && i != j
                implies n.deployments[i].id != n.deployments[j].id by {
            if i == s.deployments.len() {
                assert(s.deployments[j].id != id);
            } else if j == s.deployments.len() {
                assert(s.deployments[i].id != id);
            }
        }
    }
}

proof fn lemma_scale_step(s: StoreView, id: u128, replicas: u32)
    requires
        s.wf(),
        within_replica_limit(s),
    ensures
        s.scale(id, replicas).0.wf(),
        s.scale(id, replicas).0.config == s.config,
        within_replica_limit(s.scale(id, replicas).0),
{
    let n = s.scale(id, replicas).0;
    if n != s {
        let i = lookup(s.deployments, id)->Some_0;
        let d = TenantDeployment { status: DeploymentStatus::Scaling, ..s.deployments[i] };
        assert(n.deployments == s.deployments.update(i, d));
        assert(s.deployments[i].status is Running);
        assert forall|t: Seq<char>| #[trigger] live_count(n.deployments, t) <= n.config.max_replicas_per_tenant by {
            lemma_tally_update(s.deployments, i, d, live_of(t));
            assert(live_count(s.deployments, t) <= s.config.max_replicas_per_tenant);
            assert(live_of(t)(d) == live_of(t)(s.deployments[i]));
        }
    }
}

/// Starting within the replica limit, no sequence of deploys (each of at
/// least one replica) and rescales takes any tenant past
/// `max_replicas_per_tenant` non-terminal deployments.
pub proof fn law_replica_limit_holds(s: StoreView, reqs: Seq<CapacityRequest>)
    requires
        s.wf(),
        within_replica_limit(s),
        deploys_nonempty(reqs),
    ensures
        apply_all(s, reqs).wf(),
        apply_all(s, reqs).config == s.config,
        within_replica_limit(apply_all(s, reqs)),
    decreases reqs.len(),
{
    if reqs.len() > 0 {
        let prefix = reqs.drop_last();
        assert(deploys_nonempty(prefix)) by {
            assert forall|k: int| 0 <= k < prefix.len() implies match #[trigger] prefix[k] {
                CapacityRequest::Deploy { replicas, .. } => replicas >= 1,
                CapacityRequest::Scale { .. } => true,
            } by {
                assert(prefix[k] == reqs[k]);
            }
        }
        law_replica_limit_holds(s, prefix);
        let prev = apply_all(s, prefix);
        match reqs.last() {
            CapacityRequest::Deploy { id, tenant_id, model_name, replicas, now } => {
                assert(reqs[reqs.len() - 1] == reqs.last());
                lemma_deploy_step(prev, id, tenant_id, model_name, replicas, now);
            },
            CapacityRequest::Scale { id, replicas } => {
                lemma_scale_step(prev, id, replicas);
            },
        }
    }
}

/// The store after `record_request(id, now)` for each `now` in order.
pub open spec fn record_requests(s: StoreView, id: u128, nows: Seq<i64>) -> StoreView
    decreases nows.len(),
{
    if nows.len() == 0 {
        s
    } else {
        record_requests(s, id, nows.drop_last()).record_request(id, nows.last()).0
    }
}

/// On a running deployment, `record_request` succeeds, adds one to the
/// counter and leaves the deployment running.
pub proof fn law_record_request_counts_one(s: StoreView, i: int, now: i64)
    requires
        s.wf(),
        0 <= i < s.deployments.len(),
        s.deployments[i].status is Running,
        s.deployments[i].request_count < u64::MAX,
    ensures
        s.record_request(s.deployments[i].id, now).1 == Ok::<(), ServingError>(()),
        s.record_request(s.deployments[i].id, now).0.wf(),
        s.record_request(s.deployments[i].id, now).0.deployments.len() == s.deployments.len(),
        s.record_request(s.deployments[i].id, now).0.deployments[i].id == s.deployments[i].id,
        s.record_request(s.deployments[i].id, now).0.deployments[i].status is Running,
        s.record_request(s.deployments[i].id, now).0.deployments[i].request_count
            == s.deployments[i].request_count + 1,
{
    lemma_lookup_unique(s, s.deployments[i].id, i);
}

/// After N successful `record_request` calls on a running deployment, its
/// counter has grown by exactly N; from a fresh counter it equals N.
pub proof fn law_record_request_monotonic(s: StoreView, i: int, nows: Seq<i64>)
    requires
        s.wf(),
        0 <= i < s.deployments.len(),
        s.deployments[i].status is Running,
        s.deployments[i].request_count + nows.len() <= u64::MAX,
    ensures
        record_requests(s, s.deployments[i].id, nows).wf(),
        record_requests(s, s.deployments[i].id, nows).deployments.len() == s.deployments.len(),
        record_requests(s, s.deployments[i].id, nows).deployments[i].id == s.deployments[i].id,
        record_requests(s, s.deployments[i].id, nows).deployments[i].status is Running,
        record_requests(s, s.deployments[i].id, nows).deployments[i].request_count
            == s.deployments[i].request_count + nows.len(),
    decreases nows.len(),
{
    if nows.len() > 0 {
        law_record_request_monotonic(s, i, nows.drop_last());
        let prev = record_requests(s, s.deployments[i].id, nows.drop_last());
        law_record_request_counts_one(prev, i, nows.last());
    }
}

/// While a (tenant, model) pair has a non-terminal deployment, deploying it
/// again fails; so of two deploys of one pair, at most one succeeds.
pub proof fn law_one_live_deploy_per_pair(
    s: StoreView,
    first_id: u128,
    second_id: u128,
    tenant_id: String,
    model_name: String,
    second_tenant_id: String,
    second_model_name: String,
    first_replicas: u32,
    second_replicas: u32,
    first_now: i64,
    second_now: i64,
)
    requires
        second_tenant_id@ == tenant_id@,
        second_model_name@ == model_name@,
    ensures
        has_live_pair(s.deployments, tenant_id@, model_name@) ==> s.deploy(
            second_id,
            second_tenant_id,
            second_model_name,
            second_replicas,
            second_now,
        ).1 is Err,
        s.deploy(first_id, tenant_id, model_name, first_replicas, first_now).1 is Ok ==> s.deploy(
            first_id,
            tenant_id,
            model_name,
            first_replicas,
            first_now,
        ).0.deploy(second_id, second_tenant_id, second_model_name, second_replicas, second_now).1 is Err,
{
    let n = s.deploy(first_id, tenant_id, model_name, first_replicas, first_now).0;
    if s.deploy(first_id, tenant_id, model_name, first_replicas, first_now).1 is Ok {
        let d = new_record(first_id, tenant_id, model_name, first_now);
        assert(n.deployments == s.deployments.push(d));
        let k = s.deployments.len() as int;
        assert(n.deployments[k] == d);
        assert(has_live_pair(n.deployments, tenant_id@, model_name@));
    }
}

/// A `Stopped` or `Failed` deployment refuses every status transition and
/// every rescale, leaving the store unchanged, but can be removed.
pub proof fn law_terminal_is_final(s: StoreView, i: int, to: DeploymentStatus, replicas: u32)
    requires
        s.wf(),
        0 <= i < s.deployments.len(),
        s.deployments[i].status.spec_is_terminal(),
    ensures
        s.update_status(s.deployments[i].id, to) == (s, Err::<(), ServingError>(ServingError::InvalidTransition)),
        s.scale(s.deployments[i].id, replicas) == (s, Err::<(), ServingError>(ServingError::InvalidTransition)),
        s.remove(s.deployments[i].id).1 == Ok::<TenantDeployment, ServingError>(s.deployments[i]),
{
    lemma_lookup_unique(s, s.deployments[i].id, i);
}

/// A deployment still `Deploying` past the provisioning deadline is seen as
/// `Failed` by the next `get`, and stays so in the store.
pub proof fn law_overdue_deploy_reads_failed(s: StoreView, i: int, now: i64)
    requires
        s.wf(),
        0 <= i < s.deployments.len(),
        s.deployments[i].status is Deploying,
        now - s.deployments[i].created_at > s.config.deploy_timeout_ms,
    ensures
        s.get(s.deployments[i].id, now).1 matches Ok(d) && d.status is Failed,
        s.get(s.deployments[i].id, now).0.deployments[i].status is Failed,
{
    lemma_lookup_unique(s, s.deployments[i].id, i);
}

/// Removing a deployment never changes the total of requests served: its
/// counter moves into the running total of removed deployments.
pub proof fn law_remove_keeps_request_total(s: StoreView, id: u128)
    ensures
        s.remove(id).0.metrics().total_requests == s.metrics().total_requests,
{
    if let Some(i) = lookup(s.deployments, id) {
        if s.deployments[i].status.spec_is_terminal() {
            lemma_tally_remove(s.deployments, i, requests_of());
            assert(requests_of()(s.deployments[i]) == s.deployments[i].request_count);
        }
    }
}

/// Of two deploys of one (tenant, model) pair that has no live deployment,
/// exactly one succeeds once admission admits the first and its id is
/// fresh: the first. The second then fails, with `DuplicateTenantModel`
/// whenever admission admits it too.
pub proof fn law_first_deploy_of_pair_wins(
    s: StoreView,
    first_id: u128,
    second_id: u128,
    tenant_id: String,
    model_name: String,
    second_tenant_id: String,
    second_model_name: String,
    first_replicas: u32,
    second_replicas: u32,
    first_now: i64,
    second_now: i64,
)
    requires
        second_tenant_id@ == tenant_id@,
        second_model_name@ == model_name@,
        !has_live_pair(s.deployments, tenant_id@, model_name@),
        admission(s.config, s.deployments, tenant_id@, first_replicas, 0) == Admission::Allow,
        lookup(s.deployments, first_id) is None,
    ensures
        s.deploy(first_id, tenant_id, model_name, first_replicas, first_now).1 == Ok::<u128, ServingError>(first_id),
        s.deploy(first_id, tenant_id, model_name, first_replicas, first_now).0.deploy(
            second_id,
            second_tenant_id,
            second_model_name,
            second_replicas,
            second_now,
        ).1 is Err,
        admission(
            s.deploy(first_id, tenant_id, model_name, first_replicas, first_now).0.config,
            s.deploy(first_id, tenant_id, model_name, first_replicas, first_now).0.deployments,
            tenant_id@,
            second_replicas,
            0,
        ) == Admission::Allow ==> s.deploy(first_id, tenant_id, model_name, first_replicas, first_now).0.deploy(
            second_id,
            second_tenant_id,
            second_model_name,
            second_replicas,
            second_now,
        ).1 == Err::<u128, ServingError>(ServingError::DuplicateTenantModel),
{
    let n = s.deploy(first_id, tenant_id, model_name, first_replicas, first_now).0;
    let d = new_record(first_id, tenant_id, model_name, first_now);
    assert(n.deployments == s.deployments.push(d));
    let k = s.deployments.len() as int;
    assert(n.deployments[k] == d);
    assert(has_live_pair(n.deployments, tenant_id@, model_name@));
}

} // verus!
