use multi_tenant_serving::{
    Admission, DeploymentStatus, PluginConfig, PluginState, ServingError,
};

fn config(max: u32) -> PluginConfig {
    PluginConfig {
        auto_scaling: true,
        max_replicas_per_tenant: max,
        resource_isolation: true,
        enable_gpu_sharing: true,
        gpu_slots: 4,
        deploy_timeout_ms: 1000,
    }
}

fn s(x: &str) -> String {
    x.to_string()
}

#[test]
fn scenario_deploy_serve_stop() {
    let mut st = PluginState::new(config(10));
    let d1 = st.deploy_at(1, s("acme"), s("gpt-small"), 1, 100).unwrap();
    assert_eq!(d1, 1);
    assert_eq!(st.get_at(d1, 100).unwrap().status, DeploymentStatus::Deploying);
    st.update_status(d1, DeploymentStatus::Running).unwrap();
    assert_eq!(st.get_at(d1, 200).unwrap().status, DeploymentStatus::Running);
    for t in 0..3 {
        st.record_request_at(d1, 300 + t).unwrap();
    }
    let rec = st.get_at(d1, 400).unwrap();
    assert_eq!(rec.request_count, 3);
    assert_eq!(rec.last_request, 302);
    st.stop(d1).unwrap();
    assert_eq!(st.get_at(d1, 500).unwrap().status, DeploymentStatus::Stopped);
    assert_eq!(st.record_request_at(d1, 600), Err(ServingError::DeploymentNotServing));
}

#[test]
fn scenario_replica_limit_reached() {
    let mut st = PluginState::new(config(2));
    let a = st.deploy_at(1, s("acme"), s("gpt-a"), 1, 0).unwrap();
    let b = st.deploy_at(2, s("acme"), s("gpt-b"), 1, 0).unwrap();
    st.update_status(a, DeploymentStatus::Running).unwrap();
    st.update_status(b, DeploymentStatus::Running).unwrap();
    assert_eq!(
        st.deploy_at(3, s("acme"), s("gpt-large"), 1, 0),
        Err(ServingError::ReplicaLimitExceeded)
    );
    assert_eq!(st.active_deployments.len(), 2);
    // another tenant is unaffected
    assert_eq!(st.deploy_at(4, s("beta"), s("gpt-large"), 1, 0), Ok(4));
}

#[test]
fn replica_limit_never_exceeded_over_a_sequence() {
    let mut st = PluginState::new(config(3));
    let mut ok = 0;
    for k in 0..6u128 {
        if st.deploy_at(k, s("acme"), format!("m{}", k), 1, 0).is_ok() {
            ok += 1;
        }
        let _ = st.update_status(k, DeploymentStatus::Running);
        let _ = st.scale(k, 2);
    }
    assert_eq!(ok, 3);
    let live = st
        .active_deployments
        .iter()
        .filter(|d| d.tenant_id == "acme" && !d.status.is_terminal())
        .count();
    assert!(live <= 3);
}

#[test]
fn record_request_counts_every_call() {
    let mut st = PluginState::new(config(10));
    let id = st.deploy_at(9, s("acme"), s("m"), 1, 0).unwrap();
    st.update_status(id, DeploymentStatus::Running).unwrap();
    for n in 1..=25u64 {
        st.record_request_at(id, 10).unwrap();
        assert_eq!(st.get_at(id, 10).unwrap().request_count, n);
    }
}

#[test]
fn duplicate_pair_deploy_has_one_winner() {
    let mut st = PluginState::new(config(10));
    let first = st.deploy_at(1, s("acme"), s("m"), 1, 0);
    let second = st.deploy_at(2, s("acme"), s("m"), 1, 0);
    assert_eq!(first, Ok(1));
    assert_eq!(second, Err(ServingError::DuplicateTenantModel));
    // once the first is stopped the pair may be deployed again
    st.update_status(1, DeploymentStatus::Running).unwrap();
    st.stop(1).unwrap();
    assert_eq!(st.deploy_at(3, s("acme"), s("m"), 1, 0), Ok(3));
}

#[test]
fn terminal_states_refuse_transitions_but_allow_remove() {
    let mut st = PluginState::new(config(10));
    st.deploy_at(1, s("acme"), s("m"), 1, 0).unwrap();
    st.update_status(1, DeploymentStatus::Running).unwrap();
    st.stop(1).unwrap();
    for to in [
        DeploymentStatus::Deploying,
        DeploymentStatus::Running,
        DeploymentStatus::Scaling,
        DeploymentStatus::Stopped,
        DeploymentStatus::Failed,
    ] {
        assert_eq!(st.update_status(1, to), Err(ServingError::InvalidTransition));
    }
    assert_eq!(st.scale(1, 1), Err(ServingError::InvalidTransition));
    let removed = st.remove(1).unwrap();
    assert_eq!(removed.status, DeploymentStatus::Stopped);
    assert_eq!(st.get_at(1, 0).unwrap_err(), ServingError::NotFound);
}

#[test]
fn remove_of_live_deployment_is_invalid_state() {
    let mut st = PluginState::new(config(10));
    st.deploy_at(1, s("acme"), s("m"), 1, 0).unwrap();
    assert_eq!(st.remove(1).unwrap_err(), ServingError::InvalidState);
    assert_eq!(st.remove(2).unwrap_err(), ServingError::NotFound);
}

#[test]
fn overdue_deploying_is_read_as_failed() {
    let mut st = PluginState::new(config(10));
    st.deploy_at(1, s("acme"), s("m"), 1, 5000).unwrap();
    assert_eq!(st.get_at(1, 6000).unwrap().status, DeploymentStatus::Deploying);
    assert_eq!(st.get_at(1, 6001).unwrap().status, DeploymentStatus::Failed);
    assert_eq!(
        st.update_status(1, DeploymentStatus::Running),
        Err(ServingError::InvalidTransition)
    );
}

#[test]
fn sweep_fails_only_overdue_deployments() {
    let mut st = PluginState::new(config(10));
    st.deploy_at(1, s("acme"), s("a"), 1, 0).unwrap();
    st.deploy_at(2, s("acme"), s("b"), 1, 900).unwrap();
    st.deploy_at(3, s("acme"), s("c"), 1, 0).unwrap();
    st.update_status(3, DeploymentStatus::Running).unwrap();
    let list = st.list_deployments_at(1500);
    assert_eq!(list.len(), 3);
    assert_eq!(list[0].status, DeploymentStatus::Failed);
    assert_eq!(list[1].status, DeploymentStatus::Deploying);
    assert_eq!(list[2].status, DeploymentStatus::Running);
}

#[test]
fn state_machine_table() {
    let (dep, run, sca, sto, fai) = (
        DeploymentStatus::Deploying,
        DeploymentStatus::Running,
        DeploymentStatus::Scaling,
        DeploymentStatus::Stopped,
        DeploymentStatus::Failed,
    );
    let all = [dep, run, sca, sto, fai];
    let allowed = [
        (dep, run),
        (dep, fai),
        (run, sca),
        (run, sto),
        (run, fai),
        (sca, run),
        (sca, fai),
    ];
    for from in all {
        for to in all {
            assert_eq!(from.can_transition_to(to), allowed.contains(&(from, to)));
        }
    }
}

#[test]
fn failed_deployment_quarantines_tenant_until_removed() {
    let mut st = PluginState::new(config(10));
    st.deploy_at(1, s("acme"), s("m"), 1, 0).unwrap();
    st.update_status(1, DeploymentStatus::Failed).unwrap();
    assert_eq!(st.check_admission(&s("acme"), 1), Admission::Deny(ServingError::TenantQuarantined));
    assert_eq!(
        st.deploy_at(2, s("acme"), s("n"), 1, 0),
        Err(ServingError::TenantQuarantined)
    );
    assert_eq!(st.check_admission(&s("beta"), 1), Admission::Allow);
    st.remove(1).unwrap();
    assert_eq!(st.check_admission(&s("acme"), 1), Admission::Allow);
}

#[test]
fn no_quarantine_without_isolation() {
    let mut cfg = config(10);
    cfg.resource_isolation = false;
    let mut st = PluginState::new(cfg);
    st.deploy_at(1, s("acme"), s("m"), 1, 0).unwrap();
    st.update_status(1, DeploymentStatus::Failed).unwrap();
    assert_eq!(st.check_admission(&s("acme"), 1), Admission::Allow);
}

#[test]
fn exclusive_gpu_denies_when_slots_are_held_by_others() {
    let mut cfg = config(10);
    cfg.enable_gpu_sharing = false;
    cfg.gpu_slots = 3;
    let mut st = PluginState::new(cfg);
    st.deploy_at(1, s("beta"), s("m"), 1, 0).unwrap();
    st.deploy_at(2, s("beta"), s("n"), 1, 0).unwrap();
    assert_eq!(st.check_admission(&s("acme"), 1), Admission::Allow);
    assert_eq!(
        st.deploy_at(3, s("acme"), s("m"), 2, 0),
        Err(ServingError::ExclusiveGpuRequired)
    );
    // the tenant's own deployments do not count against it
    assert_eq!(st.check_admission(&s("beta"), 3), Admission::Allow);
}

#[test]
fn replica_limit_counts_requested_replicas() {
    let mut st = PluginState::new(config(4));
    st.deploy_at(1, s("acme"), s("m"), 1, 0).unwrap();
    assert_eq!(st.check_admission(&s("acme"), 3), Admission::Allow);
    assert_eq!(st.check_admission(&s("acme"), 4), Admission::Deny(ServingError::ReplicaLimitExceeded));
}

#[test]
fn scale_admits_against_the_limit() {
    let mut st = PluginState::new(config(3));
    st.deploy_at(1, s("acme"), s("m"), 1, 0).unwrap();
    assert_eq!(st.scale(1, 2), Err(ServingError::InvalidTransition));
    st.update_status(1, DeploymentStatus::Running).unwrap();
    assert_eq!(st.scale(1, 4), Err(ServingError::ReplicaLimitExceeded));
    assert_eq!(st.scale(1, 3), Ok(()));
    assert_eq!(st.get_at(1, 0).unwrap().status, DeploymentStatus::Scaling);
    st.update_status(1, DeploymentStatus::Running).unwrap();
    assert_eq!(st.scale(7, 1), Err(ServingError::NotFound));
}

#[test]
fn taken_id_is_refused() {
    let mut st = PluginState::new(config(10));
    st.create_at(5, s("acme"), s("m"), 0).unwrap();
    assert_eq!(st.create_at(5, s("acme"), s("n"), 0), Err(ServingError::IdInUse));
    assert_eq!(st.total_created, 1);
}

#[test]
fn missing_ids_are_not_found() {
    let mut st = PluginState::new(config(10));
    assert_eq!(st.update_status(1, DeploymentStatus::Running), Err(ServingError::NotFound));
    assert_eq!(st.record_request_at(1, 0), Err(ServingError::NotFound));
    assert_eq!(st.stop(1), Err(ServingError::NotFound));
}

#[test]
fn deploying_is_not_serving() {
    let mut st = PluginState::new(config(10));
    st.deploy_at(1, s("acme"), s("m"), 1, 0).unwrap();
    assert_eq!(st.record_request_at(1, 0), Err(ServingError::DeploymentNotServing));
}

#[test]
fn metrics_keep_requests_of_removed_deployments() {
    let mut st = PluginState::new(config(10));
    st.deploy_at(1, s("acme"), s("a"), 1, 0).unwrap();
    st.deploy_at(2, s("acme"), s("b"), 1, 0).unwrap();
    st.deploy_at(3, s("acme"), s("c"), 1, 0).unwrap();
    st.update_status(1, DeploymentStatus::Running).unwrap();
    st.update_status(2, DeploymentStatus::Running).unwrap();
    st.scale(2, 1).unwrap();
    for _ in 0..4 {
        st.record_request_at(1, 0).unwrap();
    }
    let m = st.get_metrics();
    assert_eq!(m.total_deployments, 3);
    assert_eq!(m.active_deployments, 2);
    assert_eq!(m.total_requests, 4);
    st.stop(1).unwrap();
    st.remove(1).unwrap();
    let m = st.get_metrics();
    assert_eq!(m.total_deployments, 3);
    assert_eq!(m.active_deployments, 1);
    assert_eq!(m.total_requests, 4);
}

#[test]
fn average_latency_is_mean_of_reports() {
    let mut st = PluginState::new(config(10));
    assert_eq!(st.get_metrics().average_latency_ms, 0);
    st.record_latency(40);
    st.record_latency(50);
    st.record_latency(61);
    assert_eq!(st.get_metrics().average_latency_ms, 50);
    st.record_latency(u64::MAX);
    assert_eq!(st.latency_total_ms, u64::MAX);
    assert_eq!(st.latency_samples, 4);
}

#[test]
fn deploy_draws_distinct_ids_and_current_time() {
    let mut st = PluginState::new(config(10));
    let a = st.deploy(s("acme"), s("a"), 1).unwrap();
    let b = st.deploy(s("acme"), s("b"), 1).unwrap();
    assert_ne!(a, b);
    assert_eq!(a >> 76 & 0xF, 4);
    assert_eq!(b >> 62 & 0x3, 2);
    let rec = st.get(a).unwrap();
    assert_eq!(rec.status, DeploymentStatus::Deploying);
    assert!(rec.created_at > 1_600_000_000_000);
    st.update_status(a, DeploymentStatus::Running).unwrap();
    st.record_request(a).unwrap();
    let rec = st.get(a).unwrap();
    assert_eq!(rec.request_count, 1);
    assert!(rec.last_request >= rec.created_at);
    assert_eq!(st.list_deployments().len(), 2);
}

#[test]
fn create_skips_admission_but_not_duplicates() {
    let mut st = PluginState::new(config(0));
    let id = st.create(s("acme"), s("m")).unwrap();
    assert_eq!(st.get(id).unwrap().request_count, 0);
    assert_eq!(st.create(s("acme"), s("m")), Err(ServingError::DuplicateTenantModel));
    assert_eq!(st.deploy(s("acme"), s("n"), 1), Err(ServingError::ReplicaLimitExceeded));
}
