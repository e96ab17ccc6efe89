use multi_tenant_serving::{DeploymentStatus, MultiTenantServingPlugin, ServingError};

#[test]
fn test_plugin_initialization() {
    let plugin = MultiTenantServingPlugin::new();

    assert_eq!(plugin.name(), "AdiOS Multi-Tenant Serving");
    assert_eq!(plugin.version(), "0.1.0");
    assert!(!plugin.description().is_empty());
}

#[test]
fn test_pricing_tiers() {
    let plugin = MultiTenantServingPlugin::new();

    let tiers = plugin.pricing_tiers();
    assert_eq!(tiers.len(), 3);

    assert_eq!(tiers[0].name, "Starter");
    assert_eq!(tiers[0].price, 500000);

    assert_eq!(tiers[1].name, "Professional");
    assert_eq!(tiers[1].price, 2500000);

    assert_eq!(tiers[2].name, "Enterprise");
    assert_eq!(tiers[2].price, 10000000);
}

#[test]
fn new_plugin_starts_with_empty_store_and_default_policy() {
    let plugin = MultiTenantServingPlugin::new();
    assert!(plugin.state.active_deployments.is_empty());
    assert_eq!(plugin.state.config.max_replicas_per_tenant, 10);
    assert!(plugin.state.config.resource_isolation);
    assert!(plugin.state.config.enable_gpu_sharing);
    assert_eq!(plugin.pricing_tiers()[0].features.len(), 4);
    assert_eq!(plugin.pricing_tiers()[2].features.len(), 5);
}

#[test]
fn plugin_metadata_and_default_store() {
    let plugin = MultiTenantServingPlugin::new();
    assert_eq!(plugin.info.id, "adios.multi-tenant-serving");
    assert_eq!(plugin.info.author, "TridentBiz Team");
    assert_eq!(plugin.info.category, "enterprise");
    let st = &plugin.state;
    assert_eq!(st.config.gpu_slots, 8);
    assert_eq!(st.config.deploy_timeout_ms, 300_000);
    assert!(st.config.auto_scaling);
    assert_eq!(st.total_created, 0);
    assert_eq!(st.retired_requests, 0);
    assert_eq!(st.latency_total_ms, 0);
    assert_eq!(st.latency_samples, 0);
}

#[test]
fn pricing_tier_features_are_fixed() {
    let plugin = MultiTenantServingPlugin::new();
    let tiers = plugin.pricing_tiers();
    assert_eq!(
        tiers[0].features,
        vec![
            "Up to 5 tenant deployments",
            "Basic auto-scaling",
            "Standard SLA (99.9%)",
            "Email support",
        ]
    );
    assert_eq!(tiers[1].features[0], "Up to 50 tenant deployments");
    assert_eq!(tiers[1].features[2], "GPU sharing capabilities");
    assert_eq!(tiers[1].features[4], "Priority support");
    assert_eq!(tiers[2].features[0], "Unlimited tenant deployments");
    assert_eq!(tiers[2].features[4], "Dedicated support team");
    let again = plugin.pricing_tiers();
    for (a, b) in tiers.iter().zip(again.iter()) {
        assert_eq!(a.name, b.name);
        assert_eq!(a.price, b.price);
        assert_eq!(a.features, b.features);
    }
}

#[test]
fn fresh_plugin_runs_the_deploy_and_stop_scenario() {
    let mut plugin = MultiTenantServingPlugin::new();
    let d1 = plugin.state.deploy("acme".to_string(), "gpt-small".to_string(), 1).unwrap();
    assert_eq!(plugin.state.get(d1).unwrap().status, DeploymentStatus::Deploying);
    plugin.state.update_status(d1, DeploymentStatus::Running).unwrap();
    for _ in 0..3 {
        plugin.state.record_request(d1).unwrap();
    }
    assert_eq!(plugin.state.get(d1).unwrap().request_count, 3);
    plugin.state.stop(d1).unwrap();
    assert_eq!(plugin.state.get(d1).unwrap().status, DeploymentStatus::Stopped);
    assert_eq!(plugin.state.record_request(d1), Err(ServingError::DeploymentNotServing));
}
