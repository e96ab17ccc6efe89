use vstd::prelude::*;

use crate::store::{PluginConfig, PluginState, StoreView};

verus! {

/// Static metadata of the plugin.
#[derive(Debug, Clone)]
pub struct PluginInfo {
    pub id: String,
    pub name: String,
    pub version: String,
    pub description: String,
    pub author: String,
    pub category: String,
}

/// One subscription tier; `price` is in cents per month.
#[derive(Debug, Clone)]
pub struct PricingTier {
    pub name: String,
    pub price: u32,
    pub features: Vec<String>,
}

/// The plugin: its metadata and its deployment store.
pub struct MultiTenantServingPlugin {
    pub info: PluginInfo,
    pub state: PluginState,
}

/// The policy a plugin starts with.
pub open spec fn default_config() -> PluginConfig {
    PluginConfig {
        auto_scaling: true,
        max_replicas_per_tenant: 10,
        resource_isolation: true,
        enable_gpu_sharing: true,
        gpu_slots: 8,
        deploy_timeout_ms: 300_000,
    }
}

/// An empty store under the default policy, with every running total at zero.
pub open spec fn is_default_store(s: StoreView) -> bool {
    &&& s.config == default_config()
    &&& s.deployments.len() == 0
    &&& s.total_created == 0
    &&& s.retired_requests == 0
    &&& s.latency_total_ms == 0
    &&& s.latency_samples == 0
}

impl Default for PluginState {
    /// An empty store under the default policy.
    fn default() -> (r: PluginState)
        ensures
            r@.wf(),
            is_default_store(r@),
    {
        PluginState::new(
            PluginConfig {
                auto_scaling: true,
                max_replicas_per_tenant: 10,
                resource_isolation: true,
                enable_gpu_sharing: true,
                gpu_slots: 8,
                deploy_timeout_ms: 300_000,
            },
        )
    }
}

fn text(s: &str) -> (r: String)
    ensures
        r@ == s@,
{
    s.to_string()
}

impl MultiTenantServingPlugin {
    /// The plugin with its metadata and an empty store under the default policy.
    pub fn new() -> (r: MultiTenantServingPlugin)
        ensures
            r.info.name@ == "AdiOS Multi-Tenant Serving"@,
            r.info.version@ == "0.1.0"@,
            r.info.description@ == "Enterprise multi-tenant model serving infrastructure"@,
            r.info.id@ == "adios.multi-tenant-serving"@,
            r.info.author@ == "TridentBiz Team"@,
            r.info.category@ == "enterprise"@,
            r.state@.wf(),
            is_default_store(r.state@),
    {
        let info = PluginInfo {
            id: text("adios.multi-tenant-serving"),
            name: text("AdiOS Multi-Tenant Serving"),
            version: text("0.1.0"),
            description: text("Enterprise multi-tenant model serving infrastructure"),
            author: text("TridentBiz Team"),
            category: text("enterprise"),
        };
        MultiTenantServingPlugin { info, state: PluginState::default() }
    }

    pub fn name(&self) -> (r: &str)
        ensures
            r@ == self.info.name@,
    {
        self.info.name.as_str()
    }

    pub fn version(&self) -> (r: &str)
        ensures
            r@ == self.info.version@,
    {
        self.info.version.as_str()
    }

    pub fn description(&self) -> (r: &str)
        ensures
            r@ == self.info.description@,
    {
        self.info.description.as_str()
    }

    /// The three subscription tiers, cheapest first.
    pub fn pricing_tiers(&self) -> (r: Vec<PricingTier>)
        ensures
            r@.len() == 3,
            r@[0].name@ == "Starter"@,
            r@[0].price == 500000,
            r@[0].features@.len() == 4,
            r@[1].name@ == "Professional"@,
            r@[1].price == 2500000,
            r@[1].features@.len() == 5,
            r@[2].name@ == "Enterprise"@,
            r@[2].price == 10000000,
            r@[2].features@.len() == 5,
            r@[0].features@[0]@ == "Up to 5 tenant deployments"@,
            r@[0].features@[1]@ == "Basic auto-scaling"@,
            r@[0].features@[2]@ == "Standard SLA (99.9%)"@,
            r@[0].features@[3]@ == "Email support"@,
            r@[1].features@[0]@ == "Up to 50 tenant deployments"@,
            r@[1].features@[1]@ == "Advanced auto-scaling"@,
            r@[1].features@[2]@ == "GPU sharing capabilities"@,
            r@[1].features@[3]@ == "Enhanced SLA (99.95%)"@,
            r@[1].features@[4]@ == "Priority support"@,
            r@[2].features@[0]@ == "Unlimited tenant deployments"@,
            r@[2].features@[1]@ == "Custom resource allocation"@,
            r@[2].features@[2]@ == "Advanced GPU optimization"@,
            r@[2].features@[3]@ == "Premium SLA (99.99%)"@,
            r@[2].features@[4]@ == "Dedicated support team"@,
    {
        let starter = PricingTier {
            name: text("Starter"),
            price: 500000,
            features: vec![
                text("Up to 5 tenant deployments"),
                text("Basic auto-scaling"),
                text("Standard SLA (99.9%)"),
                text("Email support"),
            ],
        };
        let professional = PricingTier {
            name: text("Professional"),
            price: 2500000,
            features: vec![
                text("Up to 50 tenant deployments"),
                text("Advanced auto-scaling"),
                text("GPU sharing capabilities"),
                text("Enhanced SLA (99.95%)"),
                text("Priority support"),
            ],
        };
        let enterprise = PricingTier {
            name: text("Enterprise"),
            price: 10000000,
            features: vec![
                text("Unlimited tenant deployments"),
                text("Custom resource allocation"),
                text("Advanced GPU optimization"),
                text("Premium SLA (99.99%)"),
                text("Dedicated support team"),
            ],
        };
        vec![starter, professional, enterprise]
    }
}

} // verus!
