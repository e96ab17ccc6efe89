//! Control plane for multi-tenant model serving: a deployment store with
//! capacity admission, a lifecycle state machine and derived metrics.

mod clock;
pub mod laws;
pub mod plugin;
pub mod status;
pub mod store;

pub use plugin::{MultiTenantServingPlugin, PluginInfo, PricingTier};
pub use status::DeploymentStatus;
pub use store::{
    Admission, PluginConfig, PluginState, ServingError, SystemMetrics, TenantDeployment,
};
