//! Platform adapters.
pub mod ecs_bridge;
pub mod weixin_oc;
