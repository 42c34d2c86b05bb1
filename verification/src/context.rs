//! What every stage of a conversion can see: the settings and the services.
use crate::config::PipelineConfig;
use crate::providers::ServiceRegistry;
use vstd::prelude::*;

verus! {

pub struct PipelineContext {
    pub config: PipelineConfig,
    pub registry: ServiceRegistry,
}

impl PipelineContext {
    pub fn new(config: PipelineConfig, registry: ServiceRegistry) -> (c: PipelineContext)
        ensures
            c.config == config,
            c.registry == registry,
    {
        PipelineContext { config, registry }
    }
}

} // verus!
