use vstd::prelude::*;
use crate::text::{lowercase_of, str_equals, to_lowercase};

verus! {

/// What a worker asks of its host.
#[derive(Clone, Copy, Debug, PartialEq, Eq, Structural)]
pub struct Resource {
    pub memory: u32,
    pub cpu_cores: u32,
}

impl Resource {
    pub fn new(memory: u32, cpu_cores: u32) -> (r: Resource)
        ensures
            r == (Resource { memory, cpu_cores }),
    {
        Resource { memory, cpu_cores }
    }
}

/// The platform workers are deployed on.
#[derive(Clone, Copy, Debug, PartialEq, Eq, Structural)]
pub enum ClusterMode {
    Local,
    Standalone,
    Yarn,
    Kubernetes,
}

/// The mode that an already lowercased configuration value names.
pub open spec fn cluster_mode_of(s: Seq<char>) -> Option<ClusterMode> {
    if s == "local"@ {
        Some(ClusterMode::Local)
    } else if s == "standalone"@ {
        Some(ClusterMode::Standalone)
    } else if s == "yarn"@ {
        Some(ClusterMode::Yarn)
    } else if s == "kubernetes"@ {
        Some(ClusterMode::Kubernetes)
    } else {
        None
    }
}

impl ClusterMode {
    /// Reads a cluster mode from a configuration value, in any case.
    pub fn parse(mode_str: &str) -> (r: Option<ClusterMode>)
        ensures
            r == cluster_mode_of(lowercase_of(mode_str@)),
    {
        let lowered = to_lowercase(mode_str);
        ClusterMode::parse_lowercase(lowered.as_str())
    }

    /// Reads a cluster mode from a configuration value that is already
    /// lowercase.
    pub fn parse_lowercase(s: &str) -> (r: Option<ClusterMode>)
        ensures
            r == cluster_mode_of(s@),
    {
        proof {
            reveal_strlit("local");
            reveal_strlit("standalone");
            reveal_strlit("yarn");
            reveal_strlit("kubernetes");
        }
        if str_equals(s, "local") {
            Some(ClusterMode::Local)
        } else if str_equals(s, "standalone") {
            Some(ClusterMode::Standalone)
        } else if str_equals(s, "yarn") {
            Some(ClusterMode::Yarn)
        } else if str_equals(s, "kubernetes") {
            Some(ClusterMode::Kubernetes)
        } else {
            None
        }
    }
}

/// The manager that allocates workers on one platform.
#[derive(Clone, Copy, Debug, PartialEq, Eq, Structural)]
pub enum ResourceManager {
    LocalResourceManager,
    StandaloneResourceManager,
    YarnResourceManager,
    KubernetesResourceManager,
}

impl ResourceManager {
    /// The manager for the configured cluster mode.
    pub fn new(cluster_mode: ClusterMode) -> (r: ResourceManager)
        ensures
            r.mode() == cluster_mode,
    {
        match cluster_mode {
            ClusterMode::Local => ResourceManager::LocalResourceManager,
            ClusterMode::Standalone => ResourceManager::StandaloneResourceManager,
            ClusterMode::Yarn => ResourceManager::YarnResourceManager,
            ClusterMode::Kubernetes => ResourceManager::KubernetesResourceManager,
        }
    }

    pub open spec fn mode(self) -> ClusterMode {
        match self {
            ResourceManager::LocalResourceManager => ClusterMode::Local,
            ResourceManager::StandaloneResourceManager => ClusterMode::Standalone,
            ResourceManager::YarnResourceManager => ClusterMode::Yarn,
            ResourceManager::KubernetesResourceManager => ClusterMode::Kubernetes,
        }
    }

    pub fn cluster_mode(&self) -> (r: ClusterMode)
        ensures
            r == self.mode(),
    {
        match self {
            ResourceManager::LocalResourceManager => ClusterMode::Local,
            ResourceManager::StandaloneResourceManager => ClusterMode::Standalone,
            ResourceManager::YarnResourceManager => ClusterMode::Yarn,
            ResourceManager::KubernetesResourceManager => ClusterMode::Kubernetes,
        }
    }
}

} // verus!
