//! How a hypervisor is set up.

use crate::hypervisor::recovery::Ratio;
use crate::text;
use vstd::prelude::*;
use vstd::string::*;

verus! {

/// How snapshots are taken.
#[derive(Debug, Clone, Copy, PartialEq, Eq, Structural)]
pub enum SnapshotStrategy {
    /// Every snapshot is a full one.
    Full,
    /// The first snapshot is a full one; later ones hold differences.
    Differential,
}

/// Which recovery policies are used.
#[derive(Debug, Clone, PartialEq, Eq)]
pub enum RecoveryConfig {
    /// Only the built-in policy.
    Static,
    /// The built-in policy as the one layer of a stack.
    Layered,
    /// The built-in policy, then the instincts of a store.
    LayeredInstinct { store_dir: String, min_confidence: Ratio },
}

impl Default for RecoveryConfig {
    fn default() -> (r: Self)
        ensures
            r is Static,
    {
        RecoveryConfig::Static
    }
}

/// One layer of a recovery stack.
#[derive(Debug, Clone, Copy, PartialEq, Eq, Structural)]
pub enum RecoveryLayer {
    Static,
    Instinct,
}

/// The recovery stack that a configuration asks for.
#[derive(Debug, Clone, PartialEq, Eq)]
pub struct RecoveryPlan {
    /// Whether the layers form a stack, or the built-in policy stands alone.
    pub layered: bool,
    pub layers: Vec<RecoveryLayer>,
    /// The directory of the store that gets feedback on retries.
    pub store_dir: Option<String>,
}

/// Selects the recovery stack. The built-in policy always comes first, and a
/// store is attached exactly if its instincts are a layer.
pub fn recovery_from_config(config: &RecoveryConfig) -> (r: RecoveryPlan)
    ensures
        is_recovery_plan(*config, r),
{
    let mut layers: Vec<RecoveryLayer> = Vec::new();
    layers.push(RecoveryLayer::Static);
    assert(layers@ =~= seq![RecoveryLayer::Static]);
    match config {
        RecoveryConfig::Static => RecoveryPlan { layered: false, layers, store_dir: None },
        RecoveryConfig::Layered => RecoveryPlan { layered: true, layers, store_dir: None },
        RecoveryConfig::LayeredInstinct { store_dir, min_confidence: _ } => {
            layers.push(RecoveryLayer::Instinct);
            assert(layers@ =~= seq![RecoveryLayer::Static, RecoveryLayer::Instinct]);
            RecoveryPlan { layered: true, layers, store_dir: Some(store_dir.clone()) }
        },
    }
}

/// How a hypervisor is set up, as far as it is plain data.
#[derive(Debug, Clone, PartialEq, Eq)]
pub struct HypervisorConfig {
    pub snapshot_capacity: usize,
    pub enable_persistence: bool,
    pub persistence_dir: Option<String>,
    pub max_retries: u32,
    pub retry_delay_ms: u64,
    pub snapshot_strategy: SnapshotStrategy,
    pub recovery_config: RecoveryConfig,
}

impl Default for HypervisorConfig {
    fn default() -> (r: Self)
        ensures
            r.snapshot_capacity == 100,
            !r.enable_persistence,
            r.persistence_dir is None,
            r.max_retries == 3,
            r.retry_delay_ms == 100,
            r.snapshot_strategy == SnapshotStrategy::Full,
            r.recovery_config is Static,
    {
        HypervisorConfig {
            snapshot_capacity: 100,
            enable_persistence: false,
            persistence_dir: None,
            max_retries: 3,
            retry_delay_ms: 100,
            snapshot_strategy: SnapshotStrategy::Full,
            recovery_config: RecoveryConfig::Static,
        }
    }
}

impl HypervisorConfig {
    /// Where snapshots are kept: nowhere, unless persistence is on and a
    /// directory is given.
    pub fn snapshot_dir(&self) -> (r: Option<String>)
        ensures
            text::opt_text(r) == (if self.enable_persistence {
                text::opt_text(self.persistence_dir)
            } else {
                None
            }),
    {
        if self.enable_persistence {
            text::clone_opt(&self.persistence_dir)
        } else {
            None
        }
    }
}

/// Whether `r` is the recovery stack that a configuration selects.
pub open spec fn is_recovery_plan(config: RecoveryConfig, r: RecoveryPlan) -> bool {
    &&& r.layered == !(config is Static)
    &&& r.layers@ == (if config is LayeredInstinct {
        seq![RecoveryLayer::Static, RecoveryLayer::Instinct]
    } else {
        seq![RecoveryLayer::Static]
    })
    &&& text::opt_text(r.store_dir) == (match config {
        RecoveryConfig::LayeredInstinct { store_dir, .. } => Some(store_dir@),
        _ => None,
    })
}

/// The built-in policy always comes first; instincts come in exactly where they
/// are configured, and feedback then goes to their store.
pub proof fn lemma_built_in_recovery_comes_first(config: RecoveryConfig, r: RecoveryPlan)
    requires
        is_recovery_plan(config, r),
    ensures
        r.layers@.len() > 0 && r.layers@[0] is Static,
        r.layers@.contains(RecoveryLayer::Instinct) <==> config is LayeredInstinct,
        r.store_dir is Some <==> r.layers@.contains(RecoveryLayer::Instinct),
        config matches RecoveryConfig::LayeredInstinct { store_dir, .. } ==> r.store_dir->0@
            == store_dir@,
        r.layers@.contains(RecoveryLayer::Instinct) ==> r.layered,
        config is Static <==> !r.layered,
{
    if config is LayeredInstinct {
        assert(r.layers@[1] == RecoveryLayer::Instinct);
    }
}

} // verus!
