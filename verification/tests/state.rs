use nexus::attestation::signing::{verify_capsule, verifying_key};
use nexus::error::NexusError;
use nexus::hypervisor::capsule::{prove_execution, RunStamp};
use nexus::hypervisor::config::{HypervisorConfig, RecoveryConfig, SnapshotStrategy};
use nexus::hypervisor::recovery::Ratio;
use nexus::hypervisor::snapshots::{
    snapshot_metadata, RuntimeSnapshot, SnapshotMade, SnapshotRequest,
};
use nexus::hypervisor::state::{NexusHypervisor, RollbackResult};
use nexus::hypervisor::tool::{ToolDefinition, ToolOutput};

fn host(strategy: SnapshotStrategy) -> NexusHypervisor<u32> {
    let config = HypervisorConfig {
        snapshot_strategy: strategy,
        ..HypervisorConfig::default()
    };
    NexusHypervisor::new(config, false, [7u8; 32])
}

fn restored(memory: Vec<u8>, state: u32) -> RollbackResult<u32> {
    RollbackResult {
        snapshot_id: "snap".to_string(),
        memory,
        execution_state: state,
    }
}

fn missing() -> Result<RollbackResult<u32>, String> {
    Err("missing".to_string())
}

#[test]
fn a_restored_memory_is_taken_once() {
    let mut hv = host(SnapshotStrategy::Full);
    assert_eq!(hv.take_rollback_memory(), None);

    let id = hv.rollback_snapshot("snap", missing(), Ok(restored(vec![1, 2, 3], 9)));
    assert_eq!(id.ok(), Some("snap".to_string()));
    assert_eq!(hv.last_rollback_memory(), Some(vec![1, 2, 3]));
    assert_eq!(hv.last_rollback_execution_state(), Some(&9));
    assert_eq!(hv.take_rollback_memory(), Some(vec![1, 2, 3]));
    assert_eq!(hv.take_rollback_memory(), None);
    assert_eq!(hv.last_rollback_memory(), None);
    assert_eq!(hv.take_rollback_execution_state(), Some(9));
    assert_eq!(hv.take_rollback_execution_state(), None);
}

#[test]
fn a_full_snapshot_is_preferred() {
    let mut hv = host(SnapshotStrategy::Full);
    let done = hv.manual_rollback("snap", Ok(restored(vec![1], 1)), Ok(restored(vec![2], 2)));

    assert!(done.is_ok());
    assert_eq!(hv.take_rollback_memory(), Some(vec![1]));
}

#[test]
fn a_failed_rollback_keeps_what_was_restored() {
    let mut hv = host(SnapshotStrategy::Full);
    assert!(hv.rollback_runtime_snapshot(Ok(restored(vec![4], 1))).is_ok());

    let failed = hv.manual_rollback("other", missing(), missing());
    assert_eq!(
        failed,
        Err(NexusError::RollbackFailed(
            "snapshot other was not restorable as a full or differential snapshot \
             (full: missing; diff: missing)"
                .to_string()
        ))
    );
    let denied = Err(NexusError::RollbackFailed("gone".to_string()));
    assert_eq!(
        hv.rollback_runtime_snapshot(denied),
        Err(NexusError::RollbackFailed("gone".to_string()))
    );
    assert_eq!(hv.last_rollback_memory(), Some(vec![4]));
    assert_eq!(hv.last_rollback_execution_state(), Some(&1));
}

#[test]
fn captured_snapshots_follow_the_strategy() {
    let mut hv = host(SnapshotStrategy::Differential);
    assert_eq!(hv.snapshot_strategy(), SnapshotStrategy::Differential);
    assert_eq!(hv.latest_runtime_snapshot_id(), None);
    assert_eq!(hv.snapshot_request(), SnapshotRequest::Full);

    let first = hv.create_runtime_snapshot(SnapshotMade::Full("a".to_string()));
    assert_eq!(first, RuntimeSnapshot::Full("a".to_string()));
    assert_eq!(hv.snapshot_request(), SnapshotRequest::DiffFrom("a".to_string()));

    hv.create_runtime_snapshot(SnapshotMade::Diff("b".to_string()));
    assert_eq!(hv.latest_runtime_snapshot_id(), Some("b".to_string()));
    assert_eq!(hv.slots.current, Some("a".to_string()));
}

#[test]
fn learning_is_opt_in() {
    let plain = host(SnapshotStrategy::Full);
    assert!(!plain.self_correction_enabled());
    assert!(!plain.pool_enabled());
    assert_eq!(plain.recovery_config(), &RecoveryConfig::Static);
    assert!(plain.with_self_correction().self_correction_enabled());

    let config = HypervisorConfig {
        recovery_config: RecoveryConfig::LayeredInstinct {
            store_dir: "store".to_string(),
            min_confidence: Ratio { num: 1, den: 2 },
        },
        ..HypervisorConfig::default()
    };
    let layered: NexusHypervisor<u32> = NexusHypervisor::new(config, true, [7u8; 32]);
    assert!(layered.self_correction_enabled());
    assert!(layered.pool_enabled());
}

#[test]
fn capsules_name_the_key_of_the_hypervisor() {
    let hv = host(SnapshotStrategy::Full);
    let tool = ToolDefinition::new("tool".to_string(), vec![0, 97]);
    let output = ToolOutput {
        success: true,
        result: None,
        error: None,
        rollback_performed: false,
        execution_time_ms: 1,
        fuel_consumed: 1,
        error_log: None,
        snapshot_id: None,
    };
    let stamp = RunStamp {
        run_id: "run".to_string(),
        started_at: "t0".to_string(),
        finished_at: "t1".to_string(),
    };
    let capsule = prove_execution(
        stamp,
        &tool,
        b"{}",
        Vec::new(),
        Vec::new(),
        None,
        &output,
        None,
        "capsule".to_string(),
        &hv.proof_key,
    );

    assert_eq!(hv.proof_verifying_key(), verifying_key(&[7u8; 32]));
    assert_ne!(hv.proof_verifying_key(), [7u8; 32]);
    assert_eq!(
        capsule.signature.as_ref().map(|s| s.key_id.clone()),
        Some(hv.proof_key_id())
    );
    assert!(verify_capsule(&capsule, &hv.proof_verifying_key()).is_ok());
}

#[test]
fn a_snapshot_notes_what_it_was_captured_from() {
    let noted = snapshot_metadata("tool", b"abc", 65_537, vec!["MemoryRecall".to_string()]);

    assert_eq!(noted.operation_name, "tool");
    assert_eq!(
        noted.input_hash,
        "ba7816bf8f01cfea414140de5dae2223b00361a396177a9cb410ff61f20015ad"
    );
    assert_eq!(noted.memory_pages, 2);
    assert_eq!(noted.preconditions, vec!["MemoryRecall".to_string()]);
}
