use crosspack_installer::layout::PrefixLayout;
use crosspack_installer::recovery::{
    classify_active_transaction, classify_orphan_transaction, classify_status_with_evidence,
    marker_points_to, repair_outcome, transaction_id, ActiveTransactionMarker, FoundTransaction,
    JournalEvidence, MetadataEvidence, RecoveryError, RecoveryEvidence, RepairStep,
    StagingEvidence, TransactionCoordinator, TransactionEvidence, TransactionRecoveryAction,
    TransactionRepairReason,
};
use crosspack_installer::types::TransactionStatus;

fn evidence(txid: &str, status: TransactionStatus, entries: usize, staging: StagingEvidence) -> TransactionEvidence {
    TransactionEvidence {
        metadata: MetadataEvidence::Found { txid: txid.to_string(), status },
        journal: JournalEvidence::Read { entries },
        staging,
    }
}

fn tx(id: &str) -> String {
    id.to_string()
}

#[test]
fn recovery_matrix_for_active_transaction_statuses() {
    let id = tx("tx-recovery");
    let cases = [
        (TransactionStatus::Planning, TransactionRecoveryAction::CleanupPlanning { txid: id.clone() }),
        (TransactionStatus::Applying, TransactionRecoveryAction::Rollback { txid: id.clone() }),
        (TransactionStatus::Completed, TransactionRecoveryAction::FinalizeCommitted { txid: id.clone() }),
        (TransactionStatus::Committed, TransactionRecoveryAction::FinalizeCommitted { txid: id.clone() }),
        (TransactionStatus::RollingBack, TransactionRecoveryAction::ResumeRollback { txid: id.clone() }),
        (TransactionStatus::RolledBack, TransactionRecoveryAction::ClearRolledBack { txid: id.clone() }),
        (TransactionStatus::Failed, TransactionRecoveryAction::BlockedFailed { txid: id.clone() }),
    ];
    for (status, expected) in cases {
        let e = evidence(&id, status, 0, StagingEvidence::Empty);
        assert_eq!(classify_active_transaction(&id, &e), Ok(expected), "status={status:?}");
    }
}

#[test]
fn planning_with_journal_or_staged_payload_rolls_back() {
    let id = tx("tx-recovery");
    assert_eq!(
        classify_status_with_evidence(&id, TransactionStatus::Planning, true, StagingEvidence::Unreadable),
        Ok(TransactionRecoveryAction::Rollback { txid: id.clone() })
    );
    assert_eq!(
        classify_status_with_evidence(&id, TransactionStatus::Planning, false, StagingEvidence::HasPayload),
        Ok(TransactionRecoveryAction::Rollback { txid: id.clone() })
    );
    assert_eq!(
        classify_status_with_evidence(&id, TransactionStatus::Planning, false, StagingEvidence::Unreadable),
        Err(RecoveryError::StagingUnreadable { txid: id.clone() })
    );
    assert_eq!(
        classify_status_with_evidence(&id, TransactionStatus::Applying, false, StagingEvidence::Unreadable),
        Ok(TransactionRecoveryAction::Rollback { txid: id.clone() })
    );
}

#[test]
fn recovery_fails_closed_for_marker_and_metadata_problems() {
    let layout = PrefixLayout::new("/prefix");
    let coordinator = TransactionCoordinator::new(&layout);
    assert_eq!(
        coordinator.classify_recovery(&RecoveryEvidence::ActiveMarkerInvalid),
        Ok(TransactionRecoveryAction::RepairRequired(TransactionRepairReason::ActiveMarkerInvalid {
            path: "/prefix/state/transactions/active".to_string(),
        }))
    );
    assert_eq!(
        coordinator.classify_recovery(&RecoveryEvidence::ActiveMarkerUnreadable),
        Ok(TransactionRecoveryAction::RepairRequired(TransactionRepairReason::ActiveMarkerUnreadable))
    );
    let id = tx("tx-missing-metadata");
    let missing = TransactionEvidence {
        metadata: MetadataEvidence::Missing,
        journal: JournalEvidence::Read { entries: 0 },
        staging: StagingEvidence::Empty,
    };
    assert_eq!(
        coordinator.classify_recovery(&RecoveryEvidence::Active { txid: id.clone(), evidence: missing }),
        Ok(TransactionRecoveryAction::RepairRequired(TransactionRepairReason::ActiveMarkerWithoutMetadata {
            txid: id.clone()
        }))
    );
    let unreadable = TransactionEvidence {
        metadata: MetadataEvidence::Unreadable,
        journal: JournalEvidence::Read { entries: 0 },
        staging: StagingEvidence::Empty,
    };
    assert_eq!(
        classify_active_transaction(&id, &unreadable),
        Ok(TransactionRecoveryAction::RepairRequired(TransactionRepairReason::MetadataUnreadable {
            txid: id.clone()
        }))
    );
    let mismatch = evidence("tx-metadata", TransactionStatus::Applying, 0, StagingEvidence::Empty);
    assert_eq!(
        classify_active_transaction(&tx("tx-marker"), &mismatch),
        Ok(TransactionRecoveryAction::RepairRequired(TransactionRepairReason::MetadataTxidMismatch {
            expected: tx("tx-marker"),
            actual: tx("tx-metadata"),
        }))
    );
    let bad_journal = TransactionEvidence {
        metadata: MetadataEvidence::Found { txid: id.clone(), status: TransactionStatus::Applying },
        journal: JournalEvidence::Unreadable,
        staging: StagingEvidence::Empty,
    };
    assert_eq!(
        classify_active_transaction(&id, &bad_journal),
        Ok(TransactionRecoveryAction::RepairRequired(TransactionRepairReason::JournalUnreadable {
            txid: id.clone()
        }))
    );
}

#[test]
fn recovery_without_marker_scans_transactions_in_order() {
    let layout = PrefixLayout::new("/prefix");
    let coordinator = TransactionCoordinator::new(&layout);
    let clean = RecoveryEvidence::NoActiveMarker {
        transactions: vec![
            FoundTransaction { txid: tx("tx-a"), evidence: evidence("tx-a", TransactionStatus::Committed, 3, StagingEvidence::Empty) },
            FoundTransaction { txid: tx("tx-b"), evidence: evidence("tx-b", TransactionStatus::RolledBack, 0, StagingEvidence::Empty) },
        ],
    };
    assert_eq!(coordinator.classify_recovery(&clean), Ok(TransactionRecoveryAction::Clean));

    let applying = RecoveryEvidence::NoActiveMarker {
        transactions: vec![
            FoundTransaction { txid: tx("tx-a"), evidence: evidence("tx-a", TransactionStatus::Completed, 0, StagingEvidence::Empty) },
            FoundTransaction { txid: tx("tx-b"), evidence: evidence("tx-b", TransactionStatus::Applying, 0, StagingEvidence::Empty) },
            FoundTransaction { txid: tx("tx-c"), evidence: evidence("tx-c", TransactionStatus::Failed, 0, StagingEvidence::Empty) },
        ],
    };
    assert_eq!(
        coordinator.classify_recovery(&applying),
        Ok(TransactionRecoveryAction::RepairRequired(TransactionRepairReason::ApplyingWithoutActiveMarker {
            txid: tx("tx-b")
        }))
    );
    let orphan = evidence("tx-recovery", TransactionStatus::Planning, 0, StagingEvidence::Empty);
    assert_eq!(
        classify_orphan_transaction(&tx("tx-recovery"), &orphan),
        Some(Ok(TransactionRecoveryAction::CleanupPlanning { txid: tx("tx-recovery") }))
    );
    let missing = TransactionEvidence {
        metadata: MetadataEvidence::Missing,
        journal: JournalEvidence::Unreadable,
        staging: StagingEvidence::Unreadable,
    };
    assert_eq!(classify_orphan_transaction(&tx("tx-gone"), &missing), None);
}

#[test]
fn repair_steps_and_outcomes() {
    let layout = PrefixLayout::new("/prefix");
    let coordinator = TransactionCoordinator::new(&layout);
    let id = tx("tx-recovery");
    assert_eq!(
        coordinator.repair_steps(&TransactionRecoveryAction::CleanupPlanning { txid: id.clone() }),
        vec![
            RepairStep::ClearActiveMarkerIfPointsTo { txid: id.clone() },
            RepairStep::RemoveDirIfPresent { path: "/prefix/state/transactions/staging/tx-recovery".to_string() },
            RepairStep::RemoveFileIfPresent { path: "/prefix/state/transactions/tx-recovery.journal".to_string() },
            RepairStep::RemoveFileIfPresent { path: "/prefix/state/transactions/tx-recovery.json".to_string() },
        ]
    );
    assert_eq!(
        coordinator.repair_steps(&TransactionRecoveryAction::FinalizeCommitted { txid: id.clone() }),
        vec![RepairStep::ClearActiveMarkerIfPointsTo { txid: id.clone() }]
    );
    assert!(coordinator.repair_steps(&TransactionRecoveryAction::Clean).is_empty());

    let no_evidence = evidence(&id, TransactionStatus::Applying, 0, StagingEvidence::Empty);
    assert_eq!(
        repair_outcome(TransactionRecoveryAction::Rollback { txid: id.clone() }, &no_evidence),
        Ok(TransactionRecoveryAction::RepairRequired(TransactionRepairReason::RollbackEvidenceMissing {
            txid: id.clone()
        }))
    );
    let journal = evidence(&id, TransactionStatus::RollingBack, 2, StagingEvidence::Empty);
    assert_eq!(
        repair_outcome(TransactionRecoveryAction::ResumeRollback { txid: id.clone() }, &journal),
        Ok(TransactionRecoveryAction::ResumeRollback { txid: id.clone() })
    );
    assert_eq!(
        repair_outcome(TransactionRecoveryAction::Clean, &no_evidence),
        Ok(TransactionRecoveryAction::Clean)
    );
}

#[test]
fn marker_and_transaction_ids() {
    assert!(marker_points_to(&ActiveTransactionMarker::Present(tx("tx-1")), "tx-1"));
    assert!(!marker_points_to(&ActiveTransactionMarker::Present(tx("tx-1")), "tx-2"));
    assert!(!marker_points_to(&ActiveTransactionMarker::Invalid, "tx-1"));
    assert_eq!(transaction_id(1771001500, 42), "tx-1771001500-42");
    let layout = PrefixLayout::new("/prefix");
    let started = TransactionCoordinator::new(&layout).planned_transaction("install", Some("git:abc123"), 1771001500, 7);
    assert_eq!(started.metadata.txid, "tx-1771001500-7");
    assert_eq!(started.metadata.status, TransactionStatus::Planning);
    assert_eq!(started.metadata.version, 1);
    assert_eq!(started.metadata.snapshot_id.as_deref(), Some("git:abc123"));
}
