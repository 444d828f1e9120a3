//! Transaction recovery: what an interrupted transaction left on disk decides
//! whether the prefix is clean, which cleanup runs, or whether a rollback or a
//! manual repair is owed.
use vstd::prelude::*;

use crate::layout::PrefixLayout;
use crate::paths::path_join_on_host;
use crate::text::{decimal_string, extend_chars, str_eq, string_of_vec, u64_to_chars};
use crate::types::TransactionStatus;

verus! {

/// Why recovery stops and asks for a manual repair.
#[derive(Clone, Debug, PartialEq, Eq)]
pub enum TransactionRepairReason {
    ActiveMarkerInvalid { path: String },
    ActiveMarkerUnreadable,
    ActiveMarkerWithoutMetadata { txid: String },
    MetadataUnreadable { txid: String },
    MetadataTxidMismatch { expected: String, actual: String },
    JournalUnreadable { txid: String },
    ApplyingWithoutActiveMarker { txid: String },
    RollbackEvidenceMissing { txid: String },
}

pub enum RepairReasonView {
    ActiveMarkerInvalid { path: Seq<char> },
    ActiveMarkerUnreadable,
    ActiveMarkerWithoutMetadata { txid: Seq<char> },
    MetadataUnreadable { txid: Seq<char> },
    MetadataTxidMismatch { expected: Seq<char>, actual: Seq<char> },
    JournalUnreadable { txid: Seq<char> },
    ApplyingWithoutActiveMarker { txid: Seq<char> },
    RollbackEvidenceMissing { txid: Seq<char> },
}

impl View for TransactionRepairReason {
    type V = RepairReasonView;

    open spec fn view(&self) -> RepairReasonView {
        match self {
            TransactionRepairReason::ActiveMarkerInvalid { path } => RepairReasonView::ActiveMarkerInvalid {
                path: path@,
            },
            TransactionRepairReason::ActiveMarkerUnreadable => RepairReasonView::ActiveMarkerUnreadable,
            TransactionRepairReason::ActiveMarkerWithoutMetadata { txid } => RepairReasonView::ActiveMarkerWithoutMetadata {
                txid: txid@,
            },
            TransactionRepairReason::MetadataUnreadable { txid } => RepairReasonView::MetadataUnreadable {
                txid: txid@,
            },
            TransactionRepairReason::MetadataTxidMismatch { expected, actual } => RepairReasonView::MetadataTxidMismatch {
                expected: expected@,
                actual: actual@,
            },
            TransactionRepairReason::JournalUnreadable { txid } => RepairReasonView::JournalUnreadable {
                txid: txid@,
            },
            TransactionRepairReason::ApplyingWithoutActiveMarker { txid } => RepairReasonView::ApplyingWithoutActiveMarker {
                txid: txid@,
            },
            TransactionRepairReason::RollbackEvidenceMissing { txid } => RepairReasonView::RollbackEvidenceMissing {
                txid: txid@,
            },
        }
    }
}

/// What recovery owes the prefix.
#[derive(Clone, Debug, PartialEq, Eq)]
pub enum TransactionRecoveryAction {
    Clean,
    CleanupPlanning { txid: String },
    Rollback { txid: String },
    ResumeRollback { txid: String },
    FinalizeCommitted { txid: String },
    ClearRolledBack { txid: String },
    BlockedFailed { txid: String },
    RepairRequired(TransactionRepairReason),
}

pub enum RecoveryView {
    Clean,
    CleanupPlanning { txid: Seq<char> },
    Rollback { txid: Seq<char> },
    ResumeRollback { txid: Seq<char> },
    FinalizeCommitted { txid: Seq<char> },
    ClearRolledBack { txid: Seq<char> },
    BlockedFailed { txid: Seq<char> },
    RepairRequired(RepairReasonView),
}

impl View for TransactionRecoveryAction {
    type V = RecoveryView;

    open spec fn view(&self) -> RecoveryView {
        match self {
            TransactionRecoveryAction::Clean => RecoveryView::Clean,
            TransactionRecoveryAction::CleanupPlanning { txid } => RecoveryView::CleanupPlanning {
                txid: txid@,
            },
            TransactionRecoveryAction::Rollback { txid } => RecoveryView::Rollback { txid: txid@ },
            TransactionRecoveryAction::ResumeRollback { txid } => RecoveryView::ResumeRollback {
                txid: txid@,
            },
            TransactionRecoveryAction::FinalizeCommitted { txid } => RecoveryView::FinalizeCommitted {
                txid: txid@,
            },
            TransactionRecoveryAction::ClearRolledBack { txid } => RecoveryView::ClearRolledBack {
                txid: txid@,
            },
            TransactionRecoveryAction::BlockedFailed { txid } => RecoveryView::BlockedFailed {
                txid: txid@,
            },
            TransactionRecoveryAction::RepairRequired(reason) => RecoveryView::RepairRequired(
                reason@,
            ),
        }
    }
}

/// What reading a transaction's metadata file gave.
#[derive(Clone, Debug, PartialEq, Eq)]
pub enum MetadataEvidence {
    /// The file exists but could not be read or parsed.
    Unreadable,
    /// There is no metadata file.
    Missing,
    /// The metadata names this transaction id and status.
    Found { txid: String, status: TransactionStatus },
}

/// What reading a transaction's journal gave.
#[derive(Clone, Debug, PartialEq, Eq)]
pub enum JournalEvidence {
    Unreadable,
    /// The journal was read; a missing journal has no entries.
    Read { entries: usize },
}

/// What listing a transaction's staging directory gave.
#[derive(Clone, Copy, Debug, PartialEq, Eq, Structural)]
pub enum StagingEvidence {
    /// Missing or empty.
    Empty,
    HasPayload,
    Unreadable,
}

/// Everything recovery reads about one transaction.
#[derive(Clone, Debug, PartialEq, Eq)]
pub struct TransactionEvidence {
    pub metadata: MetadataEvidence,
    pub journal: JournalEvidence,
    pub staging: StagingEvidence,
}

pub enum MetadataView {
    Unreadable,
    Missing,
    Found { txid: Seq<char>, status: TransactionStatus },
}

pub struct EvidenceView {
    pub metadata: MetadataView,
    pub journal: Option<nat>,
    pub staging: StagingEvidence,
}

impl View for TransactionEvidence {
    type V = EvidenceView;

    open spec fn view(&self) -> EvidenceView {
        EvidenceView {
            metadata: match self.metadata {
                MetadataEvidence::Unreadable => MetadataView::Unreadable,
                MetadataEvidence::Missing => MetadataView::Missing,
                MetadataEvidence::Found { txid, status } => MetadataView::Found {
                    txid: txid@,
                    status,
                },
            },
            journal: match self.journal {
                JournalEvidence::Unreadable => None,
                JournalEvidence::Read { entries } => Some(entries as nat),
            },
            staging: self.staging,
        }
    }
}

/// A transaction found under the transactions directory, by the id its
/// metadata file is named after.
#[derive(Clone, Debug, PartialEq, Eq)]
pub struct FoundTransaction {
    pub txid: String,
    pub evidence: TransactionEvidence,
}

/// The state of the active-transaction marker.
#[derive(Clone, Debug, PartialEq, Eq)]
pub enum ActiveTransactionMarker {
    Absent,
    /// Present but not a single transaction id.
    Invalid,
    Present(String),
}

/// What recovery reads from the prefix.
#[derive(Clone, Debug, PartialEq, Eq)]
pub enum RecoveryEvidence {
    /// No active marker; the transactions on disk, by id in ascending order.
    NoActiveMarker { transactions: Vec<FoundTransaction> },
    ActiveMarkerInvalid,
    ActiveMarkerUnreadable,
    /// The marker names `txid`; what reading that transaction gave.
    Active { txid: String, evidence: TransactionEvidence },
}

/// A read that recovery needed failed.
#[derive(Clone, Debug, PartialEq, Eq)]
pub enum RecoveryError {
    StagingUnreadable { txid: String },
    JournalUnreadable { txid: String },
}

pub enum RecoveryErrorView {
    StagingUnreadable { txid: Seq<char> },
    JournalUnreadable { txid: Seq<char> },
}

impl View for RecoveryError {
    type V = RecoveryErrorView;

    open spec fn view(&self) -> RecoveryErrorView {
        match self {
            RecoveryError::StagingUnreadable { txid } => RecoveryErrorView::StagingUnreadable {
                txid: txid@,
            },
            RecoveryError::JournalUnreadable { txid } => RecoveryErrorView::JournalUnreadable {
                txid: txid@,
            },
        }
    }
}

/// The action a transaction's status calls for, given whether its journal
/// has entries and what its staging directory holds. The staging directory
/// is consulted only for a planning transaction with an empty journal; a
/// failure to list it then is an error.
pub open spec fn status_action(
    txid: Seq<char>,
    status: TransactionStatus,
    has_journal_entries: bool,
    staging: StagingEvidence,
) -> Result<RecoveryView, RecoveryErrorView> {
    match status {
        TransactionStatus::Planning => if has_journal_entries {
            Ok(RecoveryView::Rollback { txid })
        } else {
            match staging {
                StagingEvidence::Unreadable => Err(RecoveryErrorView::StagingUnreadable { txid }),
                StagingEvidence::HasPayload => Ok(RecoveryView::Rollback { txid }),
                StagingEvidence::Empty => Ok(RecoveryView::CleanupPlanning { txid }),
            }
        },
        TransactionStatus::Applying => Ok(RecoveryView::Rollback { txid }),
        TransactionStatus::Completed | TransactionStatus::Committed => Ok(
            RecoveryView::FinalizeCommitted { txid },
        ),
        TransactionStatus::RollingBack => Ok(RecoveryView::ResumeRollback { txid }),
        TransactionStatus::RolledBack => Ok(RecoveryView::ClearRolledBack { txid }),
        TransactionStatus::Failed => Ok(RecoveryView::BlockedFailed { txid }),
    }
}

pub open spec fn repair(reason: RepairReasonView) -> Result<RecoveryView, RecoveryErrorView> {
    Ok(RecoveryView::RepairRequired(reason))
}

/// The action for the transaction the active marker names.
pub open spec fn active_action(txid: Seq<char>, e: EvidenceView) -> Result<
    RecoveryView,
    RecoveryErrorView,
> {
    match e.metadata {
        MetadataView::Unreadable => repair(RepairReasonView::MetadataUnreadable { txid }),
        MetadataView::Missing => repair(RepairReasonView::ActiveMarkerWithoutMetadata { txid }),
        MetadataView::Found { txid: m, status } => if m != txid {
            repair(RepairReasonView::MetadataTxidMismatch { expected: txid, actual: m })
        } else {
            match e.journal {
                None => repair(RepairReasonView::JournalUnreadable { txid }),
                Some(n) => status_action(m, status, n > 0, e.staging),
            }
        },
    }
}

/// The action a transaction found without an active marker calls for, or
/// `None` when it calls for nothing and the scan goes on.
pub open spec fn orphan_action(txid: Seq<char>, e: EvidenceView) -> Option<
    Result<RecoveryView, RecoveryErrorView>,
> {
    match e.metadata {
        MetadataView::Missing => None,
        MetadataView::Unreadable => Some(repair(RepairReasonView::MetadataUnreadable { txid })),
        MetadataView::Found { txid: m, status } => if m != txid {
            Some(repair(RepairReasonView::MetadataTxidMismatch { expected: txid, actual: m }))
        } else {
            match e.journal {
                None => Some(repair(RepairReasonView::JournalUnreadable { txid })),
                Some(n) => match status {
                    TransactionStatus::Planning => Some(
                        status_action(m, status, n > 0, e.staging),
                    ),
                    TransactionStatus::Applying => Some(
                        repair(RepairReasonView::ApplyingWithoutActiveMarker { txid: m }),
                    ),
                    TransactionStatus::RollingBack => Some(
                        Ok(RecoveryView::ResumeRollback { txid: m }),
                    ),
                    TransactionStatus::Failed => Some(Ok(RecoveryView::BlockedFailed { txid: m })),
                    _ => None,
                },
            }
        },
    }
}

/// Without an active marker, a transaction is passed over exactly when it
/// is settled (its metadata is missing, or it names this transaction in a
/// finished state with a readable journal); every other transaction decides
/// the recovery.
pub proof fn lemma_orphan_passed_over_only_when_settled(txid: Seq<char>, e: EvidenceView)
    ensures
        orphan_action(txid, e) is None <==> settled(txid, e),
{
}

/// Without an active marker, a readable transaction that was rolling back
/// resumes its rollback, and one that failed blocks recovery, exactly as
/// with a marker naming them; a planning one is handled as with a marker.
pub proof fn lemma_orphan_unsettled_as_with_marker(txid: Seq<char>, e: EvidenceView)
    requires
        e.metadata matches MetadataView::Found { txid: m, status } && m == txid,
        e.journal is Some,
    ensures
        e.metadata->status == TransactionStatus::RollingBack ==> orphan_action(txid, e) == Some(
            Ok::<RecoveryView, RecoveryErrorView>(RecoveryView::ResumeRollback { txid }),
        ),
        e.metadata->status == TransactionStatus::Failed ==> orphan_action(txid, e) == Some(
            Ok::<RecoveryView, RecoveryErrorView>(RecoveryView::BlockedFailed { txid }),
        ),
        e.metadata->status == TransactionStatus::RollingBack || e.metadata->status
            == TransactionStatus::Failed || e.metadata->status == TransactionStatus::Planning
            ==> orphan_action(txid, e) == Some(
            status_action(txid, e.metadata->status, e.journal->0 > 0, e.staging),
        ),
{
}

/// Without an active marker, a transaction whose records cannot be trusted
/// (unreadable metadata, metadata naming another transaction, an
/// unreadable journal) or that was still applying calls for a repair, never
/// for an action that changes the prefix.
pub proof fn lemma_orphan_untrusted_records_need_repair(txid: Seq<char>, e: EvidenceView)
    ensures
        e.metadata is Unreadable ==> orphan_action(txid, e) == Some(
            repair(RepairReasonView::MetadataUnreadable { txid }),
        ),
        e.metadata matches MetadataView::Found { txid: m, status } && m != txid ==> orphan_action(
            txid,
            e,
        ) == Some(
            repair(
                RepairReasonView::MetadataTxidMismatch { expected: txid, actual: e.metadata->Found_txid },
            ),
        ),
        e.metadata matches MetadataView::Found { txid: m, status } && m == txid && e.journal is None
            ==> orphan_action(txid, e) == Some(repair(RepairReasonView::JournalUnreadable { txid })),
        e.metadata matches MetadataView::Found { txid: m, status } && m == txid && e.journal is Some
            && status == TransactionStatus::Applying ==> orphan_action(txid, e) == Some(
            repair(RepairReasonView::ApplyingWithoutActiveMarker { txid }),
        ),
{
}

/// The first transaction that is not passed over decides a scan without an
/// active marker; a scan that passes over every transaction reports the
/// prefix clean.
pub proof fn lemma_orphan_scan_first_decides(ts: Seq<(Seq<char>, EvidenceView)>)
    ensures
        (forall|i: int| 0 <= i < ts.len() ==> #[trigger] orphan_action(ts[i].0, ts[i].1) is None)
            ==> orphan_scan(ts) == Ok::<RecoveryView, RecoveryErrorView>(RecoveryView::Clean),
        forall|k: int|
            0 <= k < ts.len() && orphan_action(ts[k].0, ts[k].1) is Some && (forall|i: int|
                0 <= i < k ==> #[trigger] orphan_action(ts[i].0, ts[i].1) is None) ==> orphan_scan(ts)
                == orphan_action(ts[k].0, ts[k].1)->0,
    decreases ts.len(),
{
    if ts.len() > 0 {
        lemma_orphan_scan_first_decides(ts.drop_first());
        assert forall|k: int|
            0 <= k < ts.len() && orphan_action(ts[k].0, ts[k].1) is Some && (forall|i: int|
                0 <= i < k ==> #[trigger] orphan_action(ts[i].0, ts[i].1) is None) implies orphan_scan(ts)
                == orphan_action(ts[k].0, ts[k].1)->0 by {
            if k > 0 {
                assert(orphan_action(ts[0].0, ts[0].1) is None);
                assert(ts.drop_first()[k - 1] == ts[k]);
                assert forall|i: int| 0 <= i < k - 1 implies #[trigger] orphan_action(
                    ts.drop_first()[i].0,
                    ts.drop_first()[i].1,
                ) is None by {
                    assert(ts.drop_first()[i] == ts[i + 1]);
                    assert(orphan_action(ts[i + 1].0, ts[i + 1].1) is None);
                }
            }
        }
        if forall|i: int| 0 <= i < ts.len() ==> #[trigger] orphan_action(ts[i].0, ts[i].1) is None {
            assert(orphan_action(ts[0].0, ts[0].1) is None);
            assert forall|i: int| 0 <= i < ts.drop_first().len() implies #[trigger] orphan_action(
                ts.drop_first()[i].0,
                ts.drop_first()[i].1,
            ) is None by {
                assert(ts.drop_first()[i] == ts[i + 1]);
                assert(orphan_action(ts[i + 1].0, ts[i + 1].1) is None);
            }
        }
    }
}

pub open spec fn found_view(t: FoundTransaction) -> (Seq<char>, EvidenceView) {
    (t.txid@, t.evidence@)
}

/// Scanning transactions without an active marker: the first that calls for
/// something decides; when none does, the prefix is clean.
pub open spec fn orphan_scan(ts: Seq<(Seq<char>, EvidenceView)>) -> Result<
    RecoveryView,
    RecoveryErrorView,
>
    decreases ts.len(),
{
    if ts.len() == 0 {
        Ok(RecoveryView::Clean)
    } else {
        match orphan_action(ts[0].0, ts[0].1) {
            Some(a) => a,
            None => orphan_scan(ts.drop_first()),
        }
    }
}

pub open spec fn found_views(ts: Seq<FoundTransaction>) -> Seq<(Seq<char>, EvidenceView)> {
    ts.map_values(|t: FoundTransaction| found_view(t))
}

pub open spec fn result_view(r: Result<TransactionRecoveryAction, RecoveryError>) -> Result<
    RecoveryView,
    RecoveryErrorView,
> {
    match r {
        Ok(a) => Ok(a@),
        Err(e) => Err(e@),
    }
}

fn repair_required(reason: TransactionRepairReason) -> (r: Result<
    TransactionRecoveryAction,
    RecoveryError,
>)
    ensures
        result_view(r) == repair(reason@),
{
    Ok(TransactionRecoveryAction::RepairRequired(reason))
}

/// The action a transaction's status calls for (see `status_action`).
pub fn classify_status_with_evidence(
    txid: &String,
    status: TransactionStatus,
    has_journal_entries: bool,
    staging: StagingEvidence,
) -> (r: Result<TransactionRecoveryAction, RecoveryError>)
    ensures
        result_view(r) == status_action(txid@, status, has_journal_entries, staging),
{
    let txid = txid.clone();
    match status {
        TransactionStatus::Planning => {
            if has_journal_entries {
                Ok(TransactionRecoveryAction::Rollback { txid })
            } else {
                match staging {
                    StagingEvidence::Unreadable => Err(RecoveryError::StagingUnreadable { txid }),
                    StagingEvidence::HasPayload => Ok(TransactionRecoveryAction::Rollback { txid }),
                    StagingEvidence::Empty => Ok(
                        TransactionRecoveryAction::CleanupPlanning { txid },
                    ),
                }
            }
        },
        TransactionStatus::Applying => Ok(TransactionRecoveryAction::Rollback { txid }),
        TransactionStatus::Completed | TransactionStatus::Committed => Ok(
            TransactionRecoveryAction::FinalizeCommitted { txid },
        ),
        TransactionStatus::RollingBack => Ok(TransactionRecoveryAction::ResumeRollback { txid }),
        TransactionStatus::RolledBack => Ok(TransactionRecoveryAction::ClearRolledBack { txid }),
        TransactionStatus::Failed => Ok(TransactionRecoveryAction::BlockedFailed { txid }),
    }
}

/// The action for the transaction the active marker names (see
/// `active_action`).
pub fn classify_active_transaction(txid: &String, evidence: &TransactionEvidence) -> (r: Result<
    TransactionRecoveryAction,
    RecoveryError,
>)
    ensures
        result_view(r) == active_action(txid@, evidence@),
{
    match &evidence.metadata {
        MetadataEvidence::Unreadable => repair_required(
            TransactionRepairReason::MetadataUnreadable { txid: txid.clone() },
        ),
        MetadataEvidence::Missing => repair_required(
            TransactionRepairReason::ActiveMarkerWithoutMetadata { txid: txid.clone() },
        ),
        MetadataEvidence::Found { txid: m, status } => {
            if !str_eq(m.as_str(), txid.as_str()) {
                repair_required(
                    TransactionRepairReason::MetadataTxidMismatch {
                        expected: txid.clone(),
                        actual: m.clone(),
                    },
                )
            } else {
                match &evidence.journal {
                    JournalEvidence::Unreadable => repair_required(
                        TransactionRepairReason::JournalUnreadable { txid: txid.clone() },
                    ),
                    JournalEvidence::Read { entries } => classify_status_with_evidence(
                        m,
                        *status,
                        *entries > 0,
                        evidence.staging,
                    ),
                }
            }
        },
    }
}

fn some_result(r: Result<TransactionRecoveryAction, RecoveryError>) -> (o: Option<
    Result<TransactionRecoveryAction, RecoveryError>,
>)
    ensures
        o is Some,
        result_view(o->0) == result_view(r),
{
    Some(r)
}

pub open spec fn opt_result_view(o: Option<Result<TransactionRecoveryAction, RecoveryError>>) -> Option<
    Result<RecoveryView, RecoveryErrorView>,
> {
    match o {
        Some(r) => Some(result_view(r)),
        None => None,
    }
}

/// The action one transaction found without an active marker calls for, or
/// `None` (see `orphan_action`).
pub fn classify_orphan_transaction(txid: &String, evidence: &TransactionEvidence) -> (r: Option<
    Result<TransactionRecoveryAction, RecoveryError>,
>)
    ensures
        opt_result_view(r) == orphan_action(txid@, evidence@),
{
    match &evidence.metadata {
        MetadataEvidence::Missing => None,
        MetadataEvidence::Unreadable => some_result(
            repair_required(TransactionRepairReason::MetadataUnreadable { txid: txid.clone() }),
        ),
        MetadataEvidence::Found { txid: m, status } => {
            if !str_eq(m.as_str(), txid.as_str()) {
                some_result(
                    repair_required(
                        TransactionRepairReason::MetadataTxidMismatch {
                            expected: txid.clone(),
                            actual: m.clone(),
                        },
                    ),
                )
            } else {
                match &evidence.journal {
                    JournalEvidence::Unreadable => some_result(
                        repair_required(
                            TransactionRepairReason::JournalUnreadable { txid: txid.clone() },
                        ),
                    ),
                    JournalEvidence::Read { entries } => match status {
                        TransactionStatus::Planning => some_result(
                            classify_status_with_evidence(
                                m,
                                *status,
                                *entries > 0,
                                evidence.staging,
                            ),
                        ),
                        TransactionStatus::Applying => some_result(
                            repair_required(
                                TransactionRepairReason::ApplyingWithoutActiveMarker {
                                    txid: m.clone(),
                                },
                            ),
                        ),
                        TransactionStatus::RollingBack => some_result(
                            Ok(TransactionRecoveryAction::ResumeRollback { txid: m.clone() }),
                        ),
                        TransactionStatus::Failed => some_result(
                            Ok(TransactionRecoveryAction::BlockedFailed { txid: m.clone() }),
                        ),
                        _ => None,
                    },
                }
            }
        },
    }
}

/// Scans the transactions found without an active marker (see
/// `orphan_scan`).
pub fn classify_without_active_marker(transactions: &Vec<FoundTransaction>) -> (r: Result<
    TransactionRecoveryAction,
    RecoveryError,
>)
    ensures
        result_view(r) == orphan_scan(found_views(transactions@)),
{
    let n = transactions.len();
    let mut i: usize = 0;
    assert(found_views(transactions@).skip(0) =~= found_views(transactions@));
    while i < n
        invariant
            n == transactions@.len(),
            i <= n,
            orphan_scan(found_views(transactions@)) == orphan_scan(
                found_views(transactions@).skip(i as int),
            ),
        decreases n - i,
    {
        let t = &transactions[i];
        let ghost rest = found_views(transactions@).skip(i as int);
        assert(rest[0] == found_view(transactions@[i as int]));
        assert(rest.drop_first() =~= found_views(transactions@).skip(i + 1));
        match classify_orphan_transaction(&t.txid, &t.evidence) {
            Some(r) => {
                return r;
            },
            None => {},
        }
        i = i + 1;
    }
    assert(found_views(transactions@).skip(n as int) =~= Seq::<(Seq<char>, EvidenceView)>::empty());
    Ok(TransactionRecoveryAction::Clean)
}

/// What recovery decides from what it read (see `TransactionCoordinator::classify_recovery`).
pub open spec fn recovery_action(active_path: Seq<char>, e: RecoveryEvidence) -> Result<
    RecoveryView,
    RecoveryErrorView,
> {
    match e {
        RecoveryEvidence::NoActiveMarker { transactions } => orphan_scan(
            found_views(transactions@),
        ),
        RecoveryEvidence::ActiveMarkerInvalid => repair(
            RepairReasonView::ActiveMarkerInvalid { path: active_path },
        ),
        RecoveryEvidence::ActiveMarkerUnreadable => repair(
            RepairReasonView::ActiveMarkerUnreadable,
        ),
        RecoveryEvidence::Active { txid, evidence } => active_action(txid@, evidence@),
    }
}

/// One step of repairing a prefix.
#[derive(Clone, Debug, PartialEq, Eq)]
pub enum RepairStep {
    /// Clear the active marker if it names this transaction.
    ClearActiveMarkerIfPointsTo { txid: String },
    /// Remove a directory and what it holds; a missing one is fine.
    RemoveDirIfPresent { path: String },
    /// Remove a file; a missing one is fine.
    RemoveFileIfPresent { path: String },
}

pub enum RepairStepView {
    ClearActiveMarkerIfPointsTo { txid: Seq<char> },
    RemoveDirIfPresent { path: Seq<char> },
    RemoveFileIfPresent { path: Seq<char> },
}

impl View for RepairStep {
    type V = RepairStepView;

    open spec fn view(&self) -> RepairStepView {
        match self {
            RepairStep::ClearActiveMarkerIfPointsTo { txid } => RepairStepView::ClearActiveMarkerIfPointsTo {
                txid: txid@,
            },
            RepairStep::RemoveDirIfPresent { path } => RepairStepView::RemoveDirIfPresent {
                path: path@,
            },
            RepairStep::RemoveFileIfPresent { path } => RepairStepView::RemoveFileIfPresent {
                path: path@,
            },
        }
    }
}

pub open spec fn steps_view(s: Seq<RepairStep>) -> Seq<RepairStepView> {
    s.map_values(|x: RepairStep| x@)
}

/// Whether the marker names `txid`.
pub fn marker_points_to(marker: &ActiveTransactionMarker, txid: &str) -> (r: bool)
    ensures
        r == (match marker {
            ActiveTransactionMarker::Present(t) => t@ == txid@,
            _ => false,
        }),
{
    match marker {
        ActiveTransactionMarker::Present(t) => str_eq(t.as_str(), txid),
        _ => false,
    }
}

/// Whether an action that rolls back may go ahead: the journal has entries
/// or the staging directory holds a payload.
pub open spec fn rollback_evidence(txid: Seq<char>, e: EvidenceView) -> Result<bool, RecoveryErrorView> {
    match e.journal {
        None => Err(RecoveryErrorView::JournalUnreadable { txid }),
        Some(n) => if n > 0 {
            Ok(true)
        } else {
            match e.staging {
                StagingEvidence::Unreadable => Err(RecoveryErrorView::StagingUnreadable { txid }),
                StagingEvidence::HasPayload => Ok(true),
                StagingEvidence::Empty => Ok(false),
            }
        },
    }
}

/// What repair answers for an action once its steps ran: an action that
/// rolls back without evidence to roll back becomes a repair request.
pub open spec fn repaired_action(a: RecoveryView, e: EvidenceView) -> Result<
    RecoveryView,
    RecoveryErrorView,
> {
    match a {
        RecoveryView::Rollback { txid } | RecoveryView::ResumeRollback { txid } => match rollback_evidence(txid, e) {
            Err(err) => Err(err),
            Ok(true) => Ok(a),
            Ok(false) => repair(RepairReasonView::RollbackEvidenceMissing { txid }),
        },
        _ => Ok(a),
    }
}

/// Transaction bookkeeping for one prefix.
pub struct TransactionCoordinator {
    layout: PrefixLayout,
}

impl TransactionCoordinator {
    pub closed spec fn spec_layout(&self) -> PrefixLayout {
        self.layout
    }

    pub fn new(layout: &PrefixLayout) -> (r: Self)
        ensures
            r.spec_layout()@ == layout@,
            r.spec_layout().spec_windows() == layout.spec_windows(),
    {
        TransactionCoordinator { layout: layout.duplicate() }
    }

    pub fn layout(&self) -> (r: &PrefixLayout)
        ensures
            r@ == self.spec_layout()@,
    {
        &self.layout
    }

    /// What recovery owes the prefix, given what was read from it: without
    /// an active marker the transactions on disk are scanned in order;
    /// an unreadable or invalid marker asks for a repair; with a marker, the
    /// transaction it names decides.
    pub fn classify_recovery(&self, evidence: &RecoveryEvidence) -> (r: Result<
        TransactionRecoveryAction,
        RecoveryError,
    >)
        ensures
            result_view(r) == recovery_action(self.spec_layout().spec_transaction_active_path(), *evidence),
    {
        match evidence {
            RecoveryEvidence::NoActiveMarker { transactions } => classify_without_active_marker(
                transactions,
            ),
            RecoveryEvidence::ActiveMarkerInvalid => repair_required(
                TransactionRepairReason::ActiveMarkerInvalid {
                    path: self.layout.transaction_active_path(),
                },
            ),
            RecoveryEvidence::ActiveMarkerUnreadable => repair_required(
                TransactionRepairReason::ActiveMarkerUnreadable,
            ),
            RecoveryEvidence::Active { txid, evidence } => classify_active_transaction(
                txid,
                evidence,
            ),
        }
    }
}


/// The steps that repair runs for an action, in order: finishing a
/// committed or rolled-back transaction clears the marker that names it;
/// cleaning up after an abandoned plan also removes its staging directory,
/// journal and metadata.
pub open spec fn repair_steps_spec(l: PrefixLayout, a: RecoveryView) -> Seq<RepairStepView> {
    match a {
        RecoveryView::CleanupPlanning { txid } => seq![
            RepairStepView::ClearActiveMarkerIfPointsTo { txid },
            RepairStepView::RemoveDirIfPresent {
                path: path_join_on_host(l.spec_windows(), l.spec_transactions_staging_dir(), txid),
            },
            RepairStepView::RemoveFileIfPresent {
                path: path_join_on_host(l.spec_windows(), l.spec_transactions_dir(), txid + ".journal"@),
            },
            RepairStepView::RemoveFileIfPresent {
                path: path_join_on_host(l.spec_windows(), l.spec_transactions_dir(), txid + ".json"@),
            },
        ],
        RecoveryView::FinalizeCommitted { txid } | RecoveryView::ClearRolledBack { txid } => seq![
            RepairStepView::ClearActiveMarkerIfPointsTo { txid },
        ],
        _ => Seq::<RepairStepView>::empty(),
    }
}

impl TransactionCoordinator {
    /// The steps that repairing `action` runs (see `repair_steps_spec`).
    pub fn repair_steps(&self, action: &TransactionRecoveryAction) -> (r: Vec<RepairStep>)
        ensures
            steps_view(r@) == repair_steps_spec(self.spec_layout(), action@),
    {
        let mut r: Vec<RepairStep> = Vec::new();
        match action {
            TransactionRecoveryAction::CleanupPlanning { txid } => {
                r.push(RepairStep::ClearActiveMarkerIfPointsTo { txid: txid.clone() });
                r.push(
                    RepairStep::RemoveDirIfPresent {
                        path: self.layout.transaction_staging_path(txid.as_str()),
                    },
                );
                r.push(
                    RepairStep::RemoveFileIfPresent {
                        path: self.layout.transaction_journal_path(txid.as_str()),
                    },
                );
                r.push(
                    RepairStep::RemoveFileIfPresent {
                        path: self.layout.transaction_metadata_path(txid.as_str()),
                    },
                );
            },
            TransactionRecoveryAction::FinalizeCommitted { txid }
            | TransactionRecoveryAction::ClearRolledBack { txid } => {
                r.push(RepairStep::ClearActiveMarkerIfPointsTo { txid: txid.clone() });
            },
            _ => {},
        }
        assert(steps_view(r@) =~= repair_steps_spec(self.spec_layout(), action@));
        r
    }
}

/// What repair answers for `action` once its steps ran, given what reading
/// its transaction now gives (see `repaired_action`).
pub fn repair_outcome(action: TransactionRecoveryAction, evidence: &TransactionEvidence) -> (r: Result<
    TransactionRecoveryAction,
    RecoveryError,
>)
    ensures
        result_view(r) == repaired_action(action@, evidence@),
{
    let txid = match &action {
        TransactionRecoveryAction::Rollback { txid }
        | TransactionRecoveryAction::ResumeRollback { txid } => txid.clone(),
        _ => {
            return Ok(action);
        },
    };
    let has_evidence = match &evidence.journal {
        JournalEvidence::Unreadable => {
            return Err(RecoveryError::JournalUnreadable { txid });
        },
        JournalEvidence::Read { entries } => {
            if *entries > 0 {
                true
            } else {
                match evidence.staging {
                    StagingEvidence::Unreadable => {
                        return Err(RecoveryError::StagingUnreadable { txid });
                    },
                    StagingEvidence::HasPayload => true,
                    StagingEvidence::Empty => false,
                }
            }
        },
    };
    if has_evidence {
        Ok(action)
    } else {
        repair_required(TransactionRepairReason::RollbackEvidenceMissing { txid })
    }
}

/// The metadata a transaction is begun with.
#[derive(Clone, Debug, PartialEq, Eq)]
pub struct TransactionMetadata {
    pub version: u32,
    pub txid: String,
    pub operation: String,
    pub status: TransactionStatus,
    pub started_at_unix: u64,
    pub snapshot_id: Option<String>,
}

/// A transaction that was begun.
#[derive(Clone, Debug, PartialEq, Eq)]
pub struct StartedTransaction {
    pub metadata: TransactionMetadata,
}

/// `tx-<start time>-<process id>`.
pub open spec fn transaction_id_spec(started_at_unix: u64, process_id: u32) -> Seq<char> {
    "tx-"@ + decimal_string(started_at_unix as nat) + "-"@ + decimal_string(process_id as nat)
}

/// The id of a transaction begun at `started_at_unix` by process
/// `process_id`.
pub fn transaction_id(started_at_unix: u64, process_id: u32) -> (r: String)
    ensures
        r@ == transaction_id_spec(started_at_unix, process_id),
{
    let mut v: Vec<char> = Vec::new();
    crate::text::extend_str(&mut v, "tx-");
    let a = u64_to_chars(started_at_unix);
    extend_chars(&mut v, a.as_slice());
    crate::text::extend_str(&mut v, "-");
    let b = u64_to_chars(process_id as u64);
    extend_chars(&mut v, b.as_slice());
    string_of_vec(&v)
}

pub open spec fn opt_str_view(o: Option<String>) -> Option<Seq<char>> {
    match o {
        Some(s) => Some(s@),
        None => None,
    }
}

impl TransactionCoordinator {
    /// The transaction that `begin` records: metadata version 1, status
    /// planning, the id from the start time and process id.
    pub fn planned_transaction(
        &self,
        operation: &str,
        snapshot_id: Option<&str>,
        started_at_unix: u64,
        process_id: u32,
    ) -> (r: StartedTransaction)
        ensures
            r.metadata.version == 1,
            r.metadata.txid@ == transaction_id_spec(started_at_unix, process_id),
            r.metadata.operation@ == operation@,
            r.metadata.status == TransactionStatus::Planning,
            r.metadata.started_at_unix == started_at_unix,
            opt_str_view(r.metadata.snapshot_id) == match snapshot_id {
                Some(s) => Some(s@),
                None => None::<Seq<char>>,
            },
    {
        let snapshot = match snapshot_id {
            Some(s) => Some(String::from_str(s)),
            None => None,
        };
        StartedTransaction {
            metadata: TransactionMetadata {
                version: 1,
                txid: transaction_id(started_at_unix, process_id),
                operation: String::from_str(operation),
                status: TransactionStatus::Planning,
                started_at_unix,
                snapshot_id: snapshot,
            },
        }
    }
}


/// Whether a transaction found without a marker is settled: its metadata is
/// gone, or it names this transaction in a finished state and its journal
/// reads.
pub open spec fn settled(txid: Seq<char>, e: EvidenceView) -> bool {
    match e.metadata {
        MetadataView::Missing => true,
        MetadataView::Found { txid: m, status } => m == txid && e.journal is Some && (
        status == TransactionStatus::Completed || status == TransactionStatus::Committed || status
            == TransactionStatus::RolledBack),
        MetadataView::Unreadable => false,
    }
}

/// Without an active marker, a prefix whose transactions are all settled is
/// clean: this is what a repair that cleaned up an abandoned plan or
/// finalized a finished transaction leaves, so repairing again does nothing.
pub proof fn lemma_settled_prefix_is_clean(ts: Seq<(Seq<char>, EvidenceView)>)
    requires
        forall|k: int| 0 <= k < ts.len() ==> settled(#[trigger] ts[k].0, ts[k].1),
    ensures
        orphan_scan(ts) == Ok::<RecoveryView, RecoveryErrorView>(RecoveryView::Clean),
    decreases ts.len(),
{
    if ts.len() > 0 {
        assert(settled(ts[0].0, ts[0].1));
        assert forall|k: int| 0 <= k < ts.drop_first().len() implies settled(
            #[trigger] ts.drop_first()[k].0,
            ts.drop_first()[k].1,
        ) by {
            assert(ts.drop_first()[k] == ts[k + 1]);
            assert(settled(ts[k + 1].0, ts[k + 1].1));
        }
        lemma_settled_prefix_is_clean(ts.drop_first());
    }
}

/// The staging directory is consulted only for a planning transaction whose
/// journal is empty: otherwise what it holds, or a failure to list it,
/// changes nothing.
pub proof fn lemma_staging_consulted_only_for_empty_plans(
    txid: Seq<char>,
    status: TransactionStatus,
    has_journal_entries: bool,
    a: StagingEvidence,
    b: StagingEvidence,
)
    requires
        status != TransactionStatus::Planning || has_journal_entries,
    ensures
        status_action(txid, status, has_journal_entries, a) == status_action(
            txid,
            status,
            has_journal_entries,
            b,
        ),
{
}

/// A transaction named by the active marker always calls for something:
/// recovery never reports such a prefix clean.
pub proof fn lemma_active_marker_is_never_clean(txid: Seq<char>, e: EvidenceView)
    ensures
        active_action(txid, e) != Ok::<RecoveryView, RecoveryErrorView>(RecoveryView::Clean),
{
}

/// A clean prefix, a failed transaction and a repair request are left as
/// they are: repair runs no step for them and answers the same action.
pub proof fn lemma_repair_leaves_quiet_actions(l: PrefixLayout, a: RecoveryView, e: EvidenceView)
    requires
        a is Clean || a is BlockedFailed || a is RepairRequired,
    ensures
        repair_steps_spec(l, a).len() == 0,
        repaired_action(a, e) == Ok::<RecoveryView, RecoveryErrorView>(a),
{
}

/// Repairing twice answers what repairing once did.
pub proof fn lemma_repair_outcome_idempotent(a: RecoveryView, e: EvidenceView)
    ensures
        match repaired_action(a, e) {
            Ok(b) => repaired_action(b, e) == Ok::<RecoveryView, RecoveryErrorView>(b),
            Err(_) => true,
        },
{
}

} // verus!
