//! The integration activation state file: `version=1` followed by one
//! `activation=` row per record, ten tab-separated fields each.
use vstd::prelude::*;

use crate::activation_plan::join_with;
use crate::receipts::{concat_lines, lemma_lines_of_concat};
use crate::text::{
    chars_eq_str, chars_of, contains_char, extend_chars, extend_str, lemma_split_append_piece,
    lemma_split_without_separator, lines, lines_of, parse_u64, parse_unsigned, split_chars,
    split_on, split_once, split_once_chars, str_eq, string_of, trim, trim_chars,
};
use crate::types::{
    opt_view, IntegrationActivationRecord, IntegrationActivationScope, IntegrationAdapterKind,
    IntegrationAppliedState, IntegrationDesiredState, IntegrationReasonCode, RecordView,
};

verus! {

/// The state file format version this library reads and writes.
pub const INTEGRATION_ACTIVATION_STATE_VERSION: u32 = 1;

/// Why the activation state could not be read or written.
#[derive(Clone, Copy, Debug, PartialEq, Eq, Structural)]
pub enum ActivationStateError {
    InvalidRow,
    DuplicateVersion,
    InvalidVersion,
    DuplicateRecord,
    MissingVersion,
    UnsupportedVersion,
    InvalidAdapter,
    InvalidScope,
    InvalidDesiredState,
    InvalidAppliedState,
    InvalidReasonCode,
    DelimiterInValue,
}

impl ActivationStateError {
    /// The description of this error.
    pub open spec fn message_spec(&self) -> Seq<char> {
        match self {
            ActivationStateError::InvalidRow => "invalid integration activation state row format"@,
            ActivationStateError::DuplicateVersion => "duplicate integration activation state version"@,
            ActivationStateError::InvalidVersion => "invalid integration activation state version"@,
            ActivationStateError::DuplicateRecord => "duplicate integration activation state record"@,
            ActivationStateError::MissingVersion => "missing integration activation state version"@,
            ActivationStateError::UnsupportedVersion => "unsupported integration activation state version"@,
            ActivationStateError::InvalidAdapter => "invalid integration adapter kind"@,
            ActivationStateError::InvalidScope => "invalid integration activation scope"@,
            ActivationStateError::InvalidDesiredState => "invalid integration desired state"@,
            ActivationStateError::InvalidAppliedState => "invalid integration applied state"@,
            ActivationStateError::InvalidReasonCode => "invalid integration reason code"@,
            ActivationStateError::DelimiterInValue => "integration activation state values must not contain tabs or newlines"@,
        }
    }

    /// A human-readable description.
    pub fn message(&self) -> (r: &'static str)
        ensures
            r@ == self.message_spec(),
    {
        match self {
            ActivationStateError::InvalidRow => "invalid integration activation state row format",
            ActivationStateError::DuplicateVersion => "duplicate integration activation state version",
            ActivationStateError::InvalidVersion => "invalid integration activation state version",
            ActivationStateError::DuplicateRecord => "duplicate integration activation state record",
            ActivationStateError::MissingVersion => "missing integration activation state version",
            ActivationStateError::UnsupportedVersion => "unsupported integration activation state version",
            ActivationStateError::InvalidAdapter => "invalid integration adapter kind",
            ActivationStateError::InvalidScope => "invalid integration activation scope",
            ActivationStateError::InvalidDesiredState => "invalid integration desired state",
            ActivationStateError::InvalidAppliedState => "invalid integration applied state",
            ActivationStateError::InvalidReasonCode => "invalid integration reason code",
            ActivationStateError::DelimiterInValue => "integration activation state values must not contain tabs or newlines",
        }
    }
}

/// The host path as written: empty for none.
pub open spec fn host_text(h: Option<Seq<char>>) -> Seq<char> {
    match h {
        Some(p) => p,
        None => Seq::empty(),
    }
}

/// The ten fields of a record's row.
pub open spec fn record_fields(r: RecordView) -> Seq<Seq<char>> {
    seq![
        r.package_state_key,
        r.package,
        r.integration_key,
        r.kind,
        r.adapter.token(),
        r.scope.token(),
        r.desired_state.token(),
        r.applied_state.token(),
        host_text(r.host_path),
        r.reason_code.token(),
    ]
}

/// A record's row.
pub open spec fn record_line(r: RecordView) -> Seq<char> {
    "activation="@ + join_with(record_fields(r), '\t')
}

/// The text written for a non-empty list of records.
pub open spec fn render_state(rs: Seq<RecordView>) -> Seq<char> {
    concat_lines(seq!["version=1"@] + rs.map_values(|r: RecordView| record_line(r)))
}

pub open spec fn free_of_delimiters(s: Seq<char>) -> bool {
    !s.contains('\t') && !s.contains('\n')
}

/// The free-text fields of a record hold no tab or newline.
pub open spec fn fields_writable(r: RecordView) -> bool {
    &&& free_of_delimiters(r.package_state_key)
    &&& free_of_delimiters(r.package)
    &&& free_of_delimiters(r.integration_key)
    &&& free_of_delimiters(r.kind)
    &&& free_of_delimiters(host_text(r.host_path))
}

/// Some record names the same package state key and integration key.
pub open spec fn has_key(rs: Seq<RecordView>, package_state_key: Seq<char>, integration_key: Seq<char>) -> bool {
    exists|k: int|
        0 <= k < rs.len() && (#[trigger] rs[k]).package_state_key == package_state_key
            && rs[k].integration_key == integration_key
}

/// The first problem found writing the records in order: a field with a
/// delimiter, or a record whose keys an earlier record already used.
pub open spec fn render_problem(rs: Seq<RecordView>) -> Option<ActivationStateError>
    decreases rs.len(),
{
    if rs.len() == 0 {
        None
    } else {
        match render_problem(rs.drop_last()) {
            Some(e) => Some(e),
            None => if !fields_writable(rs.last()) {
                Some(ActivationStateError::DelimiterInValue)
            } else if has_key(rs.drop_last(), rs.last().package_state_key, rs.last().integration_key) {
                Some(ActivationStateError::DuplicateRecord)
            } else {
                None
            },
        }
    }
}

pub open spec fn records_view(v: Seq<IntegrationActivationRecord>) -> Seq<RecordView> {
    v.map_values(|r: IntegrationActivationRecord| r@)
}

/// A row's value: ten tab-separated fields, the five tokens read in order.
pub open spec fn parse_row_spec(v: Seq<char>) -> Result<RecordView, ActivationStateError> {
    let f = split_on(v, '\t');
    if f.len() != 10 {
        Err(ActivationStateError::InvalidRow)
    } else {
        match IntegrationAdapterKind::from_token(f[4]) {
            None => Err(ActivationStateError::InvalidAdapter),
            Some(adapter) => match IntegrationActivationScope::from_token(f[5]) {
                None => Err(ActivationStateError::InvalidScope),
                Some(scope) => match IntegrationDesiredState::from_token(f[6]) {
                    None => Err(ActivationStateError::InvalidDesiredState),
                    Some(desired_state) => match IntegrationAppliedState::from_token(f[7]) {
                        None => Err(ActivationStateError::InvalidAppliedState),
                        Some(applied_state) => match IntegrationReasonCode::from_token(f[9]) {
                            None => Err(ActivationStateError::InvalidReasonCode),
                            Some(reason_code) => Ok(
                                RecordView {
                                    package_state_key: f[0],
                                    package: f[1],
                                    integration_key: f[2],
                                    kind: f[3],
                                    adapter,
                                    scope,
                                    desired_state,
                                    applied_state,
                                    host_path: if f[8].len() == 0 {
                                        None
                                    } else {
                                        Some(f[8])
                                    },
                                    reason_code,
                                },
                            ),
                        },
                    },
                },
            },
        }
    }
}

/// What a reader has collected.
pub struct StateAcc {
    pub version: Option<u32>,
    pub records: Seq<RecordView>,
}

/// One line: blank lines are skipped; `version` may come once and
/// `activation` rows may not repeat a record's keys; any other row is
/// refused.
pub open spec fn state_step(acc: Result<StateAcc, ActivationStateError>, line: Seq<char>) -> Result<
    StateAcc,
    ActivationStateError,
> {
    match acc {
        Err(e) => Err(e),
        Ok(a) => if trim(line).len() == 0 {
            Ok(a)
        } else {
            match split_once(line, '=') {
                None => Err(ActivationStateError::InvalidRow),
                Some((k, v)) => if k == "version"@ {
                    if a.version is Some {
                        Err(ActivationStateError::DuplicateVersion)
                    } else {
                        match parse_unsigned(v, u32::MAX as int) {
                            Some(n) => Ok(StateAcc { version: Some(n as u32), ..a }),
                            None => Err(ActivationStateError::InvalidVersion),
                        }
                    }
                } else if k == "activation"@ {
                    match parse_row_spec(v) {
                        Err(e) => Err(e),
                        Ok(r) => if has_key(a.records, r.package_state_key, r.integration_key) {
                            Err(ActivationStateError::DuplicateRecord)
                        } else {
                            Ok(StateAcc { records: a.records.push(r), ..a })
                        },
                    }
                } else {
                    Err(ActivationStateError::InvalidRow)
                },
            }
        },
    }
}

pub open spec fn state_fold(ls: Seq<Seq<char>>) -> Result<StateAcc, ActivationStateError>
    decreases ls.len(),
{
    if ls.len() == 0 {
        Ok(StateAcc { version: None, records: Seq::empty() })
    } else {
        state_step(state_fold(ls.drop_last()), ls.last())
    }
}

/// What reading state text yields: its records, once a version 1 was read.
pub open spec fn parse_state_spec(raw: Seq<char>) -> Result<Seq<RecordView>, ActivationStateError> {
    match state_fold(lines(raw)) {
        Err(e) => Err(e),
        Ok(a) => match a.version {
            None => Err(ActivationStateError::MissingVersion),
            Some(v) => if v != 1 {
                Err(ActivationStateError::UnsupportedVersion)
            } else {
                Ok(a.records)
            },
        },
    }
}

fn parse_activation_row(value: &[char]) -> (r: Result<IntegrationActivationRecord, ActivationStateError>)
    ensures
        match r {
            Ok(rec) => parse_row_spec(value@) == Ok::<RecordView, ActivationStateError>(rec@),
            Err(e) => parse_row_spec(value@) == Err::<RecordView, ActivationStateError>(e),
        },
{
    let f = split_chars(value, '\t');
    if f.len() != 10 {
        return Err(ActivationStateError::InvalidRow);
    }
    let adapter = match IntegrationAdapterKind::parse_chars(f[4].as_slice()) {
        Some(x) => x,
        None => {
            return Err(ActivationStateError::InvalidAdapter);
        },
    };
    let scope = match IntegrationActivationScope::parse_chars(f[5].as_slice()) {
        Some(x) => x,
        None => {
            return Err(ActivationStateError::InvalidScope);
        },
    };
    let desired_state = match IntegrationDesiredState::parse_chars(f[6].as_slice()) {
        Some(x) => x,
        None => {
            return Err(ActivationStateError::InvalidDesiredState);
        },
    };
    let applied_state = match IntegrationAppliedState::parse_chars(f[7].as_slice()) {
        Some(x) => x,
        None => {
            return Err(ActivationStateError::InvalidAppliedState);
        },
    };
    let reason_code = match IntegrationReasonCode::parse_chars(f[9].as_slice()) {
        Some(x) => x,
        None => {
            return Err(ActivationStateError::InvalidReasonCode);
        },
    };
    Ok(
        IntegrationActivationRecord {
            package_state_key: string_of(f[0].as_slice()),
            package: string_of(f[1].as_slice()),
            integration_key: string_of(f[2].as_slice()),
            kind: string_of(f[3].as_slice()),
            adapter,
            scope,
            desired_state,
            applied_state,
            host_path: if f[8].len() == 0 {
                None
            } else {
                Some(string_of(f[8].as_slice()))
            },
            reason_code,
        },
    )
}

/// Whether some record already uses the keys.
fn records_have_key(
    records: &Vec<IntegrationActivationRecord>,
    package_state_key: &str,
    integration_key: &str,
) -> (r: bool)
    ensures
        r == has_key(records_view(records@), package_state_key@, integration_key@),
{
    let n = records.len();
    let mut i: usize = 0;
    while i < n
        invariant
            n == records@.len(),
            i <= n,
            forall|k: int|
                0 <= k < i ==> !((#[trigger] records@[k])@.package_state_key == package_state_key@
                    && records@[k]@.integration_key == integration_key@),
        decreases n - i,
    {
        if str_eq(records[i].package_state_key.as_str(), package_state_key) && str_eq(
            records[i].integration_key.as_str(),
            integration_key,
        ) {
            assert(records_view(records@)[i as int] == records@[i as int]@);
            return true;
        }
        i = i + 1;
    }
    proof {
        if has_key(records_view(records@), package_state_key@, integration_key@) {
            let k = choose|k: int|
                0 <= k < records_view(records@).len() && (#[trigger] records_view(
                    records@,
                )[k]).package_state_key == package_state_key@ && records_view(
                    records@,
                )[k].integration_key == integration_key@;
            assert(records_view(records@)[k] == records@[k]@);
        }
    }
    false
}

proof fn lemma_state_error_sticks(all: Seq<Seq<char>>, i: int, e: ActivationStateError)
    requires
        0 <= i <= all.len(),
        state_fold(all.take(i)) == Err::<StateAcc, ActivationStateError>(e),
    ensures
        state_fold(all) == Err::<StateAcc, ActivationStateError>(e),
    decreases all.len() - i,
{
    if i < all.len() {
        assert(all.take(i + 1).drop_last() =~= all.take(i));
        lemma_state_error_sticks(all, i + 1, e);
    } else {
        assert(all.take(i) =~= all);
    }
}

/// Reads activation state text (see `parse_state_spec`).
pub fn parse_integration_activation_state(raw: &str) -> (r: Result<
    Vec<IntegrationActivationRecord>,
    ActivationStateError,
>)
    ensures
        match r {
            Ok(v) => parse_state_spec(raw@) == Ok::<Seq<RecordView>, ActivationStateError>(
                records_view(v@),
            ),
            Err(e) => parse_state_spec(raw@) == Err::<Seq<RecordView>, ActivationStateError>(e),
        },
{
    let chars = chars_of(raw);
    let ls = lines_of(chars.as_slice());
    let ghost all = lines(raw@);
    let mut version: Option<u32> = None;
    let mut records: Vec<IntegrationActivationRecord> = Vec::new();
    let n = ls.len();
    let mut i: usize = 0;
    proof {
        assert(all.take(0) =~= Seq::<Seq<char>>::empty());
        assert(records_view(records@) =~= Seq::<RecordView>::empty());
    }
    while i < n
        invariant
            n == ls@.len(),
            n == all.len(),
            all == lines(raw@),
            forall|k: int| 0 <= k < n ==> #[trigger] ls@[k]@ == all[k],
            i <= n,
            state_fold(all.take(i as int)) == Ok::<StateAcc, ActivationStateError>(
                StateAcc { version: version, records: records_view(records@) },
            ),
        decreases n - i,
    {
        proof {
            assert(all.take(i + 1).drop_last() =~= all.take(i as int));
            assert(all.take(i + 1).last() == all[i as int]);
        }
        let line = ls[i].as_slice();
        let t = trim_chars(line);
        if t.len() > 0 {
            match split_once_chars(line, '=') {
                None => {
                    proof {
                        lemma_state_error_sticks(all, i as int + 1, ActivationStateError::InvalidRow);
                    }
                    return Err(ActivationStateError::InvalidRow);
                },
                Some((k, v)) => {
                    if chars_eq_str(k.as_slice(), "version") {
                        if version.is_some() {
                            proof {
                                lemma_state_error_sticks(
                                    all,
                                    i as int + 1,
                                    ActivationStateError::DuplicateVersion,
                                );
                            }
                            return Err(ActivationStateError::DuplicateVersion);
                        }
                        match parse_u64(v.as_slice()) {
                            Some(x) if x <= 0xffff_ffff => {
                                version = Some(x as u32);
                            },
                            _ => {
                                proof {
                                    lemma_state_error_sticks(
                                        all,
                                        i as int + 1,
                                        ActivationStateError::InvalidVersion,
                                    );
                                }
                                return Err(ActivationStateError::InvalidVersion);
                            },
                        }
                    } else if chars_eq_str(k.as_slice(), "activation") {
                        match parse_activation_row(v.as_slice()) {
                            Ok(rec) => {
                                if records_have_key(
                                    &records,
                                    rec.package_state_key.as_str(),
                                    rec.integration_key.as_str(),
                                ) {
                                    proof {
                                        lemma_state_error_sticks(
                                            all,
                                            i as int + 1,
                                            ActivationStateError::DuplicateRecord,
                                        );
                                    }
                                    return Err(ActivationStateError::DuplicateRecord);
                                }
                                let ghost before = records_view(records@);
                                let ghost rv = rec@;
                                records.push(rec);
                                proof {
                                    assert(records_view(records@) =~= before.push(rv));
                                }
                            },
                            Err(e) => {
                                proof {
                                    lemma_state_error_sticks(all, i as int + 1, e);
                                }
                                return Err(e);
                            },
                        }
                    } else {
                        proof {
                            lemma_state_error_sticks(
                                all,
                                i as int + 1,
                                ActivationStateError::InvalidRow,
                            );
                        }
                        return Err(ActivationStateError::InvalidRow);
                    }
                },
            }
        }
        i = i + 1;
    }
    assert(all.take(n as int) =~= all);
    match version {
        None => Err(ActivationStateError::MissingVersion),
        Some(v) => {
            if v != INTEGRATION_ACTIVATION_STATE_VERSION {
                Err(ActivationStateError::UnsupportedVersion)
            } else {
                Ok(records)
            }
        },
    }
}

// ---------------------------------------------------------------------------
// writing

/// A token is a non-empty run of plain characters: no tab, no line break.
pub open spec fn plain_token(t: Seq<char>) -> bool {
    t.len() > 0 && !t.contains('\t') && !t.contains('\n') && !t.contains('\r')
}

proof fn lemma_tokens_plain(r: RecordView)
    ensures
        plain_token(r.adapter.token()),
        plain_token(r.scope.token()),
        plain_token(r.desired_state.token()),
        plain_token(r.applied_state.token()),
        plain_token(r.reason_code.token()),
{
    reveal_strlit("docker-cli");
    reveal_strlit("path-plugin-bin");
    reveal_strlit("systemd-user");
    reveal_strlit("launchd-user");
    reveal_strlit("windows-service-user");
    reveal_strlit("none");
    reveal_strlit("user");
    reveal_strlit("system");
    reveal_strlit("enabled");
    reveal_strlit("running");
    reveal_strlit("installed");
    reveal_strlit("stopped");
    reveal_strlit("failed");
    reveal_strlit("unsupported");
    reveal_strlit("ok");
    reveal_strlit("host-path-conflict");
    reveal_strlit("escalation-required");
    reveal_strlit("unsupported-host");
    reveal_strlit("invalid-service-metadata");
    reveal_strlit("adapter-tool-missing");
    reveal_strlit("native-command-failed");
}

/// The row text of a record, built field by field.
fn record_row(rec: &IntegrationActivationRecord) -> (r: Vec<char>)
    ensures
        r@ == record_line(rec@),
{
    let mut line = chars_of("activation=");
    extend_str(&mut line, rec.package_state_key.as_str());
    line.push('\t');
    extend_str(&mut line, rec.package.as_str());
    line.push('\t');
    extend_str(&mut line, rec.integration_key.as_str());
    line.push('\t');
    extend_str(&mut line, rec.kind.as_str());
    line.push('\t');
    extend_str(&mut line, rec.adapter.as_str());
    line.push('\t');
    extend_str(&mut line, rec.scope.as_str());
    line.push('\t');
    extend_str(&mut line, rec.desired_state.as_str());
    line.push('\t');
    extend_str(&mut line, rec.applied_state.as_str());
    line.push('\t');
    match &rec.host_path {
        Some(h) => extend_str(&mut line, h.as_str()),
        None => {},
    }
    line.push('\t');
    extend_str(&mut line, rec.reason_code.as_str());
    proof {
        let f = record_fields(rec@);
        reveal_with_fuel(join_with, 11);
        assert(f.drop_last().drop_last().drop_last().drop_last().drop_last().drop_last().drop_last().drop_last().drop_last() =~= seq![f[0]]);
        assert(line@ =~= record_line(rec@));
    }
    line
}

fn has_delimiter(s: &str) -> (r: bool)
    ensures
        r == !free_of_delimiters(s@),
{
    let c = chars_of(s);
    contains_char(c.as_slice(), '\t') || contains_char(c.as_slice(), '\n')
}

fn record_has_delimiter(rec: &IntegrationActivationRecord) -> (r: bool)
    ensures
        r == !fields_writable(rec@),
{
    has_delimiter(rec.package_state_key.as_str()) || has_delimiter(rec.package.as_str())
        || has_delimiter(rec.integration_key.as_str()) || has_delimiter(rec.kind.as_str())
        || match &rec.host_path {
        Some(h) => has_delimiter(h.as_str()),
        None => {
            assert(free_of_delimiters(Seq::<char>::empty()));
            false
        },
    }
}

/// Whether a record before index `end` already uses the keys.
fn prefix_has_key(
    records: &Vec<IntegrationActivationRecord>,
    end: usize,
    package_state_key: &str,
    integration_key: &str,
) -> (r: bool)
    requires
        end <= records@.len(),
    ensures
        r == has_key(records_view(records@).take(end as int), package_state_key@, integration_key@),
{
    let ghost pre = records_view(records@).take(end as int);
    let mut i: usize = 0;
    while i < end
        invariant
            end <= records@.len(),
            pre == records_view(records@).take(end as int),
            i <= end,
            forall|k: int|
                0 <= k < i ==> !((#[trigger] pre[k]).package_state_key == package_state_key@
                    && pre[k].integration_key == integration_key@),
        decreases end - i,
    {
        assert(pre[i as int] == records@[i as int]@);
        if str_eq(records[i].package_state_key.as_str(), package_state_key) && str_eq(
            records[i].integration_key.as_str(),
            integration_key,
        ) {
            return true;
        }
        i = i + 1;
    }
    false
}

proof fn lemma_render_problem_sticks(rs: Seq<RecordView>, i: int, e: ActivationStateError)
    requires
        0 <= i <= rs.len(),
        render_problem(rs.take(i)) == Some(e),
    ensures
        render_problem(rs) == Some(e),
    decreases rs.len() - i,
{
    if i < rs.len() {
        assert(rs.take(i + 1).drop_last() =~= rs.take(i));
        lemma_render_problem_sticks(rs, i + 1, e);
    } else {
        assert(rs.take(i) =~= rs);
    }
}

/// The state text for the records: `None` when there are none (the state
/// file is then removed), an error at the first record with a tab or newline
/// in a field, or repeating an earlier record's keys.
pub fn render_integration_activation_state(records: &Vec<IntegrationActivationRecord>) -> (r: Result<
    Option<String>,
    ActivationStateError,
>)
    ensures
        records@.len() == 0 ==> r == Ok::<Option<String>, ActivationStateError>(None),
        records@.len() > 0 ==> match r {
            Ok(Some(text)) => render_problem(records_view(records@)) is None && text@
                == render_state(records_view(records@)),
            Ok(None) => false,
            Err(e) => render_problem(records_view(records@)) == Some(e),
        },
{
    let n = records.len();
    if n == 0 {
        return Ok(None);
    }
    let ghost rv = records_view(records@);
    let mut out = chars_of("version=1\n");
    proof {
        reveal_strlit("version=1\n");
        reveal_strlit("version=1");
        let one = seq!["version=1"@];
        assert(one.drop_last() =~= Seq::<Seq<char>>::empty());
        assert(concat_lines(one) == concat_lines(one.drop_last()) + one.last() + seq!['\n']);
        assert(out@ =~= concat_lines(one));
        assert(rv.take(0).map_values(|r: RecordView| record_line(r)) =~= Seq::<Seq<char>>::empty());
        assert(one + rv.take(0).map_values(|r: RecordView| record_line(r)) =~= one);
        assert(rv.take(0) =~= Seq::<RecordView>::empty());
    }
    let mut i: usize = 0;
    while i < n
        invariant
            n == records@.len(),
            rv == records_view(records@),
            rv.len() == n,
            i <= n,
            render_problem(rv.take(i as int)) is None,
            out@ == concat_lines(
                seq!["version=1"@] + rv.take(i as int).map_values(|r: RecordView| record_line(r)),
            ),
        decreases n - i,
    {
        let rec = &records[i];
        proof {
            assert(rv.take(i + 1).drop_last() =~= rv.take(i as int));
            assert(rv.take(i + 1).last() == rec@);
        }
        if record_has_delimiter(rec) {
            proof {
                lemma_render_problem_sticks(rv, i + 1, ActivationStateError::DelimiterInValue);
            }
            return Err(ActivationStateError::DelimiterInValue);
        }
        if prefix_has_key(records, i, rec.package_state_key.as_str(), rec.integration_key.as_str()) {
            proof {
                lemma_render_problem_sticks(rv, i + 1, ActivationStateError::DuplicateRecord);
            }
            return Err(ActivationStateError::DuplicateRecord);
        }
        let ghost before = out@;
        let row = record_row(rec);
        extend_chars(&mut out, row.as_slice());
        out.push('\n');
        proof {
            let prev = seq!["version=1"@] + rv.take(i as int).map_values(
                |r: RecordView| record_line(r),
            );
            let next = seq!["version=1"@] + rv.take(i + 1).map_values(
                |r: RecordView| record_line(r),
            );
            assert(next =~= prev.push(record_line(rec@)));
            assert(next.drop_last() =~= prev);
            assert(out@ =~= before + record_line(rec@) + seq!['\n']);
        }
        i = i + 1;
    }
    assert(rv.take(n as int) =~= rv);
    Ok(Some(string_of(out.as_slice())))
}

// ---------------------------------------------------------------------------
// reading back what was written

pub(crate) proof fn lemma_joined_free(fs: Seq<Seq<char>>, c: char, x: char)
    requires
        c != x,
        forall|k: int| 0 <= k < fs.len() ==> !(#[trigger] fs[k]).contains(x),
    ensures
        !join_with(fs, c).contains(x),
    decreases fs.len(),
{
    if fs.len() == 0 {
    } else if fs.len() == 1 {
    } else {
        lemma_joined_free(fs.drop_last(), c, x);
        assert(!fs.last().contains(x)) by {
            assert(fs[fs.len() - 1] == fs.last());
        }
        assert(!seq![c].contains(x)) by {
            if seq![c].contains(x) {
                assert(seq![c][0] == c);
            }
        }
        crate::text::lemma_concat_free(join_with(fs.drop_last(), c), seq![c], x);
        crate::text::lemma_concat_free(join_with(fs.drop_last(), c) + seq![c], fs.last(), x);
    }
}

pub(crate) proof fn lemma_split_joined(fs: Seq<Seq<char>>, c: char)
    requires
        fs.len() >= 1,
        forall|k: int| 0 <= k < fs.len() ==> !(#[trigger] fs[k]).contains(c),
    ensures
        split_on(join_with(fs, c), c) == fs,
    decreases fs.len(),
{
    if fs.len() == 1 {
        lemma_split_without_separator(fs[0], c);
        assert(seq![fs[0]] =~= fs);
    } else {
        lemma_split_joined(fs.drop_last(), c);
        assert(!fs.last().contains(c)) by {
            assert(fs[fs.len() - 1] == fs.last());
        }
        lemma_split_append_piece(join_with(fs.drop_last(), c), fs.last(), c);
        assert(fs.drop_last().push(fs.last()) =~= fs);
    }
}

/// What a written row looks like to the reader.
proof fn lemma_record_line_reads_back(r: RecordView)
    requires
        fields_writable(r),
        r.host_path != Some(Seq::<char>::empty()),
    ensures
        !record_line(r).contains('\n'),
        record_line(r).last() != '\r',
        trim(record_line(r)).len() > 0,
        split_once(record_line(r), '=') == Some(("activation"@, join_with(record_fields(r), '\t'))),
        parse_row_spec(join_with(record_fields(r), '\t')) == Ok::<RecordView, ActivationStateError>(r),
{
    lemma_tokens_plain(r);
    let f = record_fields(r);
    let j = join_with(f, '\t');
    let line = record_line(r);
    reveal_strlit("activation=");
    reveal_strlit("activation");
    assert forall|k: int| 0 <= k < f.len() implies !(#[trigger] f[k]).contains('\t') && !f[k].contains(
        '\n',
    ) by {}
    lemma_split_joined(f, '\t');
    lemma_joined_free(f, '\t', '\n');
    assert(!"activation="@.contains('\n'));
    crate::text::lemma_concat_free("activation="@, j, '\n');
    // The row ends with the reason code's last character.
    reveal_with_fuel(join_with, 2);
    assert(j == join_with(f.drop_last(), '\t') + seq!['\t'] + f.last());
    assert(f.last() == r.reason_code.token());
    assert(line.last() == f.last().last());
    assert(f.last().last() == f.last()[f.last().len() - 1]);
    // Trimming keeps the row.
    assert(line[0] == 'a');
    crate::text::lemma_trim_nonblank(line);
    // The first `=` closes the key.
    assert forall|k: int| 0 <= k < 10 implies line[k] != '=' by {
        assert(line[k] == "activation="@[k]);
    }
    assert(line[10] == '=');
    crate::text::lemma_find_first(line, '=', 10);
    assert(line.take(10) =~= "activation"@);
    assert(line.skip(11) =~= j);
    // The fields read back as the record.
    r.adapter.lemma_token_round_trip();
    r.scope.lemma_token_round_trip();
    r.desired_state.lemma_token_round_trip();
    r.applied_state.lemma_token_round_trip();
    r.reason_code.lemma_token_round_trip();
    match r.host_path {
        Some(p) => {
            assert(p.len() != 0) by {
                if p.len() == 0 {
                    assert(p =~= Seq::<char>::empty());
                }
            }
        },
        None => {},
    }
}

/// A list that can be written has writable records with distinct keys.
proof fn lemma_writable_records(rs: Seq<RecordView>, k: int)
    requires
        render_problem(rs) is None,
        0 <= k < rs.len(),
    ensures
        fields_writable(rs[k]),
        !has_key(rs.take(k), rs[k].package_state_key, rs[k].integration_key),
    decreases rs.len(),
{
    if k < rs.len() - 1 {
        lemma_writable_records(rs.drop_last(), k);
        assert(rs.drop_last()[k] == rs[k]);
        assert(rs.drop_last().take(k) =~= rs.take(k));
    } else {
        assert(rs.take(k) =~= rs.drop_last());
    }
}

/// What reading the row of record `k` finds.
spec fn row_reads_back(rs: Seq<RecordView>, k: int) -> bool {
    let l = record_line(rs[k]);
    &&& !l.contains('\n')
    &&& l.last() != '\r'
    &&& trim(l).len() > 0
    &&& split_once(l, '=') == Some(("activation"@, join_with(record_fields(rs[k]), '\t')))
    &&& parse_row_spec(join_with(record_fields(rs[k]), '\t')) == Ok::<RecordView, ActivationStateError>(
        rs[k],
    )
    &&& !has_key(rs.take(k), rs[k].package_state_key, rs[k].integration_key)
}

proof fn lemma_fold_rows(rs: Seq<RecordView>, ls: Seq<Seq<char>>, k: int)
    requires
        0 <= k <= rs.len(),
        ls == seq!["version=1"@] + rs.map_values(|r: RecordView| record_line(r)),
        forall|j: int| 0 <= j < rs.len() ==> #[trigger] row_reads_back(rs, j),
        state_fold(ls.take(1)) == Ok::<StateAcc, ActivationStateError>(
            StateAcc { version: Some(1), records: Seq::empty() },
        ),
    ensures
        state_fold(ls.take(k + 1)) == Ok::<StateAcc, ActivationStateError>(
            StateAcc { version: Some(1), records: rs.take(k) },
        ),
    decreases k,
{
    reveal_strlit("version");
    reveal_strlit("activation");
    if k == 0 {
        assert(rs.take(0) =~= Seq::<RecordView>::empty());
    } else {
        lemma_fold_rows(rs, ls, k - 1);
        assert(row_reads_back(rs, k - 1));
        assert(ls.take(k + 1).drop_last() =~= ls.take(k));
        assert(ls.take(k + 1).last() == record_line(rs[k - 1]));
        assert(rs.take(k - 1).push(rs[k - 1]) =~= rs.take(k));
        assert("activation"@.len() != "version"@.len());
    }
}

/// Writing records and reading the text back gives the same records, for
/// records that can be written (see `render_problem`) whose host paths, where
/// present, are not empty.
pub proof fn lemma_state_round_trip(rs: Seq<RecordView>)
    requires
        render_problem(rs) is None,
        forall|k: int| 0 <= k < rs.len() ==> (#[trigger] rs[k]).host_path != Some(Seq::<char>::empty()),
    ensures
        parse_state_spec(render_state(rs)) == Ok::<Seq<RecordView>, ActivationStateError>(rs),
{
    reveal_strlit("version=1");
    reveal_strlit("version");
    reveal_strlit("activation");
    let ls = seq!["version=1"@] + rs.map_values(|r: RecordView| record_line(r));
    assert forall|k: int| 0 <= k < rs.len() implies #[trigger] row_reads_back(rs, k) by {
        lemma_writable_records(rs, k);
        lemma_record_line_reads_back(rs[k]);
    }
    // The version row.
    let v = "version=1"@;
    assert(!v.contains('\n'));
    assert(v.last() != '\r');
    assert(v[0] == 'v');
    crate::text::lemma_trim_nonblank(v);
    assert forall|k: int| 0 <= k < 7 implies v[k] != '=' by {}
    crate::text::lemma_find_first(v, '=', 7);
    assert(v.take(7) =~= "version"@);
    assert(v.skip(8) =~= seq!['1']);
    assert(crate::text::unsigned_digits(seq!['1']) =~= seq!['1']);
    assert(crate::text::decimal_value(seq!['1']) == 1) by {
        let one = seq!['1'];
        assert(one.drop_last() =~= Seq::<char>::empty());
        assert(crate::text::decimal_value(Seq::<char>::empty()) == 0);
        assert(crate::text::digit_val('1') == 1);
        assert(one.last() == '1');
        assert(crate::text::decimal_value(one) == crate::text::decimal_value(one.drop_last()) * 10
            + crate::text::digit_val(one.last()));
    }
    assert(parse_unsigned(seq!['1'], u32::MAX as int) == Some(1int));
    // Every row reads back.
    assert forall|k: int| 0 <= k < ls.len() implies !(#[trigger] ls[k]).contains('\n') && (
    ls[k].len() == 0 || ls[k].last() != '\r') by {
        if k > 0 {
            assert(ls[k] == record_line(rs[k - 1]));
            assert(row_reads_back(rs, k - 1));
        } else {
            assert(ls[k] == v);
        }
    }
    lemma_lines_of_concat(ls);
    // Folding the rows collects the records.
    assert(ls.take(1) =~= seq![v]);
    assert(seq![v].drop_last() =~= Seq::<Seq<char>>::empty());
    assert(state_fold(seq![v].drop_last()) == Ok::<StateAcc, ActivationStateError>(
        StateAcc { version: None, records: Seq::empty() },
    ));
    assert(crate::text::all_digits(seq!['1']));
    assert(state_fold(ls.take(1)) == Ok::<StateAcc, ActivationStateError>(
        StateAcc { version: Some(1), records: Seq::empty() },
    ));
    lemma_fold_rows(rs, ls, rs.len() as int);
    assert(ls.take(rs.len() as int + 1) =~= ls);
    assert(rs.take(rs.len() as int) =~= rs);
}

} // verus!
