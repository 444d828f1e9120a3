//! Install receipts: the `key=value` text written for every installed
//! package, and its parser (tolerant of unknown keys, strict about names,
//! versions, install reasons and timestamps).
use vstd::prelude::*;

use crate::text::{
    chars_eq_str, chars_of, decimal_string, extend_chars, extend_str, lines, lines_of,
    parse_u64, parse_unsigned, split_once, split_once_chars, string_of, trim, trim_chars,
    u64_to_chars, split_on, lemma_split_without_separator, lemma_split_append_piece,
};
use crate::types::{
    opt_view, strings_view, InstallMode, InstallReason, InstallReceipt, ReceiptView,
};

verus! {

/// Why a receipt could not be read.
#[derive(Clone, Copy, Debug, PartialEq, Eq, Structural)]
pub enum ReceiptParseError {
    MissingName,
    MissingVersion,
    MissingInstalledAt,
    InvalidInstalledAt,
    InvalidInstallReason,
}

impl ReceiptParseError {
    /// The description of this error.
    pub open spec fn message_spec(&self) -> Seq<char> {
        match self {
            ReceiptParseError::MissingName => "missing name"@,
            ReceiptParseError::MissingVersion => "missing version"@,
            ReceiptParseError::MissingInstalledAt => "missing installed_at_unix"@,
            ReceiptParseError::InvalidInstalledAt => "installed_at_unix must be u64"@,
            ReceiptParseError::InvalidInstallReason => "invalid install_reason"@,
        }
    }

    /// A human-readable description.
    pub fn message(&self) -> (r: &'static str)
        ensures
            r@ == self.message_spec(),
    {
        match self {
            ReceiptParseError::MissingName => "missing name",
            ReceiptParseError::MissingVersion => "missing version",
            ReceiptParseError::MissingInstalledAt => "missing installed_at_unix",
            ReceiptParseError::InvalidInstalledAt => "installed_at_unix must be u64",
            ReceiptParseError::InvalidInstallReason => "invalid install_reason",
        }
    }
}

/// Lines joined, each followed by `'\n'`.
pub open spec fn concat_lines(ls: Seq<Seq<char>>) -> Seq<char>
    decreases ls.len(),
{
    if ls.len() == 0 {
        Seq::<char>::empty()
    } else {
        concat_lines(ls.drop_last()) + ls.last() + seq!['\n']
    }
}

/// Text split at newlines after joining lines that hold none: the lines,
/// then what followed the last line ending.
pub proof fn lemma_split_concat_lines(ls: Seq<Seq<char>>, t: Seq<char>)
    requires
        forall|k: int| 0 <= k < ls.len() ==> !(#[trigger] ls[k]).contains('\n'),
        !t.contains('\n'),
    ensures
        split_on(concat_lines(ls) + t, '\n') == ls.push(t),
    decreases ls.len(),
{
    if ls.len() == 0 {
        assert(concat_lines(ls) + t =~= t);
        lemma_split_without_separator(t, '\n');
        assert(ls.push(t) =~= seq![t]);
    } else {
        let init = ls.drop_last();
        let l = ls.last();
        assert(!l.contains('\n')) by {
            assert(ls[ls.len() - 1] == l);
        }
        assert forall|k: int| 0 <= k < init.len() implies !(#[trigger] init[k]).contains('\n') by {
            assert(init[k] == ls[k]);
        }
        lemma_split_concat_lines(init, l);
        assert(concat_lines(ls) + t =~= (concat_lines(init) + l) + seq!['\n'] + t);
        lemma_split_append_piece(concat_lines(init) + l, t, '\n');
        assert(init.push(l) =~= ls);
    }
}

/// Reading back joined lines that hold no line break and do not end with
/// `'\r'` gives the lines.
pub proof fn lemma_lines_of_concat(ls: Seq<Seq<char>>)
    requires
        forall|k: int| 0 <= k < ls.len() ==> !(#[trigger] ls[k]).contains('\n'),
        forall|k: int|
            0 <= k < ls.len() ==> (#[trigger] ls[k]).len() == 0 || ls[k].last() != '\r',
    ensures
        lines(concat_lines(ls)) == ls,
{
    lemma_split_concat_lines(ls, Seq::<char>::empty());
    assert(concat_lines(ls) + Seq::<char>::empty() =~= concat_lines(ls));
    let parts = split_on(concat_lines(ls), '\n');
    assert(parts.drop_last() =~= ls);
    assert(lines(concat_lines(ls)) =~= ls);
}

/// `key=value`.
pub open spec fn kv(key: Seq<char>, value: Seq<char>) -> Seq<char> {
    key + seq!['='] + value
}

pub open spec fn kv_list(key: Seq<char>, values: Seq<Seq<char>>) -> Seq<Seq<char>> {
    values.map_values(|v: Seq<char>| kv(key, v))
}

pub open spec fn kv_opt(key: Seq<char>, value: Option<Seq<char>>) -> Seq<Seq<char>> {
    match value {
        Some(v) => seq![kv(key, v)],
        None => Seq::<Seq<char>>::empty(),
    }
}

/// The rows of a receipt, in the order they are written.
pub open spec fn receipt_lines(r: ReceiptView) -> Seq<Seq<char>> {
    seq![kv("name"@, r.name), kv("version"@, r.version)] + kv_list("dependency"@, r.dependencies)
        + kv_opt("target"@, r.target) + kv_opt("artifact_url"@, r.artifact_url) + kv_opt(
        "artifact_sha256"@,
        r.artifact_sha256,
    ) + kv_opt("cache_path"@, r.cache_path) + kv_list("exposed_bin"@, r.exposed_bins)
        + kv_list("exposed_completion"@, r.exposed_completions) + kv_opt(
        "snapshot_id"@,
        r.snapshot_id,
    ) + seq![
        kv("install_mode"@, r.install_mode.token()),
        kv("install_reason"@, r.install_reason.token()),
        kv("install_status"@, r.install_status),
        kv("installed_at_unix"@, decimal_string(r.installed_at_unix as nat)),
    ]
}

/// The text of a receipt.
pub open spec fn render_receipt(r: ReceiptView) -> Seq<char> {
    concat_lines(receipt_lines(r))
}

/// Fields collected while reading a receipt.
pub struct ReceiptFields {
    pub name: Option<Seq<char>>,
    pub version: Option<Seq<char>>,
    pub dependencies: Seq<Seq<char>>,
    pub target: Option<Seq<char>>,
    pub artifact_url: Option<Seq<char>>,
    pub artifact_sha256: Option<Seq<char>>,
    pub cache_path: Option<Seq<char>>,
    pub exposed_bins: Seq<Seq<char>>,
    pub exposed_completions: Seq<Seq<char>>,
    pub snapshot_id: Option<Seq<char>>,
    pub install_mode: Option<InstallMode>,
    pub install_reason: Option<InstallReason>,
    pub install_status: Option<Seq<char>>,
    pub installed_at_unix: Option<u64>,
}

pub open spec fn no_fields() -> ReceiptFields {
    ReceiptFields {
        name: None,
        version: None,
        dependencies: Seq::empty(),
        target: None,
        artifact_url: None,
        artifact_sha256: None,
        cache_path: None,
        exposed_bins: Seq::empty(),
        exposed_completions: Seq::empty(),
        snapshot_id: None,
        install_mode: None,
        install_reason: None,
        install_status: None,
        installed_at_unix: None,
    }
}

/// The effect of one `key=value` row; unknown keys are ignored.
pub open spec fn apply_field(f: ReceiptFields, k: Seq<char>, v: Seq<char>) -> Result<
    ReceiptFields,
    ReceiptParseError,
> {
    if k == "name"@ {
        Ok(ReceiptFields { name: Some(v), ..f })
    } else if k == "version"@ {
        Ok(ReceiptFields { version: Some(v), ..f })
    } else if k == "dependency"@ {
        Ok(ReceiptFields { dependencies: f.dependencies.push(v), ..f })
    } else if k == "target"@ {
        Ok(ReceiptFields { target: Some(v), ..f })
    } else if k == "artifact_url"@ {
        Ok(ReceiptFields { artifact_url: Some(v), ..f })
    } else if k == "artifact_sha256"@ {
        Ok(ReceiptFields { artifact_sha256: Some(v), ..f })
    } else if k == "cache_path"@ {
        Ok(ReceiptFields { cache_path: Some(v), ..f })
    } else if k == "exposed_bin"@ {
        Ok(ReceiptFields { exposed_bins: f.exposed_bins.push(v), ..f })
    } else if k == "exposed_completion"@ {
        Ok(ReceiptFields { exposed_completions: f.exposed_completions.push(v), ..f })
    } else if k == "snapshot_id"@ {
        Ok(ReceiptFields { snapshot_id: Some(v), ..f })
    } else if k == "install_mode"@ {
        Ok(ReceiptFields { install_mode: Some(InstallMode::from_receipt_token(v)), ..f })
    } else if k == "install_reason"@ {
        match InstallReason::from_token(v) {
            Some(r) => Ok(ReceiptFields { install_reason: Some(r), ..f }),
            None => Err(ReceiptParseError::InvalidInstallReason),
        }
    } else if k == "install_status"@ {
        Ok(ReceiptFields { install_status: Some(v), ..f })
    } else if k == "installed_at_unix"@ {
        match parse_unsigned(v, u64::MAX as int) {
            Some(n) => Ok(ReceiptFields { installed_at_unix: Some(n as u64), ..f }),
            None => Err(ReceiptParseError::InvalidInstalledAt),
        }
    } else {
        Ok(f)
    }
}

/// One line: trimmed; blank lines and lines without `=` are skipped.
pub open spec fn receipt_step(
    acc: Result<ReceiptFields, ReceiptParseError>,
    line: Seq<char>,
) -> Result<ReceiptFields, ReceiptParseError> {
    match acc {
        Err(e) => Err(e),
        Ok(f) => {
            let t = trim(line);
            if t.len() == 0 {
                Ok(f)
            } else {
                match split_once(t, '=') {
                    None => Ok(f),
                    Some((k, v)) => apply_field(f, k, v),
                }
            }
        },
    }
}

pub open spec fn receipt_fold_from(
    acc: Result<ReceiptFields, ReceiptParseError>,
    ls: Seq<Seq<char>>,
) -> Result<ReceiptFields, ReceiptParseError>
    decreases ls.len(),
{
    if ls.len() == 0 {
        acc
    } else {
        receipt_step(receipt_fold_from(acc, ls.drop_last()), ls.last())
    }
}

/// The receipt the collected fields make, with defaults for optional rows.
pub open spec fn finish_receipt(f: ReceiptFields) -> Result<ReceiptView, ReceiptParseError> {
    if f.name is None {
        Err(ReceiptParseError::MissingName)
    } else if f.version is None {
        Err(ReceiptParseError::MissingVersion)
    } else if f.installed_at_unix is None {
        Err(ReceiptParseError::MissingInstalledAt)
    } else {
        Ok(
            ReceiptView {
                name: f.name->0,
                version: f.version->0,
                dependencies: f.dependencies,
                target: f.target,
                artifact_url: f.artifact_url,
                artifact_sha256: f.artifact_sha256,
                cache_path: f.cache_path,
                exposed_bins: f.exposed_bins,
                exposed_completions: f.exposed_completions,
                snapshot_id: f.snapshot_id,
                install_mode: match f.install_mode {
                    Some(m) => m,
                    None => InstallMode::Managed,
                },
                install_reason: match f.install_reason {
                    Some(r) => r,
                    None => InstallReason::Root,
                },
                install_status: match f.install_status {
                    Some(s) => s,
                    None => "installed"@,
                },
                installed_at_unix: f.installed_at_unix->0,
            },
        )
    }
}

/// What reading the receipt text `raw` yields.
pub open spec fn parse_receipt_spec(raw: Seq<char>) -> Result<ReceiptView, ReceiptParseError> {
    match receipt_fold_from(Ok(no_fields()), lines(raw)) {
        Err(e) => Err(e),
        Ok(f) => finish_receipt(f),
    }
}

struct FieldsAcc {
    name: Option<String>,
    version: Option<String>,
    dependencies: Vec<String>,
    target: Option<String>,
    artifact_url: Option<String>,
    artifact_sha256: Option<String>,
    cache_path: Option<String>,
    exposed_bins: Vec<String>,
    exposed_completions: Vec<String>,
    snapshot_id: Option<String>,
    install_mode: Option<InstallMode>,
    install_reason: Option<InstallReason>,
    install_status: Option<String>,
    installed_at_unix: Option<u64>,
}

impl View for FieldsAcc {
    type V = ReceiptFields;

    closed spec fn view(&self) -> ReceiptFields {
        ReceiptFields {
            name: opt_view(self.name),
            version: opt_view(self.version),
            dependencies: strings_view(self.dependencies@),
            target: opt_view(self.target),
            artifact_url: opt_view(self.artifact_url),
            artifact_sha256: opt_view(self.artifact_sha256),
            cache_path: opt_view(self.cache_path),
            exposed_bins: strings_view(self.exposed_bins@),
            exposed_completions: strings_view(self.exposed_completions@),
            snapshot_id: opt_view(self.snapshot_id),
            install_mode: self.install_mode,
            install_reason: self.install_reason,
            install_status: opt_view(self.install_status),
            installed_at_unix: self.installed_at_unix,
        }
    }
}

fn push_string(v: &mut Vec<String>, s: String)
    ensures
        strings_view(final(v)@) == strings_view(old(v)@).push(s@),
{
    v.push(s);
    assert(strings_view(v@) =~= strings_view(old(v)@).push(s@));
}

fn apply_field_exec(f: &mut FieldsAcc, k: &[char], v: &[char]) -> (r: Result<(), ReceiptParseError>)
    ensures
        match apply_field(old(f)@, k@, v@) {
            Ok(g) => r is Ok && final(f)@ == g,
            Err(e) => r == Err::<(), ReceiptParseError>(e),
        },
{
    if chars_eq_str(k, "name") {
        f.name = Some(string_of(v));
    } else if chars_eq_str(k, "version") {
        f.version = Some(string_of(v));
    } else if chars_eq_str(k, "dependency") {
        push_string(&mut f.dependencies, string_of(v));
    } else if chars_eq_str(k, "target") {
        f.target = Some(string_of(v));
    } else if chars_eq_str(k, "artifact_url") {
        f.artifact_url = Some(string_of(v));
    } else if chars_eq_str(k, "artifact_sha256") {
        f.artifact_sha256 = Some(string_of(v));
    } else if chars_eq_str(k, "cache_path") {
        f.cache_path = Some(string_of(v));
    } else if chars_eq_str(k, "exposed_bin") {
        push_string(&mut f.exposed_bins, string_of(v));
    } else if chars_eq_str(k, "exposed_completion") {
        push_string(&mut f.exposed_completions, string_of(v));
    } else if chars_eq_str(k, "snapshot_id") {
        f.snapshot_id = Some(string_of(v));
    } else if chars_eq_str(k, "install_mode") {
        f.install_mode = Some(InstallMode::parse_receipt_chars(v));
    } else if chars_eq_str(k, "install_reason") {
        match InstallReason::parse_chars(v) {
            Some(r) => {
                f.install_reason = Some(r);
            },
            None => {
                return Err(ReceiptParseError::InvalidInstallReason);
            },
        }
    } else if chars_eq_str(k, "install_status") {
        f.install_status = Some(string_of(v));
    } else if chars_eq_str(k, "installed_at_unix") {
        match parse_u64(v) {
            Some(n) => {
                f.installed_at_unix = Some(n);
            },
            None => {
                return Err(ReceiptParseError::InvalidInstalledAt);
            },
        }
    }
    Ok(())
}

/// Reads an install receipt (see `parse_receipt_spec`).
pub fn parse_receipt(raw: &str) -> (r: Result<InstallReceipt, ReceiptParseError>)
    ensures
        match r {
            Ok(receipt) => parse_receipt_spec(raw@) == Ok::<ReceiptView, ReceiptParseError>(
                receipt@,
            ),
            Err(e) => parse_receipt_spec(raw@) == Err::<ReceiptView, ReceiptParseError>(e),
        },
{
    let chars = chars_of(raw);
    let ls = lines_of(chars.as_slice());
    let ghost all = lines(raw@);
    let mut f = FieldsAcc {
        name: None,
        version: None,
        dependencies: Vec::new(),
        target: None,
        artifact_url: None,
        artifact_sha256: None,
        cache_path: None,
        exposed_bins: Vec::new(),
        exposed_completions: Vec::new(),
        snapshot_id: None,
        install_mode: None,
        install_reason: None,
        install_status: None,
        installed_at_unix: None,
    };
    assert(f@.dependencies =~= Seq::<Seq<char>>::empty());
    assert(f@.exposed_bins =~= Seq::<Seq<char>>::empty());
    assert(f@.exposed_completions =~= Seq::<Seq<char>>::empty());
    let n = ls.len();
    let mut i: usize = 0;
    while i < n
        invariant
            n == ls@.len(),
            n == all.len(),
            all == lines(raw@),
            forall|k: int| 0 <= k < n ==> #[trigger] ls@[k]@ == all[k],
            i <= n,
            receipt_fold_from(Ok(no_fields()), all.take(i as int)) == Ok::<
                ReceiptFields,
                ReceiptParseError,
            >(f@),
        decreases n - i,
    {
        proof {
            assert(all.take(i + 1).drop_last() =~= all.take(i as int));
            assert(all.take(i + 1).last() == all[i as int]);
        }
        let t = trim_chars(ls[i].as_slice());
        if t.len() > 0 {
            match split_once_chars(t.as_slice(), '=') {
                None => {},
                Some((k, v)) => {
                    let res = apply_field_exec(&mut f, k.as_slice(), v.as_slice());
                    if let Err(e) = res {
                        proof {
                            lemma_fold_error_sticks(all, i as int + 1, e);
                        }
                        return Err(e);
                    }
                },
            }
        }
        i = i + 1;
    }
    assert(all.take(n as int) =~= all);
    let name = match f.name {
        Some(s) => s,
        None => return Err(ReceiptParseError::MissingName),
    };
    let version = match f.version {
        Some(s) => s,
        None => return Err(ReceiptParseError::MissingVersion),
    };
    let installed_at_unix = match f.installed_at_unix {
        Some(t) => t,
        None => return Err(ReceiptParseError::MissingInstalledAt),
    };
    Ok(
        InstallReceipt {
            name,
            version,
            dependencies: f.dependencies,
            target: f.target,
            artifact_url: f.artifact_url,
            artifact_sha256: f.artifact_sha256,
            cache_path: f.cache_path,
            exposed_bins: f.exposed_bins,
            exposed_completions: f.exposed_completions,
            snapshot_id: f.snapshot_id,
            install_mode: match f.install_mode {
                Some(m) => m,
                None => InstallMode::Managed,
            },
            install_reason: match f.install_reason {
                Some(r) => r,
                None => InstallReason::Root,
            },
            install_status: match f.install_status {
                Some(s) => s,
                None => String::from_str("installed"),
            },
            installed_at_unix,
        },
    )
}

/// Once reading fails, the remaining lines do not change the error.
proof fn lemma_fold_error_sticks(all: Seq<Seq<char>>, i: int, e: ReceiptParseError)
    requires
        0 <= i <= all.len(),
        receipt_fold_from(Ok(no_fields()), all.take(i)) == Err::<ReceiptFields, ReceiptParseError>(
            e,
        ),
    ensures
        receipt_fold_from(Ok(no_fields()), all) == Err::<ReceiptFields, ReceiptParseError>(e),
    decreases all.len() - i,
{
    if i < all.len() {
        assert(all.take(i + 1).drop_last() =~= all.take(i));
        lemma_fold_error_sticks(all, i + 1, e);
    } else {
        assert(all.take(i) =~= all);
    }
}

fn push_line(out: &mut Vec<char>, Ghost(ls): Ghost<Seq<Seq<char>>>, key: &str, value: &[char])
    requires
        old(out)@ == concat_lines(ls),
    ensures
        final(out)@ == concat_lines(ls.push(kv(key@, value@))),
{
    extend_str(out, key);
    out.push('=');
    extend_chars(out, value);
    out.push('\n');
    proof {
        let l = kv(key@, value@);
        assert(ls.push(l).drop_last() =~= ls);
        assert(final(out)@ =~= concat_lines(ls) + l + seq!['\n']);
    }
}

fn push_list(out: &mut Vec<char>, Ghost(ls): Ghost<Seq<Seq<char>>>, key: &str, values: &Vec<String>)
    requires
        old(out)@ == concat_lines(ls),
    ensures
        final(out)@ == concat_lines(ls + kv_list(key@, strings_view(values@))),
{
    let n = values.len();
    let mut i: usize = 0;
    let ghost vs = strings_view(values@);
    while i < n
        invariant
            n == values@.len(),
            vs == strings_view(values@),
            i <= n,
            out@ == concat_lines(ls + kv_list(key@, vs.take(i as int))),
        decreases n - i,
    {
        let c = chars_of(values[i].as_str());
        proof {
            assert(ls + kv_list(key@, vs.take(i + 1)) =~= (ls + kv_list(key@, vs.take(i as int))).push(
                kv(key@, c@),
            ));
        }
        push_line(out, Ghost(ls + kv_list(key@, vs.take(i as int))), key, c.as_slice());
        i = i + 1;
    }
    assert(vs.take(n as int) =~= vs);
}

fn push_opt(out: &mut Vec<char>, Ghost(ls): Ghost<Seq<Seq<char>>>, key: &str, value: &Option<String>)
    requires
        old(out)@ == concat_lines(ls),
    ensures
        final(out)@ == concat_lines(ls + kv_opt(key@, opt_view(*value))),
{
    match value {
        Some(v) => {
            let c = chars_of(v.as_str());
            push_line(out, Ghost(ls), key, c.as_slice());
            assert(ls + kv_opt(key@, opt_view(*value)) =~= ls.push(kv(key@, c@)));
        },
        None => {
            assert(ls + kv_opt(key@, opt_view(*value)) =~= ls);
        },
    }
}

/// The text of an install receipt (see `render_receipt`).
pub fn render_install_receipt(receipt: &InstallReceipt) -> (r: String)
    ensures
        r@ == render_receipt(receipt@),
{
    let rv = Ghost(receipt@);
    let mut out: Vec<char> = Vec::new();
    let ghost mut ls: Seq<Seq<char>> = Seq::empty();
    let name = chars_of(receipt.name.as_str());
    push_line(&mut out, Ghost(ls), "name", name.as_slice());
    proof {
        ls = ls.push(kv("name"@, name@));
    }
    let version = chars_of(receipt.version.as_str());
    push_line(&mut out, Ghost(ls), "version", version.as_slice());
    proof {
        ls = ls.push(kv("version"@, version@));
        assert(ls =~= seq![kv("name"@, rv@.name), kv("version"@, rv@.version)]);
    }
    push_list(&mut out, Ghost(ls), "dependency", &receipt.dependencies);
    proof {
        ls = ls + kv_list("dependency"@, rv@.dependencies);
    }
    push_opt(&mut out, Ghost(ls), "target", &receipt.target);
    proof {
        ls = ls + kv_opt("target"@, rv@.target);
    }
    push_opt(&mut out, Ghost(ls), "artifact_url", &receipt.artifact_url);
    proof {
        ls = ls + kv_opt("artifact_url"@, rv@.artifact_url);
    }
    push_opt(&mut out, Ghost(ls), "artifact_sha256", &receipt.artifact_sha256);
    proof {
        ls = ls + kv_opt("artifact_sha256"@, rv@.artifact_sha256);
    }
    push_opt(&mut out, Ghost(ls), "cache_path", &receipt.cache_path);
    proof {
        ls = ls + kv_opt("cache_path"@, rv@.cache_path);
    }
    push_list(&mut out, Ghost(ls), "exposed_bin", &receipt.exposed_bins);
    proof {
        ls = ls + kv_list("exposed_bin"@, rv@.exposed_bins);
    }
    push_list(&mut out, Ghost(ls), "exposed_completion", &receipt.exposed_completions);
    proof {
        ls = ls + kv_list("exposed_completion"@, rv@.exposed_completions);
    }
    push_opt(&mut out, Ghost(ls), "snapshot_id", &receipt.snapshot_id);
    proof {
        ls = ls + kv_opt("snapshot_id"@, rv@.snapshot_id);
    }
    let mode = chars_of(receipt.install_mode.as_str());
    push_line(&mut out, Ghost(ls), "install_mode", mode.as_slice());
    proof {
        ls = ls.push(kv("install_mode"@, mode@));
    }
    let reason = chars_of(receipt.install_reason.as_str());
    push_line(&mut out, Ghost(ls), "install_reason", reason.as_slice());
    proof {
        ls = ls.push(kv("install_reason"@, reason@));
    }
    let status = chars_of(receipt.install_status.as_str());
    push_line(&mut out, Ghost(ls), "install_status", status.as_slice());
    proof {
        ls = ls.push(kv("install_status"@, status@));
    }
    let at = u64_to_chars(receipt.installed_at_unix);
    push_line(&mut out, Ghost(ls), "installed_at_unix", at.as_slice());
    proof {
        ls = ls.push(kv("installed_at_unix"@, at@));
        assert(ls =~= receipt_lines(rv@));
    }
    string_of(out.as_slice())
}

/// No receipt is listed after one whose name comes after its own.
pub open spec fn receipts_sorted_by_name(s: Seq<InstallReceipt>) -> bool {
    forall|i: int, j: int|
        0 <= i < j < s.len() ==> !crate::order::chars_lt(#[trigger] s[j].name@, #[trigger] s[i].name@)
}

/// Whether a receipt is of the package named `n`.
pub open spec fn named(n: Seq<char>) -> spec_fn(InstallReceipt) -> bool {
    |r: InstallReceipt| r.name@ == n
}

/// Receipts ordered by package name; receipts of one name keep the order
/// they were given in.
pub fn sort_receipts_by_name(receipts: Vec<InstallReceipt>) -> (r: Vec<InstallReceipt>)
    ensures
        receipts_sorted_by_name(r@),
        r@.to_multiset() == receipts@.to_multiset(),
        forall|n: Seq<char>| #[trigger] r@.filter(named(n)) == receipts@.filter(named(n)),
{
    let ghost orig = receipts@;
    let mut rest = receipts;
    let mut out: Vec<InstallReceipt> = Vec::new();
    let ghost mut i: int = 0;
    assert(orig.take(0) =~= Seq::<InstallReceipt>::empty());
    assert(orig.skip(0) =~= orig);
    while rest.len() > 0
        invariant
            0 <= i <= orig.len(),
            rest@ == orig.skip(i),
            out@.to_multiset() == orig.take(i).to_multiset(),
            receipts_sorted_by_name(out@),
            forall|n: Seq<char>| #[trigger] out@.filter(named(n)) == orig.take(i).filter(named(n)),
        decreases rest@.len(),
    {
        let x = rest.remove(0);
        proof {
            assert(orig.take(i + 1) =~= orig.take(i).push(x));
            assert(rest@ =~= orig.skip(i + 1));
            vstd::seq_lib::to_multiset_build(orig.take(i), x);
        }
        let mut p: usize = 0;
        while p < out.len()
            invariant
                p <= out@.len(),
                forall|k: int| 0 <= k < p ==> !crate::order::chars_lt(x.name@, #[trigger] out@[k].name@),
            ensures
                p <= out@.len(),
                forall|k: int| 0 <= k < p ==> !crate::order::chars_lt(x.name@, #[trigger] out@[k].name@),
                p < out@.len() ==> crate::order::chars_lt(x.name@, out@[p as int].name@),
            decreases out@.len() - p,
        {
            if crate::order::str_precedes(x.name.as_str(), out[p].name.as_str()) {
                break;
            }
            p = p + 1;
        }
        proof {
            let s = out@;
            let t = s.insert(p as int, x);
            s.insert_ensures(p as int, x);
            assert forall|a: int, b: int| 0 <= a < b < t.len() implies !crate::order::chars_lt(
                #[trigger] t[b].name@,
                #[trigger] t[a].name@,
            ) by {
                if b < p {
                    assert(t[a] == s[a] && t[b] == s[b]);
                } else if b == p {
                    assert(t[a] == s[a]);
                } else if a == p {
                    assert(t[b] == s[b - 1]);
                    crate::order::lemma_chars_lt_irreflexive(x.name@);
                    if crate::order::chars_lt(s[b - 1].name@, x.name@) {
                        crate::order::lemma_chars_lt_transitive(s[b - 1].name@, x.name@, s[p as int].name@);
                        if b - 1 == p {
                            crate::order::lemma_chars_lt_transitive(x.name@, s[p as int].name@, x.name@);
                        }
                    }
                } else if a < p {
                    assert(t[a] == s[a] && t[b] == s[b - 1]);
                } else {
                    assert(t[a] == s[a - 1] && t[b] == s[b - 1]);
                }
            }
            assert forall|n: Seq<char>| #[trigger] t.filter(named(n)) == orig.take(i + 1).filter(
                named(n),
            ) by {
                crate::order::lemma_filter_insert(s, p as int, x, named(n));
                crate::order::lemma_filter_single(x, named(n));
                crate::order::lemma_filter_push(orig.take(i), x, named(n));
                if x.name@ == n {
                    let rest_part = s.skip(p as int);
                    assert forall|k: int| 0 <= k < rest_part.len() implies !(named(n))(
                        #[trigger] rest_part[k],
                    ) by {
                        assert(rest_part[k] == s[k + p]);
                        crate::order::lemma_chars_lt_irreflexive(x.name@);
                        if k > 0 {
                            assert(!crate::order::chars_lt(s[k + p].name@, s[p as int].name@));
                        }
                    }
                    crate::order::lemma_filter_none(rest_part, named(n));
                }
            }
            vstd::seq_lib::to_multiset_insert(out@, p as int, x);
        }
        out.insert(p, x);
        proof {
            i = i + 1;
        }
    }
    assert(orig.take(i) =~= orig);
    out
}

} // verus!
