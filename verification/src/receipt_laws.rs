//! What reading back a written install receipt gives.
use vstd::prelude::*;

use crate::receipts::{
    apply_field, concat_lines, finish_receipt, kv, kv_list, kv_opt, lemma_lines_of_concat,
    no_fields, parse_receipt_spec, receipt_fold_from, receipt_lines, receipt_step, render_receipt,
    ReceiptFields, ReceiptParseError,
};
use crate::text::{
    all_digits, decimal_string, decimal_value, digit_val, is_ascii_digit, is_ws, parse_unsigned,
    split_once, trim, unsigned_digits,
};
use crate::types::{InstallMode, InstallReason, ReceiptView};

verus! {

/// A value that a `key=value` row carries intact: no line break, and no
/// whitespace at its end (rows are trimmed when read).
pub open spec fn value_ok(v: Seq<char>) -> bool {
    !v.contains('\n') && (v.len() == 0 || !is_ws(v.last()))
}

pub open spec fn opt_value_ok(o: Option<Seq<char>>) -> bool {
    match o {
        Some(v) => value_ok(v),
        None => true,
    }
}

pub open spec fn values_ok(vs: Seq<Seq<char>>) -> bool {
    forall|k: int| 0 <= k < vs.len() ==> value_ok(#[trigger] vs[k])
}

/// A receipt whose every value a row carries intact.
pub open spec fn receipt_round_trips(r: ReceiptView) -> bool {
    &&& value_ok(r.name)
    &&& value_ok(r.version)
    &&& values_ok(r.dependencies)
    &&& opt_value_ok(r.target)
    &&& opt_value_ok(r.artifact_url)
    &&& opt_value_ok(r.artifact_sha256)
    &&& opt_value_ok(r.cache_path)
    &&& values_ok(r.exposed_bins)
    &&& values_ok(r.exposed_completions)
    &&& opt_value_ok(r.snapshot_id)
    &&& value_ok(r.install_status)
}

/// A row key: not empty, starting with a non-space, without `=` or a line
/// break.
spec fn key_ok(k: Seq<char>) -> bool {
    k.len() > 0 && !is_ws(k[0]) && !k.contains('=') && !k.contains('\n')
}

proof fn lemma_keys_ok()
    ensures
        key_ok("name"@),
        key_ok("version"@),
        key_ok("dependency"@),
        key_ok("target"@),
        key_ok("artifact_url"@),
        key_ok("artifact_sha256"@),
        key_ok("cache_path"@),
        key_ok("exposed_bin"@),
        key_ok("exposed_completion"@),
        key_ok("snapshot_id"@),
        key_ok("install_mode"@),
        key_ok("install_reason"@),
        key_ok("install_status"@),
        key_ok("installed_at_unix"@),
{
    reveal_strlit("name");
    reveal_strlit("version");
    reveal_strlit("dependency");
    reveal_strlit("target");
    reveal_strlit("artifact_url");
    reveal_strlit("artifact_sha256");
    reveal_strlit("cache_path");
    reveal_strlit("exposed_bin");
    reveal_strlit("exposed_completion");
    reveal_strlit("snapshot_id");
    reveal_strlit("install_mode");
    reveal_strlit("install_reason");
    reveal_strlit("install_status");
    reveal_strlit("installed_at_unix");
}

/// A row reads as the field it was written from.
proof fn lemma_row_step(f: ReceiptFields, key: Seq<char>, v: Seq<char>)
    requires
        key_ok(key),
        value_ok(v),
    ensures
        receipt_step(Ok(f), kv(key, v)) == apply_field(f, key, v),
{
    let l = kv(key, v);
    assert(l =~= key + seq!['='] + v);
    assert(l[0] == key[0]);
    if v.len() > 0 {
        assert(l.last() == v.last());
    } else {
        assert(l.last() == '=');
    }
    crate::text::lemma_trim_unchanged(l);
    assert forall|i: int| 0 <= i < key.len() implies l[i] != '=' by {
        assert(l[i] == key[i]);
    }
    crate::text::lemma_find_first(l, '=', key.len() as int);
    assert(l.take(key.len() as int) =~= key);
    assert(l.skip(key.len() as int + 1) =~= v);
}

proof fn lemma_row_free(key: Seq<char>, v: Seq<char>)
    requires
        key_ok(key),
        value_ok(v),
    ensures
        !kv(key, v).contains('\n'),
        kv(key, v).last() != '\r',
{
    assert(!seq!['='].contains('\n')) by {
        if seq!['='].contains('\n') {
            assert(seq!['='][0] == '=');
        }
    }
    crate::text::lemma_concat_free(key, seq!['='], '\n');
    crate::text::lemma_concat_free(key + seq!['='], v, '\n');
    if v.len() > 0 {
        assert(kv(key, v).last() == v.last());
    } else {
        assert(kv(key, v).last() == '=');
    }
}

proof fn lemma_fold_append(
    acc: Result<ReceiptFields, ReceiptParseError>,
    a: Seq<Seq<char>>,
    b: Seq<Seq<char>>,
)
    ensures
        receipt_fold_from(acc, a + b) == receipt_fold_from(receipt_fold_from(acc, a), b),
    decreases b.len(),
{
    if b.len() == 0 {
        assert(a + b =~= a);
    } else {
        lemma_fold_append(acc, a, b.drop_last());
        assert((a + b).drop_last() =~= a + b.drop_last());
        assert((a + b).last() == b.last());
    }
}

/// The fields after applying the rows of one key to `f`, value by value.
spec fn apply_values(
    f: Result<ReceiptFields, ReceiptParseError>,
    key: Seq<char>,
    vs: Seq<Seq<char>>,
) -> Result<ReceiptFields, ReceiptParseError>
    decreases vs.len(),
{
    if vs.len() == 0 {
        f
    } else {
        match apply_values(f, key, vs.drop_last()) {
            Err(e) => Err(e),
            Ok(g) => apply_field(g, key, vs.last()),
        }
    }
}

proof fn lemma_fold_rows(f: ReceiptFields, key: Seq<char>, vs: Seq<Seq<char>>)
    requires
        key_ok(key),
        values_ok(vs),
    ensures
        receipt_fold_from(Ok(f), kv_list(key, vs)) == apply_values(Ok(f), key, vs),
    decreases vs.len(),
{
    if vs.len() > 0 {
        lemma_fold_rows(f, key, vs.drop_last());
        assert(kv_list(key, vs).drop_last() =~= kv_list(key, vs.drop_last()));
        assert(kv_list(key, vs).last() == kv(key, vs.last()));
        match apply_values(Ok(f), key, vs.drop_last()) {
            Ok(g) => {
                assert(value_ok(vs[vs.len() - 1]));
                lemma_row_step(g, key, vs.last());
            },
            Err(e) => {},
        }
    } else {
        assert(kv_list(key, vs) =~= Seq::<Seq<char>>::empty());
    }
}

proof fn lemma_fold_opt(f: ReceiptFields, key: Seq<char>, o: Option<Seq<char>>)
    requires
        key_ok(key),
        opt_value_ok(o),
    ensures
        receipt_fold_from(Ok(f), kv_opt(key, o)) == match o {
            Some(v) => apply_field(f, key, v),
            None => Ok(f),
        },
{
    match o {
        Some(v) => {
            assert(kv_opt(key, o) == seq![kv(key, v)]);
            lemma_fold_one(f, key, v);
        },
        None => {},
    }
}

proof fn lemma_fold_one(f: ReceiptFields, key: Seq<char>, v: Seq<char>)
    requires
        key_ok(key),
        value_ok(v),
    ensures
        receipt_fold_from(Ok(f), seq![kv(key, v)]) == apply_field(f, key, v),
{
    let s = seq![kv(key, v)];
    let e = Seq::<Seq<char>>::empty();
    assert(s.drop_last() =~= e);
    assert(receipt_fold_from(Ok(f), e) == Ok::<ReceiptFields, ReceiptParseError>(f));
    assert(s.last() == kv(key, v));
    assert(receipt_fold_from(Ok(f), s) == receipt_step(receipt_fold_from(Ok(f), s.drop_last()), s.last()));
    lemma_row_step(f, key, v);
}

proof fn lemma_apply_list_values(f: ReceiptFields, vs: Seq<Seq<char>>)
    ensures
        apply_values(Ok(f), "dependency"@, vs) == Ok::<ReceiptFields, ReceiptParseError>(
            ReceiptFields { dependencies: f.dependencies + vs, ..f },
        ),
        apply_values(Ok(f), "exposed_bin"@, vs) == Ok::<ReceiptFields, ReceiptParseError>(
            ReceiptFields { exposed_bins: f.exposed_bins + vs, ..f },
        ),
        apply_values(Ok(f), "exposed_completion"@, vs) == Ok::<ReceiptFields, ReceiptParseError>(
            ReceiptFields { exposed_completions: f.exposed_completions + vs, ..f },
        ),
    decreases vs.len(),
{
    reveal_strlit("name");
    reveal_strlit("version");
    reveal_strlit("dependency");
    reveal_strlit("target");
    reveal_strlit("artifact_url");
    reveal_strlit("artifact_sha256");
    reveal_strlit("cache_path");
    reveal_strlit("exposed_bin");
    reveal_strlit("exposed_completion");
    if vs.len() == 0 {
        assert(f.dependencies + vs =~= f.dependencies);
        assert(f.exposed_bins + vs =~= f.exposed_bins);
        assert(f.exposed_completions + vs =~= f.exposed_completions);
    } else {
        lemma_apply_list_values(f, vs.drop_last());
        assert(f.dependencies + vs.drop_last() + seq![vs.last()] =~= f.dependencies + vs);
        assert((f.dependencies + vs.drop_last()).push(vs.last()) =~= f.dependencies + vs);
        assert((f.exposed_bins + vs.drop_last()).push(vs.last()) =~= f.exposed_bins + vs);
        assert((f.exposed_completions + vs.drop_last()).push(vs.last()) =~= f.exposed_completions
            + vs);
        assert("name"@.len() == 4 && "version"@.len() == 7 && "dependency"@.len() == 10);
        assert("target"@.len() == 6 && "artifact_url"@.len() == 12);
        assert("artifact_sha256"@.len() == 15 && "cache_path"@.len() == 10);
        assert("exposed_bin"@.len() == 11 && "exposed_completion"@.len() == 18);
    }
}

/// The digits of a number read back as the number.
pub proof fn lemma_decimal_reads_back(n: nat)
    ensures
        decimal_string(n).len() > 0,
        all_digits(decimal_string(n)),
        decimal_value(decimal_string(n)) == n,
        decimal_string(n)[0] != '+',
        !decimal_string(n).contains('\n'),
        !is_ws(decimal_string(n).last()),
    decreases n,
{
    let s = decimal_string(n);
    if n < 10 {
        let c = (('0' as int) + n) as char;
        assert(s == seq![c]);
        assert(is_ascii_digit(c));
        assert(seq![c].drop_last() =~= Seq::<char>::empty());
        assert(digit_val(c) == n);
        assert(decimal_value(seq![c]) == decimal_value(seq![c].drop_last()) * 10 + digit_val(
            seq![c].last(),
        ));
        assert(!s.contains('\n')) by {
            if s.contains('\n') {
                assert(s[0] == c);
            }
        }
    } else {
        lemma_decimal_reads_back(n / 10);
        let p = decimal_string(n / 10);
        let c = (('0' as int) + n % 10) as char;
        assert(s == p.push(c));
        assert(s.drop_last() =~= p);
        assert(digit_val(c) == n % 10);
        assert(decimal_value(s) == decimal_value(p) * 10 + digit_val(c));
        assert(all_digits(s)) by {
            assert forall|k: int| 0 <= k < s.len() implies is_ascii_digit(#[trigger] s[k]) by {
                if k < p.len() {
                    assert(s[k] == p[k]);
                }
            }
        }
        assert(s[0] == p[0]);
        assert(!s.contains('\n')) by {
            if s.contains('\n') {
                let k = choose|k: int| 0 <= k < s.len() && s[k] == '\n';
                if k < p.len() {
                    assert(s[k] == p[k]);
                }
            }
        }
    }
}

/// Writing a receipt and reading it back gives the same receipt, for a
/// receipt whose values rows carry intact (see `receipt_round_trips`).
pub proof fn lemma_receipt_round_trip(r: ReceiptView)
    requires
        receipt_round_trips(r),
    ensures
        parse_receipt_spec(render_receipt(r)) == Ok::<ReceiptView, ReceiptParseError>(r),
{
    lemma_keys_ok();
    lemma_decimal_reads_back(r.installed_at_unix as nat);
    reveal_strlit("name");
    reveal_strlit("version");
    reveal_strlit("dependency");
    reveal_strlit("target");
    reveal_strlit("artifact_url");
    reveal_strlit("artifact_sha256");
    reveal_strlit("cache_path");
    reveal_strlit("exposed_bin");
    reveal_strlit("exposed_completion");
    reveal_strlit("snapshot_id");
    reveal_strlit("install_mode");
    reveal_strlit("install_reason");
    reveal_strlit("install_status");
    reveal_strlit("installed_at_unix");
    reveal_strlit("managed");
    reveal_strlit("native");
    reveal_strlit("root");
    reveal_strlit("dependency");
    r.install_mode.lemma_token_round_trip();
    r.install_reason.lemma_token_round_trip();
    let stamp = decimal_string(r.installed_at_unix as nat);
    assert(unsigned_digits(stamp) == stamp);
    assert(parse_unsigned(stamp, u64::MAX as int) == Some(r.installed_at_unix as int));
    assert(value_ok(r.install_mode.token()) && value_ok(r.install_reason.token())) by {
        reveal_strlit("dependency");
    }
    // The rows of the text are the receipt's rows.
    let ls = receipt_lines(r);
    assert forall|k: int| 0 <= k < ls.len() implies !(#[trigger] ls[k]).contains('\n') && (
    ls[k].len() == 0 || ls[k].last() != '\r') by {
        lemma_rows_free(r, k);
    }
    lemma_lines_of_concat(ls);
    // Folding the rows group by group.
    let g1 = seq![kv("name"@, r.name), kv("version"@, r.version)];
    let g2 = kv_list("dependency"@, r.dependencies);
    let g3 = kv_opt("target"@, r.target);
    let g4 = kv_opt("artifact_url"@, r.artifact_url);
    let g5 = kv_opt("artifact_sha256"@, r.artifact_sha256);
    let g6 = kv_opt("cache_path"@, r.cache_path);
    let g7 = kv_list("exposed_bin"@, r.exposed_bins);
    let g8 = kv_list("exposed_completion"@, r.exposed_completions);
    let g9 = kv_opt("snapshot_id"@, r.snapshot_id);
    let g10 = seq![
        kv("install_mode"@, r.install_mode.token()),
        kv("install_reason"@, r.install_reason.token()),
        kv("install_status"@, r.install_status),
        kv("installed_at_unix"@, stamp),
    ];
    assert(ls == g1 + g2 + g3 + g4 + g5 + g6 + g7 + g8 + g9 + g10);
    let f0 = no_fields();
    // name, version
    assert(g1 =~= seq![kv("name"@, r.name)] + seq![kv("version"@, r.version)]);
    lemma_fold_append(Ok(f0), seq![kv("name"@, r.name)], seq![kv("version"@, r.version)]);
    lemma_fold_one(f0, "name"@, r.name);
    let f1 = ReceiptFields { name: Some(r.name), ..f0 };
    lemma_fold_one(f1, "version"@, r.version);
    let f2 = ReceiptFields { version: Some(r.version), ..f1 };
    assert(receipt_fold_from(Ok(f0), g1) == Ok::<ReceiptFields, ReceiptParseError>(f2));
    // dependencies
    lemma_fold_append(Ok(f0), g1, g2);
    lemma_fold_rows(f2, "dependency"@, r.dependencies);
    lemma_apply_list_values(f2, r.dependencies);
    assert(f2.dependencies + r.dependencies =~= r.dependencies);
    let f3 = ReceiptFields { dependencies: r.dependencies, ..f2 };
    assert(receipt_fold_from(Ok(f0), g1 + g2) == Ok::<ReceiptFields, ReceiptParseError>(f3));
    // optional rows
    lemma_fold_append(Ok(f0), g1 + g2, g3);
    lemma_fold_opt(f3, "target"@, r.target);
    let f4 = ReceiptFields { target: r.target, ..f3 };
    assert(receipt_fold_from(Ok(f0), g1 + g2 + g3) == Ok::<ReceiptFields, ReceiptParseError>(f4));
    lemma_fold_append(Ok(f0), g1 + g2 + g3, g4);
    lemma_fold_opt(f4, "artifact_url"@, r.artifact_url);
    let f5 = ReceiptFields { artifact_url: r.artifact_url, ..f4 };
    assert(receipt_fold_from(Ok(f0), g1 + g2 + g3 + g4) == Ok::<ReceiptFields, ReceiptParseError>(
        f5,
    ));
    lemma_fold_append(Ok(f0), g1 + g2 + g3 + g4, g5);
    lemma_fold_opt(f5, "artifact_sha256"@, r.artifact_sha256);
    let f6 = ReceiptFields { artifact_sha256: r.artifact_sha256, ..f5 };
    assert(receipt_fold_from(Ok(f0), g1 + g2 + g3 + g4 + g5) == Ok::<
        ReceiptFields,
        ReceiptParseError,
    >(f6));
    lemma_fold_append(Ok(f0), g1 + g2 + g3 + g4 + g5, g6);
    lemma_fold_opt(f6, "cache_path"@, r.cache_path);
    let f7 = ReceiptFields { cache_path: r.cache_path, ..f6 };
    assert(receipt_fold_from(Ok(f0), g1 + g2 + g3 + g4 + g5 + g6) == Ok::<
        ReceiptFields,
        ReceiptParseError,
    >(f7));
    // exposed binaries and completions
    lemma_fold_append(Ok(f0), g1 + g2 + g3 + g4 + g5 + g6, g7);
    lemma_fold_rows(f7, "exposed_bin"@, r.exposed_bins);
    lemma_apply_list_values(f7, r.exposed_bins);
    assert(f7.exposed_bins + r.exposed_bins =~= r.exposed_bins);
    let f8 = ReceiptFields { exposed_bins: r.exposed_bins, ..f7 };
    assert(receipt_fold_from(Ok(f0), g1 + g2 + g3 + g4 + g5 + g6 + g7) == Ok::<
        ReceiptFields,
        ReceiptParseError,
    >(f8));
    lemma_fold_append(Ok(f0), g1 + g2 + g3 + g4 + g5 + g6 + g7, g8);
    lemma_fold_rows(f8, "exposed_completion"@, r.exposed_completions);
    lemma_apply_list_values(f8, r.exposed_completions);
    assert(f8.exposed_completions + r.exposed_completions =~= r.exposed_completions);
    let f9 = ReceiptFields { exposed_completions: r.exposed_completions, ..f8 };
    assert(receipt_fold_from(Ok(f0), g1 + g2 + g3 + g4 + g5 + g6 + g7 + g8) == Ok::<
        ReceiptFields,
        ReceiptParseError,
    >(f9));
    lemma_fold_append(Ok(f0), g1 + g2 + g3 + g4 + g5 + g6 + g7 + g8, g9);
    lemma_fold_opt(f9, "snapshot_id"@, r.snapshot_id);
    let f10 = ReceiptFields { snapshot_id: r.snapshot_id, ..f9 };
    assert(receipt_fold_from(Ok(f0), g1 + g2 + g3 + g4 + g5 + g6 + g7 + g8 + g9) == Ok::<
        ReceiptFields,
        ReceiptParseError,
    >(f10));
    // the closing rows
    lemma_fold_append(Ok(f0), g1 + g2 + g3 + g4 + g5 + g6 + g7 + g8 + g9, g10);
    lemma_closing_rows(f10, r, stamp);
}

/// The closing rows set mode, reason, status and timestamp, and the fields
/// make the receipt.
proof fn lemma_closing_rows(f: ReceiptFields, r: ReceiptView, stamp: Seq<char>)
    requires
        f == (ReceiptFields {
            name: Some(r.name),
            version: Some(r.version),
            dependencies: r.dependencies,
            target: r.target,
            artifact_url: r.artifact_url,
            artifact_sha256: r.artifact_sha256,
            cache_path: r.cache_path,
            exposed_bins: r.exposed_bins,
            exposed_completions: r.exposed_completions,
            snapshot_id: r.snapshot_id,
            install_mode: None,
            install_reason: None,
            install_status: None,
            installed_at_unix: None,
        }),
        stamp == decimal_string(r.installed_at_unix as nat),
        value_ok(r.install_status),
    ensures
        ({
            let closing = seq![
                kv("install_mode"@, r.install_mode.token()),
                kv("install_reason"@, r.install_reason.token()),
                kv("install_status"@, r.install_status),
                kv("installed_at_unix"@, stamp),
            ];
            match receipt_fold_from(Ok(f), closing) {
                Ok(g) => finish_receipt(g) == Ok::<ReceiptView, ReceiptParseError>(r),
                Err(_) => false,
            }
        }),
{
    lemma_keys_ok();
    lemma_decimal_reads_back(r.installed_at_unix as nat);
    reveal_strlit("install_mode");
    reveal_strlit("install_reason");
    reveal_strlit("install_status");
    reveal_strlit("installed_at_unix");
    reveal_strlit("name");
    reveal_strlit("version");
    reveal_strlit("dependency");
    reveal_strlit("target");
    reveal_strlit("artifact_url");
    reveal_strlit("artifact_sha256");
    reveal_strlit("cache_path");
    reveal_strlit("exposed_bin");
    reveal_strlit("exposed_completion");
    reveal_strlit("snapshot_id");
    reveal_strlit("managed");
    reveal_strlit("native");
    reveal_strlit("root");
    reveal_strlit("dependency");
    r.install_mode.lemma_token_round_trip();
    r.install_reason.lemma_token_round_trip();
    assert(value_ok(r.install_mode.token()));
    assert(value_ok(r.install_reason.token()));
    let closing = seq![
        kv("install_mode"@, r.install_mode.token()),
        kv("install_reason"@, r.install_reason.token()),
        kv("install_status"@, r.install_status),
        kv("installed_at_unix"@, stamp),
    ];
    assert(unsigned_digits(stamp) == stamp);
    assert(parse_unsigned(stamp, u64::MAX as int) == Some(r.installed_at_unix as int));
    let g1 = ReceiptFields { install_mode: Some(r.install_mode), ..f };
    let g2 = ReceiptFields { install_reason: Some(r.install_reason), ..g1 };
    let g3 = ReceiptFields { install_status: Some(r.install_status), ..g2 };
    let g4 = ReceiptFields { installed_at_unix: Some(r.installed_at_unix), ..g3 };
    lemma_row_step(f, "install_mode"@, r.install_mode.token());
    lemma_row_step(g1, "install_reason"@, r.install_reason.token());
    lemma_row_step(g2, "install_status"@, r.install_status);
    lemma_row_step(g3, "installed_at_unix"@, stamp);
    assert(closing.take(1).drop_last() =~= Seq::<Seq<char>>::empty());
    assert(closing.take(2).drop_last() =~= closing.take(1));
    assert(closing.take(3).drop_last() =~= closing.take(2));
    assert(closing.drop_last() =~= closing.take(3));
    assert(receipt_fold_from(Ok(f), Seq::<Seq<char>>::empty()) == Ok::<ReceiptFields, ReceiptParseError>(f));
    assert("install_status"@[8] == 's' && "install_reason"@[8] == 'r');
    assert("install_status"@ != "install_reason"@);
    assert(apply_field(g2, "install_status"@, r.install_status) == Ok::<ReceiptFields, ReceiptParseError>(g3));
    assert(closing.take(1).last() == closing[0]);
    assert(closing.take(2).last() == closing[1]);
    assert(closing.take(3).last() == closing[2]);
    assert(closing.last() == closing[3]);
    assert(receipt_fold_from(Ok(f), closing.take(1)) == Ok::<ReceiptFields, ReceiptParseError>(g1));
    assert(receipt_fold_from(Ok(f), closing.take(2)) == Ok::<ReceiptFields, ReceiptParseError>(g2));
    assert(receipt_fold_from(Ok(f), closing.take(3)) == Ok::<ReceiptFields, ReceiptParseError>(g3));
    assert(receipt_fold_from(Ok(f), closing) == Ok::<ReceiptFields, ReceiptParseError>(g4));
}

/// Every written row is free of line breaks and does not end in `'\r'`.
proof fn lemma_rows_free(r: ReceiptView, k: int)
    requires
        receipt_round_trips(r),
        0 <= k < receipt_lines(r).len(),
    ensures
        !receipt_lines(r)[k].contains('\n'),
        receipt_lines(r)[k].len() == 0 || receipt_lines(r)[k].last() != '\r',
{
    lemma_keys_ok();
    lemma_decimal_reads_back(r.installed_at_unix as nat);
    reveal_strlit("managed");
    reveal_strlit("native");
    reveal_strlit("root");
    reveal_strlit("dependency");
    let ls = receipt_lines(r);
    let row = ls[k];
    // Each row is `key=value` for one of the keys and a value that is fine.
    assert(exists|key: Seq<char>, v: Seq<char>| key_ok(key) && value_ok(v) && row == kv(key, v))
        by {
        lemma_row_shape(r, k);
    }
    let (key, v) = choose|key: Seq<char>, v: Seq<char>|
        key_ok(key) && value_ok(v) && row == kv(key, v);
    lemma_row_free(key, v);
}

proof fn lemma_row_shape(r: ReceiptView, k: int)
    requires
        receipt_round_trips(r),
        0 <= k < receipt_lines(r).len(),
    ensures
        exists|key: Seq<char>, v: Seq<char>|
            key_ok(key) && value_ok(v) && receipt_lines(r)[k] == kv(key, v),
{
    lemma_keys_ok();
    lemma_decimal_reads_back(r.installed_at_unix as nat);
    reveal_strlit("managed");
    reveal_strlit("native");
    reveal_strlit("root");
    reveal_strlit("dependency");
    let stamp = decimal_string(r.installed_at_unix as nat);
    assert(value_ok(r.install_mode.token()));
    assert(value_ok(r.install_reason.token()));
    let groups = seq![
        seq![kv("name"@, r.name), kv("version"@, r.version)],
        kv_list("dependency"@, r.dependencies),
        kv_opt("target"@, r.target),
        kv_opt("artifact_url"@, r.artifact_url),
        kv_opt("artifact_sha256"@, r.artifact_sha256),
        kv_opt("cache_path"@, r.cache_path),
        kv_list("exposed_bin"@, r.exposed_bins),
        kv_list("exposed_completion"@, r.exposed_completions),
        kv_opt("snapshot_id"@, r.snapshot_id),
        seq![
            kv("install_mode"@, r.install_mode.token()),
            kv("install_reason"@, r.install_reason.token()),
            kv("install_status"@, r.install_status),
            kv("installed_at_unix"@, stamp),
        ],
    ];
    let ls = receipt_lines(r);
    assert forall|i: int| 0 <= i < ls.len() implies exists|key: Seq<char>, v: Seq<char>|
        key_ok(key) && value_ok(v) && #[trigger] ls[i] == kv(key, v) by {
        lemma_row_in_groups(r, i);
    }
}

proof fn lemma_row_in_groups(r: ReceiptView, i: int)
    requires
        receipt_round_trips(r),
        0 <= i < receipt_lines(r).len(),
    ensures
        exists|key: Seq<char>, v: Seq<char>|
            key_ok(key) && value_ok(v) && receipt_lines(r)[i] == kv(key, v),
{
    lemma_keys_ok();
    lemma_decimal_reads_back(r.installed_at_unix as nat);
    reveal_strlit("managed");
    reveal_strlit("native");
    reveal_strlit("root");
    reveal_strlit("dependency");
    let stamp = decimal_string(r.installed_at_unix as nat);
    assert(value_ok(r.install_mode.token()));
    assert(value_ok(r.install_reason.token()));
    let a = seq![kv("name"@, r.name), kv("version"@, r.version)];
    let b = a + kv_list("dependency"@, r.dependencies);
    let c = b + kv_opt("target"@, r.target);
    let d = c + kv_opt("artifact_url"@, r.artifact_url);
    let e = d + kv_opt("artifact_sha256"@, r.artifact_sha256);
    let f = e + kv_opt("cache_path"@, r.cache_path);
    let g = f + kv_list("exposed_bin"@, r.exposed_bins);
    let h = g + kv_list("exposed_completion"@, r.exposed_completions);
    let j = h + kv_opt("snapshot_id"@, r.snapshot_id);
    let tail = seq![
        kv("install_mode"@, r.install_mode.token()),
        kv("install_reason"@, r.install_reason.token()),
        kv("install_status"@, r.install_status),
        kv("installed_at_unix"@, stamp),
    ];
    let ls = j + tail;
    assert(ls == receipt_lines(r));
    if i >= j.len() {
        let t = i - j.len();
        assert(ls[i] == tail[t]);
    } else if i >= h.len() {
        assert(ls[i] == kv("snapshot_id"@, r.snapshot_id->0));
    } else if i >= g.len() {
        let t = i - g.len();
        assert(ls[i] == kv("exposed_completion"@, r.exposed_completions[t]));
        assert(value_ok(r.exposed_completions[t]));
    } else if i >= f.len() {
        let t = i - f.len();
        assert(ls[i] == kv("exposed_bin"@, r.exposed_bins[t]));
        assert(value_ok(r.exposed_bins[t]));
    } else if i >= e.len() {
        assert(ls[i] == kv("cache_path"@, r.cache_path->0));
    } else if i >= d.len() {
        assert(ls[i] == kv("artifact_sha256"@, r.artifact_sha256->0));
    } else if i >= c.len() {
        assert(ls[i] == kv("artifact_url"@, r.artifact_url->0));
    } else if i >= b.len() {
        assert(ls[i] == kv("target"@, r.target->0));
    } else if i >= a.len() {
        let t = i - a.len();
        assert(ls[i] == kv("dependency"@, r.dependencies[t]));
        assert(value_ok(r.dependencies[t]));
    } else {
        assert(ls[i] == a[i]);
    }
}

} // verus!
