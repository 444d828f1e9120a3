//! What the on-disk activation filesystem knows beyond the disk itself: the
//! host it runs on and which package integration owns each exposure, taken
//! from the activation records; and the text of the `.cmd` shims it writes.
use vstd::prelude::*;

use crate::activation_fs::{copy_owner, ActivationOwner, OwnerView};
use crate::assoc::{assoc_find, assoc_get, assoc_insert, assoc_remove};
use crate::text::{
    chars_eq_str, chars_of, extend_str, lines, lines_of, lower_seq, string_of, to_lower, trim,
    trim_chars,
};
use crate::types::{
    HostPlatform, IntegrationActivationRecord, IntegrationAppliedState, IntegrationReasonCode,
    RecordView,
};

verus! {

/// The on-disk activation filesystem's knowledge of owners.
#[derive(Debug, Clone)]
pub struct RealActivationFs {
    platform: HostPlatform,
    symlink_supported: bool,
    owners: Vec<(String, ActivationOwner)>,
}

/// The owner the last pair for `path` names.
pub open spec fn last_owner(s: Seq<(String, ActivationOwner)>, path: Seq<char>) -> Option<OwnerView>
    decreases s.len(),
{
    if s.len() == 0 {
        None
    } else if s.last().0@ == path {
        Some(s.last().1@)
    } else {
        last_owner(s.drop_last(), path)
    }
}

/// A record that grants ownership of its host path: applied with success and
/// installed, enabled or running.
pub open spec fn record_grants(r: RecordView) -> bool {
    &&& r.reason_code == IntegrationReasonCode::Success
    &&& (r.applied_state == IntegrationAppliedState::Installed || r.applied_state
        == IntegrationAppliedState::Enabled || r.applied_state == IntegrationAppliedState::Running)
    &&& r.host_path is Some
}

/// The owner that the last granting record for `path` names.
pub open spec fn recorded_owner(rs: Seq<IntegrationActivationRecord>, path: Seq<char>) -> Option<
    OwnerView,
>
    decreases rs.len(),
{
    if rs.len() == 0 {
        None
    } else if record_grants(rs.last()@) && rs.last()@.host_path == Some(path) {
        Some(
            OwnerView {
                package_state_key: rs.last()@.package_state_key,
                package: rs.last()@.package,
                integration_key: rs.last()@.integration_key,
            },
        )
    } else {
        recorded_owner(rs.drop_last(), path)
    }
}

impl RealActivationFs {
    /// The owner recorded for `path`.
    pub closed spec fn spec_owner(&self, path: Seq<char>) -> Option<OwnerView> {
        match assoc_get(self.owners@, path) {
            Some(o) => Some(o@),
            None => None,
        }
    }

    pub closed spec fn spec_host(&self) -> HostPlatform {
        self.platform
    }

    pub closed spec fn spec_symlinks(&self) -> bool {
        self.symlink_supported
    }

    /// A filesystem on `platform` with symlink support, where the last pair
    /// for a path names its owner.
    pub fn new(platform: HostPlatform, owners: Vec<(String, ActivationOwner)>) -> (r: Self)
        ensures
            r.spec_host() == platform,
            r.spec_symlinks(),
            forall|p: Seq<char>| #[trigger] r.spec_owner(p) == last_owner(owners@, p),
    {
        let mut table: Vec<(String, ActivationOwner)> = Vec::new();
        let n = owners.len();
        let mut i: usize = 0;
        while i < n
            invariant
                n == owners@.len(),
                i <= n,
                forall|p: Seq<char>|
                    #[trigger] assoc_get(table@, p) matches Some(o) ==> last_owner(
                        owners@.take(i as int),
                        p,
                    ) == Some(o@),
                forall|p: Seq<char>|
                    #[trigger] assoc_get(table@, p) is None ==> last_owner(
                        owners@.take(i as int),
                        p,
                    ) is None,
            decreases n - i,
        {
            let key = owners[i].0.clone();
            let owner = copy_owner(&owners[i].1);
            proof {
                assert(owners@.take(i + 1).drop_last() =~= owners@.take(i as int));
            }
            assoc_insert(&mut table, key, owner);
            i = i + 1;
        }
        assert(owners@.take(n as int) =~= owners@);
        let r = RealActivationFs { platform, symlink_supported: true, owners: table };
        assert forall|p: Seq<char>| #[trigger] r.spec_owner(p) == last_owner(owners@, p) by {
            match assoc_get(table@, p) {
                Some(o) => {},
                None => {},
            }
        }
        r
    }

    /// The same filesystem, with symlink support as given.
    pub fn with_symlink_support(self, supported: bool) -> (r: Self)
        ensures
            r.spec_host() == self.spec_host(),
            r.spec_symlinks() == supported,
            forall|p: Seq<char>| #[trigger] r.spec_owner(p) == self.spec_owner(p),
    {
        RealActivationFs { symlink_supported: supported, ..self }
    }

    pub fn platform(&self) -> (r: HostPlatform)
        ensures
            r == self.spec_host(),
    {
        self.platform
    }

    pub fn symlink_supported(&self) -> (r: bool)
        ensures
            r == self.spec_symlinks(),
    {
        self.symlink_supported
    }

    /// The owner of the link at `path`, reported only for a link with a
    /// target that is not empty.
    pub fn owner_for_path(&self, path: &str, target: Option<&str>) -> (r: Option<ActivationOwner>)
        ensures
            crate::activation_fs::owner_opt_view(r) == match target {
                Some(t) => if t@.len() > 0 {
                    self.spec_owner(path@)
                } else {
                    None
                },
                None => None,
            },
    {
        let i = match assoc_find(&self.owners, path) {
            Some(i) => i,
            None => {
                return None;
            },
        };
        match target {
            Some(t) => {
                if chars_of(t).len() > 0 {
                    Some(copy_owner(&self.owners[i].1))
                } else {
                    None
                }
            },
            None => None,
        }
    }

    /// Records `owner` for `path`.
    pub fn record_owner(&mut self, path: &str, owner: ActivationOwner)
        ensures
            final(self).spec_host() == old(self).spec_host(),
            final(self).spec_symlinks() == old(self).spec_symlinks(),
            forall|p: Seq<char>|
                #[trigger] final(self).spec_owner(p) == if p == path@ {
                    Some(owner@)
                } else {
                    old(self).spec_owner(p)
                },
    {
        let ghost ov = owner@;
        assoc_insert(&mut self.owners, path.to_owned(), owner);
        assert forall|p: Seq<char>|
            #[trigger] self.spec_owner(p) == if p == path@ {
                Some(ov)
            } else {
                old(self).spec_owner(p)
            } by {}
    }

    /// Forgets the owner of `path`.
    pub fn forget_owner(&mut self, path: &str)
        ensures
            final(self).spec_host() == old(self).spec_host(),
            final(self).spec_symlinks() == old(self).spec_symlinks(),
            forall|p: Seq<char>|
                #[trigger] final(self).spec_owner(p) == if p == path@ {
                    None
                } else {
                    old(self).spec_owner(p)
                },
    {
        let _ = assoc_remove(&mut self.owners, path);
        assert forall|p: Seq<char>|
            #[trigger] self.spec_owner(p) == if p == path@ {
                None
            } else {
                old(self).spec_owner(p)
            } by {}
    }
}

/// The on-disk filesystem for `platform`, owning each host path as its last
/// granting activation record says (see `record_grants`).
pub fn real_activation_fs_from_records(
    platform: HostPlatform,
    records: &Vec<IntegrationActivationRecord>,
) -> (r: RealActivationFs)
    ensures
        r.spec_host() == platform,
        r.spec_symlinks(),
        forall|p: Seq<char>| #[trigger] r.spec_owner(p) == recorded_owner(records@, p),
{
    let mut owners: Vec<(String, ActivationOwner)> = Vec::new();
    let n = records.len();
    let mut i: usize = 0;
    while i < n
        invariant
            n == records@.len(),
            i <= n,
            forall|p: Seq<char>|
                #[trigger] last_owner(owners@, p) == recorded_owner(records@.take(i as int), p),
        decreases n - i,
    {
        let rec = &records[i];
        let ghost before = owners@;
        proof {
            assert(records@.take(i + 1).drop_last() =~= records@.take(i as int));
            assert(records@.take(i + 1).last() == records@[i as int]);
        }
        let grants = rec.reason_code == IntegrationReasonCode::Success && (rec.applied_state
            == IntegrationAppliedState::Installed || rec.applied_state
            == IntegrationAppliedState::Enabled || rec.applied_state
            == IntegrationAppliedState::Running);
        match (grants, &rec.host_path) {
            (true, Some(path)) => {
                let owner = ActivationOwner {
                    package_state_key: rec.package_state_key.clone(),
                    package: rec.package.clone(),
                    integration_key: rec.integration_key.clone(),
                };
                let ghost ov = owner@;
                owners.push((path.clone(), owner));
                assert forall|p: Seq<char>|
                    #[trigger] last_owner(owners@, p) == recorded_owner(
                        records@.take(i + 1),
                        p,
                    ) by {
                    assert(owners@.drop_last() =~= before);
                    assert(records@.take(i + 1).last() == records@[i as int]);
                    assert(record_grants(records@[i as int]@));
                    assert(records@[i as int]@.host_path == Some(path@));
                    assert(owners@.last().0@ == path@);
                    assert(owners@.last().1@ == ov);
                    assert(ov == OwnerView {
                        package_state_key: records@[i as int]@.package_state_key,
                        package: records@[i as int]@.package,
                        integration_key: records@[i as int]@.integration_key,
                    });
                    assert(last_owner(owners@, p) == if path@ == p {
                        Some(ov)
                    } else {
                        last_owner(before, p)
                    });
                    assert(recorded_owner(records@.take(i + 1), p) == if path@ == p {
                        Some(ov)
                    } else {
                        recorded_owner(records@.take(i as int), p)
                    });
                }
            },
            _ => {
                assert forall|p: Seq<char>|
                    #[trigger] last_owner(owners@, p) == recorded_owner(
                        records@.take(i + 1),
                        p,
                    ) by {}
            },
        }
        i = i + 1;
    }
    assert(records@.take(n as int) =~= records@);
    RealActivationFs::new(platform, owners)
}

/// The text of a shim that runs `target` with the caller's arguments.
pub open spec fn shim_text(target: Seq<char>) -> Seq<char> {
    "@echo off\r\n\""@ + target + "\" %*\r\n"@
}

/// The `.cmd` shim text for `target` (see `shim_text`).
pub fn windows_shim_contents(target: &str) -> (r: String)
    ensures
        r@ == shim_text(target@),
{
    let mut c = chars_of("@echo off\r\n\"");
    extend_str(&mut c, target);
    extend_str(&mut c, "\" %*\r\n");
    string_of(c.as_slice())
}

/// Trailing copies of `c` removed (`str::trim_end_matches` with a char).
pub open spec fn trim_end_char(s: Seq<char>, c: char) -> Seq<char>
    decreases s.len(),
{
    if s.len() > 0 && s.last() == c {
        trim_end_char(s.drop_last(), c)
    } else {
        s
    }
}

fn trim_end_char_exec(s: &[char], c: char) -> (r: Vec<char>)
    ensures
        r@ == trim_end_char(s@, c),
{
    let mut end: usize = s.len();
    assert(s@.take(end as int) =~= s@);
    while end > 0 && s[end - 1] == c
        invariant
            end <= s@.len(),
            trim_end_char(s@, c) == trim_end_char(s@.take(end as int), c),
        decreases end,
    {
        assert(s@.take(end as int).drop_last() =~= s@.take(end - 1));
        end = end - 1;
    }
    let r = crate::text::slice_chars(s, 0, end);
    assert(r@ =~= s@.take(end as int));
    r
}

/// The target a shim written by this installer runs: its first line reads
/// `@echo off` in any case, its second line is the quoted target (not empty)
/// followed by ` %*`.
pub open spec fn shim_target_spec(contents: Seq<char>) -> Option<Seq<char>> {
    let ls = lines(contents);
    if ls.len() < 2 {
        None
    } else if lower_seq(trim_end_char(ls[0], '\r')) != "@echo off"@ {
        None
    } else {
        let second = trim(trim_end_char(ls[1], '\r'));
        if second.len() == 0 || second[0] != '"' {
            None
        } else {
            let rest = second.drop_first();
            match crate::text::split_once(rest, '"') {
                None => None,
                Some((target, suffix)) => if trim(suffix) != "%*"@ || target.len() == 0 {
                    None
                } else {
                    Some(target)
                },
            }
        }
    }
}

/// Reads the target out of a shim's text (see `shim_target_spec`).
pub fn parse_crosspack_windows_shim(contents: &str) -> (r: Option<String>)
    ensures
        crate::types::opt_view(r) == shim_target_spec(contents@),
{
    let c = chars_of(contents);
    let ls = lines_of(c.as_slice());
    if ls.len() < 2 {
        return None;
    }
    let first = to_lower(trim_end_char_exec(ls[0].as_slice(), '\r').as_slice());
    if !chars_eq_str(first.as_slice(), "@echo off") {
        return None;
    }
    let second = trim_chars(trim_end_char_exec(ls[1].as_slice(), '\r').as_slice());
    if second.len() == 0 || second[0] != '"' {
        return None;
    }
    let rest = crate::text::slice_chars(second.as_slice(), 1, second.len());
    assert(rest@ =~= second@.drop_first());
    match crate::text::split_once_chars(rest.as_slice(), '"') {
        None => None,
        Some((target, suffix)) => {
            let t = trim_chars(suffix.as_slice());
            if !chars_eq_str(t.as_slice(), "%*") || target.len() == 0 {
                None
            } else {
                Some(string_of(target.as_slice()))
            }
        },
    }
}

} // verus!
