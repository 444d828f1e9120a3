//! An activation filesystem held in memory: a table from path text to entry.
//! It is what service metadata is kept in and what the adapters are
//! exercised against.
use vstd::prelude::*;

use crate::activation_fs::{
    dir_added_or_same, dirs_added, parent_dirs_of, parent_dirs_spec, owned_service_metadata, owned_shim, owned_symlink, owner_opt_view,
    ActivationFilesystem, ActivationFsEntry, ActivationOwner, EntryView, OwnerView, copy_owner_opt,
};
use crate::assoc::{assoc_find, assoc_get, assoc_insert};
use crate::text::{chars_eq_str, chars_of, ends_with_str, string_of};
use crate::types::{strings_view, HostPlatform};

verus! {

/// What the in-memory filesystem stores at a path.
#[derive(Clone, Debug, PartialEq, Eq)]
enum MemoryActivationFileEntry {
    File(Vec<u8>),
    Symlink { target: String, owner: Option<ActivationOwner> },
    WindowsShim { target: String, owner: Option<ActivationOwner> },
    ServiceMetadata { source: String, owner: Option<ActivationOwner> },
    Directory,
}

spec fn stored_view(e: MemoryActivationFileEntry) -> EntryView {
    match e {
        MemoryActivationFileEntry::File(_) => EntryView::File,
        MemoryActivationFileEntry::Symlink { target, owner } => EntryView::Symlink {
            target: target@,
            owner: owner_opt_view(owner),
        },
        MemoryActivationFileEntry::WindowsShim { target, owner } => EntryView::WindowsShim {
            target: target@,
            owner: owner_opt_view(owner),
        },
        MemoryActivationFileEntry::ServiceMetadata { source, owner } => EntryView::ServiceMetadata {
            source: source@,
            owner: owner_opt_view(owner),
        },
        MemoryActivationFileEntry::Directory => EntryView::Directory,
    }
}

/// The owner that `write_owned_symlink` records.
pub open spec fn default_test_owner() -> OwnerView {
    OwnerView {
        package_state_key: "default--host--core--docker-compose"@,
        package: "docker-compose"@,
        integration_key: "docker_cli_plugin:compose"@,
    }
}

/// `c` separates path components on `platform`.
pub open spec fn is_separator(platform: HostPlatform, c: char) -> bool {
    c == '/' || (platform == HostPlatform::Windows && c == '\\')
}

/// Index of the last separator, or -1.
pub open spec fn last_separator(platform: HostPlatform, s: Seq<char>) -> int
    decreases s.len(),
{
    if s.len() == 0 {
        -1
    } else if is_separator(platform, s.last()) {
        s.len() - 1
    } else {
        last_separator(platform, s.drop_last())
    }
}

/// The parent of a path: text before its last separator, `/` for a
/// top-level path, and `X:\` for a path directly under a drive root.
pub open spec fn parent_path_spec(platform: HostPlatform, p: Seq<char>) -> Option<Seq<char>> {
    let i = last_separator(platform, p);
    if i < 0 {
        None
    } else if i == 0 {
        Some(seq!['/'])
    } else if platform == HostPlatform::Windows && i == 2 && p[1] == ':' && (p[0] as u32) < 128 {
        Some(p.take(3))
    } else {
        Some(p.take(i))
    }
}

proof fn lemma_last_separator_bounds(platform: HostPlatform, s: Seq<char>)
    ensures
        -1 <= last_separator(platform, s) < s.len(),
        last_separator(platform, s) >= 0 ==> is_separator(
            platform,
            s[last_separator(platform, s)],
        ),
    decreases s.len(),
{
    if s.len() > 0 && !is_separator(platform, s.last()) {
        lemma_last_separator_bounds(platform, s.drop_last());
    }
}

/// The parent of `path` (see `parent_path_spec`).
pub fn parent_path(platform: HostPlatform, path: &str) -> (r: Option<String>)
    ensures
        match r {
            Some(s) => parent_path_spec(platform, path@) == Some(s@),
            None => parent_path_spec(platform, path@) is None,
        },
{
    let c = chars_of(path);
    let n = c.len();
    let mut i: usize = n;
    assert(c@.take(n as int) =~= c@);
    while i > 0
        invariant
            i <= n,
            n == c@.len(),
            c@ == path@,
            last_separator(platform, c@) == last_separator(platform, c@.take(i as int)),
        ensures
            i <= n,
            last_separator(platform, c@) == last_separator(platform, c@.take(i as int)),
            i > 0 ==> is_separator(platform, c@[i - 1]),
        decreases i,
    {
        proof {
            assert(c@.take(i as int).drop_last() =~= c@.take(i - 1));
        }
        let ch = c[i - 1];
        if ch == '/' || (platform == HostPlatform::Windows && ch == '\\') {
            break;
        }
        i = i - 1;
    }
    proof {
        if i == 0 {
            assert(c@.take(0) =~= Seq::<char>::empty());
        }
    }
    if i == 0 {
        return None;
    }
    let index = i - 1;
    assert(c@.take(i as int).last() == c@[index as int]);
    assert(last_separator(platform, c@) == index as int);
    if index == 0 {
        proof {
            reveal_strlit("/");
        }
        return Some(string_of(chars_of("/").as_slice()));
    }
    if platform == HostPlatform::Windows && index == 2 && c[1] == ':' && (c[0] as u32) < 128 {
        let mut head: Vec<char> = Vec::new();
        head.push(c[0]);
        head.push(c[1]);
        head.push(c[2]);
        assert(head@ =~= c@.take(3));
        return Some(string_of(head.as_slice()));
    }
    let mut head: Vec<char> = Vec::new();
    let mut k: usize = 0;
    while k < index
        invariant
            k <= index,
            index < n,
            n == c@.len(),
            head@ == c@.take(k as int),
        decreases index - k,
    {
        head.push(c[k]);
        proof {
            assert(c@.take(k + 1) =~= c@.take(k as int).push(c@[k as int]));
        }
        k = k + 1;
    }
    Some(string_of(head.as_slice()))
}

/// An activation filesystem kept in memory.
#[derive(Clone, Debug)]
pub struct MemoryActivationFs {
    platform: HostPlatform,
    symlink_supported: bool,
    entries: Vec<(String, MemoryActivationFileEntry)>,
}

impl MemoryActivationFs {
    /// What stands at `path`.
    pub closed spec fn stored_entry(&self, path: Seq<char>) -> Option<EntryView> {
        match assoc_get(self.entries@, path) {
            Some(e) => Some(stored_view(e)),
            None => None,
        }
    }

    /// The host the filesystem stands for.
    pub closed spec fn stored_platform(&self) -> HostPlatform {
        self.platform
    }

    /// An empty filesystem; on Unix hosts the root directory `/` exists.
    pub fn new(platform: HostPlatform) -> (r: Self)
        ensures
            r.spec_platform() == platform,
            r.spec_symlink_supported(),
            forall|p: Seq<char>|
                #[trigger] r.spec_entry(p) == if platform != HostPlatform::Windows && p == seq![
                    '/',
                ] {
                    Some(EntryView::Directory)
                } else {
                    None
                },
    {
        let mut entries: Vec<(String, MemoryActivationFileEntry)> = Vec::new();
        if platform != HostPlatform::Windows {
            let root = "/".to_owned();
            proof {
                reveal_strlit("/");
            }
            assert(root@ =~= seq!['/']);
            entries.push((root, MemoryActivationFileEntry::Directory));
            assert(entries@.drop_first() =~= Seq::<(String, MemoryActivationFileEntry)>::empty());
        }
        let r = MemoryActivationFs { platform, symlink_supported: true, entries };
        assert forall|p: Seq<char>|
            #[trigger] r.spec_entry(p) == if platform != HostPlatform::Windows && p == seq!['/'] {
                Some(EntryView::Directory)
            } else {
                None
            } by {
            if platform != HostPlatform::Windows {
                assert(assoc_get(r.entries@.drop_first(), p) is None);
            }
        }
        r
    }

    /// The same filesystem, with symlink support as given.
    pub fn with_symlink_support(self, supported: bool) -> (r: Self)
        ensures
            r.spec_platform() == self.spec_platform(),
            r.spec_symlink_supported() == supported,
            forall|p: Seq<char>| #[trigger] r.spec_entry(p) == self.spec_entry(p),
    {
        MemoryActivationFs { symlink_supported: supported, ..self }
    }

    fn put(&mut self, path: &str, e: MemoryActivationFileEntry)
        ensures
            final(self).spec_platform() == old(self).spec_platform(),
            final(self).spec_symlink_supported() == old(self).spec_symlink_supported(),
            final(self).spec_entry(path@) == Some(stored_view(e)),
            forall|p: Seq<char>|
                p != path@ ==> #[trigger] final(self).spec_entry(p) == old(self).spec_entry(p),
    {
        let ghost e_view = stored_view(e);
        assoc_insert(&mut self.entries, path.to_owned(), e);
        assert(self.spec_entry(path@) == Some(e_view));
    }

    /// Puts a plain file at `path`.
    pub fn write_file(&mut self, path: &str, contents: &[u8])
        ensures
            final(self).spec_platform() == old(self).spec_platform(),
            final(self).spec_symlink_supported() == old(self).spec_symlink_supported(),
            final(self).spec_entry(path@) == Some(EntryView::File),
            forall|p: Seq<char>|
                p != path@ ==> #[trigger] final(self).spec_entry(p) == old(self).spec_entry(p),
    {
        let mut bytes: Vec<u8> = Vec::new();
        let n = contents.len();
        let mut i: usize = 0;
        while i < n
            invariant
                i <= n,
                n == contents@.len(),
            decreases n - i,
        {
            bytes.push(contents[i]);
            i = i + 1;
        }
        self.put(path, MemoryActivationFileEntry::File(bytes));
    }

    /// Puts a symlink with no recorded owner at `path`.
    pub fn write_symlink(&mut self, path: &str, target: &str)
        ensures
            final(self).spec_platform() == old(self).spec_platform(),
            final(self).spec_symlink_supported() == old(self).spec_symlink_supported(),
            final(self).spec_entry(path@) == Some(
                EntryView::Symlink { target: target@, owner: None },
            ),
            forall|p: Seq<char>|
                p != path@ ==> #[trigger] final(self).spec_entry(p) == old(self).spec_entry(p),
    {
        self.put(
            path,
            MemoryActivationFileEntry::Symlink { target: target.to_owned(), owner: None },
        );
    }

    /// Puts a symlink owned by the compose plugin of `docker-compose`.
    pub fn write_owned_symlink(&mut self, path: &str, target: &str)
        ensures
            final(self).spec_platform() == old(self).spec_platform(),
            final(self).spec_symlink_supported() == old(self).spec_symlink_supported(),
            final(self).spec_entry(path@) == owned_symlink(target@, default_test_owner()),
            forall|p: Seq<char>|
                p != path@ ==> #[trigger] final(self).spec_entry(p) == old(self).spec_entry(p),
    {
        proof {
            reveal_strlit("default--host--core--docker-compose");
            reveal_strlit("docker-compose");
            reveal_strlit("docker_cli_plugin:compose");
        }
        let _ = self.write_owned_symlink_for(
            path,
            target,
            "default--host--core--docker-compose",
            "docker-compose",
            "docker_cli_plugin:compose",
        );
    }

    /// Puts a symlink owned by the given package integration at `path`.
    pub fn write_owned_symlink_for(
        &mut self,
        path: &str,
        target: &str,
        package_state_key: &str,
        package: &str,
        integration_key: &str,
    ) -> (written: bool)
        ensures
            written,
            final(self).spec_platform() == old(self).spec_platform(),
            final(self).spec_symlink_supported() == old(self).spec_symlink_supported(),
            final(self).spec_entry(path@) == owned_symlink(
                target@,
                OwnerView {
                    package_state_key: package_state_key@,
                    package: package@,
                    integration_key: integration_key@,
                },
            ),
            forall|p: Seq<char>|
                p != path@ ==> #[trigger] final(self).spec_entry(p) == old(self).spec_entry(p),
    {
        let owner = ActivationOwner {
            package_state_key: package_state_key.to_owned(),
            package: package.to_owned(),
            integration_key: integration_key.to_owned(),
        };
        self.put(
            path,
            MemoryActivationFileEntry::Symlink { target: target.to_owned(), owner: Some(owner) },
        );
        true
    }

    fn put_shim(
        &mut self,
        path: &str,
        target: &str,
        package_state_key: &str,
        package: &str,
        integration_key: &str,
    )
        ensures
            final(self).spec_platform() == old(self).spec_platform(),
            final(self).spec_symlink_supported() == old(self).spec_symlink_supported(),
            final(self).spec_entry(path@) == owned_shim(
                target@,
                OwnerView {
                    package_state_key: package_state_key@,
                    package: package@,
                    integration_key: integration_key@,
                },
            ),
            forall|p: Seq<char>|
                p != path@ ==> #[trigger] final(self).spec_entry(p) == old(self).spec_entry(p),
    {
        let owner = ActivationOwner {
            package_state_key: package_state_key.to_owned(),
            package: package.to_owned(),
            integration_key: integration_key.to_owned(),
        };
        self.put(
            path,
            MemoryActivationFileEntry::WindowsShim { target: target.to_owned(), owner: Some(owner) },
        );
    }

    /// Puts service metadata owned by the given package integration at `path`.
    pub fn put_service_metadata(
        &mut self,
        path: &str,
        source: &str,
        package_state_key: &str,
        package: &str,
        integration_key: &str,
    )
        ensures
            final(self).spec_platform() == old(self).spec_platform(),
            final(self).spec_symlink_supported() == old(self).spec_symlink_supported(),
            final(self).spec_entry(path@) == owned_service_metadata(
                source@,
                OwnerView {
                    package_state_key: package_state_key@,
                    package: package@,
                    integration_key: integration_key@,
                },
            ),
            forall|p: Seq<char>|
                p != path@ ==> #[trigger] final(self).spec_entry(p) == old(self).spec_entry(p),
    {
        let owner = ActivationOwner {
            package_state_key: package_state_key.to_owned(),
            package: package.to_owned(),
            integration_key: integration_key.to_owned(),
        };
        self.put(
            path,
            MemoryActivationFileEntry::ServiceMetadata {
                source: source.to_owned(),
                owner: Some(owner),
            },
        );
    }

    /// Whether anything stands at `path`.
    pub fn entry_exists(&self, path: &str) -> (r: bool)
        ensures
            r == (self.spec_entry(path@) is Some),
    {
        assoc_find(&self.entries, path).is_some()
    }

    /// Whether a directory stands at `path`.
    pub fn is_dir(&self, path: &str) -> (r: bool)
        ensures
            r == (self.spec_entry(path@) == Some(EntryView::Directory)),
    {
        match assoc_find(&self.entries, path) {
            Some(i) => match &self.entries[i].1 {
                MemoryActivationFileEntry::Directory => true,
                _ => false,
            },
            None => false,
        }
    }

    /// Whether a plain file stands at `path`.
    pub fn is_file(&self, path: &str) -> (r: bool)
        ensures
            r == (self.spec_entry(path@) == Some(EntryView::File)),
    {
        match assoc_find(&self.entries, path) {
            Some(i) => match &self.entries[i].1 {
                MemoryActivationFileEntry::File(_) => true,
                _ => false,
            },
            None => false,
        }
    }

    /// The target of the symlink at `path`, if a symlink stands there.
    pub fn symlink_target(&self, path: &str) -> (r: Option<String>)
        ensures
            match self.spec_entry(path@) {
                Some(EntryView::Symlink { target, .. }) => r is Some && r->0@ == target,
                _ => r is None,
            },
    {
        match assoc_find(&self.entries, path) {
            Some(i) => match &self.entries[i].1 {
                MemoryActivationFileEntry::Symlink { target, .. } => Some(target.clone()),
                _ => None,
            },
            None => None,
        }
    }

    /// The target of the Windows shim at `path`, if one stands there.
    pub fn shim_target(&self, path: &str) -> (r: Option<String>)
        ensures
            match self.spec_entry(path@) {
                Some(EntryView::WindowsShim { target, .. }) => r is Some && r->0@ == target,
                _ => r is None,
            },
    {
        match assoc_find(&self.entries, path) {
            Some(i) => match &self.entries[i].1 {
                MemoryActivationFileEntry::WindowsShim { target, .. } => Some(target.clone()),
                _ => None,
            },
            None => None,
        }
    }

    /// The source recorded in the service metadata at `path`, if any.
    pub fn service_metadata_source(&self, path: &str) -> (r: Option<String>)
        ensures
            match self.spec_entry(path@) {
                Some(EntryView::ServiceMetadata { source, .. }) => r is Some && r->0@ == source,
                _ => r is None,
            },
    {
        match assoc_find(&self.entries, path) {
            Some(i) => match &self.entries[i].1 {
                MemoryActivationFileEntry::ServiceMetadata { source, .. } => Some(source.clone()),
                _ => None,
            },
            None => None,
        }
    }

    /// The ancestors of `path` that are missing, outermost first; `None`
    /// when some ancestor exists but is not a directory (see
    /// `parent_dirs_spec`).
    pub fn parent_dirs_to_create(&self, path: &str) -> (r: Option<Vec<String>>)
        ensures
            match parent_dirs_of(
                self.stored_platform(),
                |p: Seq<char>| self.stored_entry(p),
                path@,
            ) {
                Some(ds) => r is Some && strings_view(r->0@) == ds,
                None => r is None,
            },
    {
        let ghost platform = self.stored_platform();
        let ghost chain = ancestor_chain(platform, path@);
        let mut parents: Vec<String> = Vec::new();
        let mut prev_len: usize = chars_of(path).len();
        let mut current = parent_path(self.platform, path);
        let ghost mut child: Seq<char> = path@;
        assert(strings_view(parents@) =~= Seq::<Seq<char>>::empty());
        loop
            invariant_except_break
                strings_view(parents@) + ancestor_chain(platform, child) == chain,
                prev_len == child.len(),
                match current {
                    Some(c) => parent_path_spec(platform, child) == Some(c@),
                    None => parent_path_spec(platform, child) is None,
                },
            invariant
                platform == self.stored_platform(),
                chain == ancestor_chain(platform, path@),
            ensures
                strings_view(parents@) == chain,
            decreases prev_len,
        {
            let parent = match current {
                Some(p) => p,
                None => {
                    assert(strings_view(parents@) + ancestor_chain(platform, child) =~= strings_view(parents@));
                    break;
                },
            };
            let pc = chars_of(parent.as_str());
            let plen = pc.len();
            if plen == 0 {
                assert(strings_view(parents@) + ancestor_chain(platform, child) =~= strings_view(parents@));
                break;
            }
            let stop = chars_eq_str(pc.as_slice(), "/") || ends_with_str(pc.as_slice(), ":\\");
            let next = parent_path(self.platform, parent.as_str());
            let ghost q = parent@;
            let ghost before = strings_view(parents@);
            parents.push(parent);
            assert(strings_view(parents@) =~= before.push(q));
            // A parent no shorter than its child cannot lead anywhere new.
            proof {
                reveal_strlit("/");
                reveal_strlit(":\\");
                assert("/"@ =~= seq!['/']);
                assert(":\\"@ =~= seq![':', '\\']);
            }
            if stop || plen >= prev_len {
                assert(ancestor_chain(platform, child) =~= seq![q]);
                assert(before + seq![q] =~= before.push(q));
                break;
            }
            assert(ancestor_chain(platform, child) =~= seq![q] + ancestor_chain(platform, q));
            assert(before + (seq![q] + ancestor_chain(platform, q)) =~= before.push(q)
                + ancestor_chain(platform, q));
            prev_len = plen;
            current = next;
            proof {
                child = q;
            }
        }
        let ghost outer = chain.reverse();
        let ghost entries = |p: Seq<char>| self.stored_entry(p);
        let ghost missing = |q: Seq<char>| entries(q) is None;
        let mut created: Vec<String> = Vec::new();
        let ghost mut j: int = 0;
        assert(strings_view(parents@) == chain);
        assert(outer.take(0) =~= Seq::<Seq<char>>::empty());
        proof {
            reveal(Seq::filter);
        }
        assert(strings_view(created@) =~= outer.take(0).filter(missing));
        while parents.len() > 0
            invariant
                0 <= j <= chain.len(),
                chain == ancestor_chain(self.stored_platform(), path@),
                outer == chain.reverse(),
                entries == (|p: Seq<char>| self.stored_entry(p)),
                missing == (|q: Seq<char>| entries(q) is None),
                parents@.len() == chain.len() - j,
                forall|k: int| 0 <= k < parents@.len() ==> #[trigger] parents@[k]@ == chain[k],
                strings_view(created@) == outer.take(j).filter(missing),
                forall|k: int|
                    0 <= k < j ==> !(#[trigger] self.stored_entry(outer[k]) is Some && self.stored_entry(
                        outer[k],
                    ) != Some(EntryView::Directory)),
            decreases parents@.len(),
        {
            let parent = parents.pop().unwrap();
            let ghost q = parent@;
            assert(q == chain[chain.len() - 1 - j]);
            assert(outer[j] == q);
            proof {
                assert(outer.take(j + 1) =~= outer.take(j).push(q));
                crate::order::lemma_filter_push(outer.take(j), q, missing);
            }
            match assoc_find(&self.entries, parent.as_str()) {
                Some(i) => match &self.entries[i].1 {
                    MemoryActivationFileEntry::Directory => {},
                    _ => {
                        assert(entries(outer[j]) is Some && entries(outer[j])
                            != Some(EntryView::Directory));
                        return None;
                    },
                },
                None => {
                    let ghost before = strings_view(created@);
                    created.push(parent);
                    assert(strings_view(created@) =~= before.push(q));
                },
            }
            proof {
                j = j + 1;
            }
        }
        assert(outer.take(j) =~= outer);
        assert(forall|k: int| 0 <= k < outer.len() ==> #[trigger] entries(outer[k]) == self.stored_entry(outer[k]));
        Some(created)
    }
}

/// The ancestors of `p`, innermost first: parents are followed until one is
/// empty, is `/`, ends in `:\`, or is no shorter than its child.
pub open spec fn ancestor_chain(platform: HostPlatform, p: Seq<char>) -> Seq<Seq<char>>
    decreases p.len(),
{
    match parent_path_spec(platform, p) {
        None => Seq::empty(),
        Some(q) => if q.len() == 0 {
            Seq::empty()
        } else if q == seq!['/'] || crate::text::has_suffix(q, seq![':', '\\']) || q.len()
            >= p.len() {
            seq![q]
        } else {
            seq![q] + ancestor_chain(platform, q)
        },
    }
}

/// The in-memory filesystem carries out every operation.
pub proof fn lemma_reliable(fs: MemoryActivationFs)
    ensures
        fs.spec_reliable(),
{
}

impl ActivationFilesystem for MemoryActivationFs {
    closed spec fn spec_entry(&self, path: Seq<char>) -> Option<EntryView> {
        self.stored_entry(path)
    }

    closed spec fn spec_platform(&self) -> HostPlatform {
        self.platform
    }

    closed spec fn spec_symlink_supported(&self) -> bool {
        self.symlink_supported
    }

    open spec fn spec_reliable(&self) -> bool {
        true
    }

    fn platform(&self) -> (r: HostPlatform) {
        self.platform
    }

    fn symlink_supported(&self) -> (r: bool) {
        self.symlink_supported
    }

    fn entry(&self, path: &str) -> (r: Option<ActivationFsEntry>) {
        match assoc_find(&self.entries, path) {
            Some(i) => match &self.entries[i].1 {
                MemoryActivationFileEntry::File(_) => Some(ActivationFsEntry::File),
                MemoryActivationFileEntry::Symlink { target, owner } => Some(
                    ActivationFsEntry::Symlink { target: target.clone(), owner: copy_owner_opt(owner) },
                ),
                MemoryActivationFileEntry::WindowsShim { target, owner } => Some(
                    ActivationFsEntry::WindowsShim {
                        target: target.clone(),
                        owner: copy_owner_opt(owner),
                    },
                ),
                MemoryActivationFileEntry::ServiceMetadata { source, owner } => Some(
                    ActivationFsEntry::ServiceMetadata {
                        source: source.clone(),
                        owner: copy_owner_opt(owner),
                    },
                ),
                MemoryActivationFileEntry::Directory => Some(ActivationFsEntry::Directory),
            },
            None => None,
        }
    }

    fn create_parent_dirs_after_preflight(&mut self, path: &str) -> (r: Option<Vec<String>>)
        ensures
            match parent_dirs_of(
                old(self).stored_platform(),
                |p: Seq<char>| old(self).stored_entry(p),
                path@,
            ) {
                Some(ds) => r is Some && strings_view(r->0@) == ds && forall|p: Seq<char>|
                    #[trigger] final(self).stored_entry(p) == if ds.contains(p) {
                        Some(EntryView::Directory)
                    } else {
                        old(self).stored_entry(p)
                    },
                None => r is None && forall|p: Seq<char>|
                    #[trigger] final(self).stored_entry(p) == old(self).stored_entry(p),
            },
    {
        proof {
            assert((|p: Seq<char>| self.spec_entry(p)) =~= (|p: Seq<char>| self.stored_entry(p)));
        }
        let created = match self.parent_dirs_to_create(path) {
            Some(c) => c,
            None => {
                return None;
            },
        };
        let ghost before = *self;
        let ghost ds = strings_view(created@);
        proof {
            broadcast use vstd::seq_lib::group_filter_ensures;
            let outer = ancestor_chain(before.stored_platform(), path@).reverse();
            let entries = |p: Seq<char>| before.stored_entry(p);
            let missing = |q: Seq<char>| entries(q) is None;
            assert(ds == outer.filter(missing));
            assert forall|k: int| 0 <= k < ds.len() implies #[trigger] before.spec_entry(ds[k]) is None by {
                assert(missing(outer.filter(missing)[k]));
            }
        }
        let n = created.len();
        let mut i: usize = 0;
        assert(ds.take(0) =~= Seq::<Seq<char>>::empty());
        while i < n
            invariant
                n == created@.len(),
                ds == strings_view(created@),
                i <= n,
                self.spec_platform() == before.spec_platform(),
                self.spec_symlink_supported() == before.spec_symlink_supported(),
                forall|k: int| 0 <= k < n ==> #[trigger] before.spec_entry(ds[k]) is None,
                forall|p: Seq<char>|
                    #[trigger] self.spec_entry(p) == if ds.take(i as int).contains(p) {
                        Some(EntryView::Directory)
                    } else {
                        before.spec_entry(p)
                    },
            decreases n - i,
        {
            let ghost mid = *self;
            let ghost c = created@[i as int]@;
            assert(ds[i as int] == c);
            self.put(created[i].as_str(), MemoryActivationFileEntry::Directory);
            assert(ds.take(i + 1) =~= ds.take(i as int).push(c));
            assert forall|p: Seq<char>|
                #[trigger] self.spec_entry(p) == if ds.take(i + 1).contains(p) {
                    Some(EntryView::Directory)
                } else {
                    before.spec_entry(p)
                } by {
                if p != c {
                    assert(self.spec_entry(p) == mid.spec_entry(p));
                    assert(ds.take(i + 1).contains(p) == ds.take(i as int).contains(p));
                } else {
                    assert(ds.take(i + 1)[i as int] == c);
                }
            }
            i = i + 1;
        }
        assert(ds.take(n as int) =~= ds);
        assert forall|p: Seq<char>|
            dir_added_or_same(before.spec_entry(p), #[trigger] self.spec_entry(p)) by {
            if ds.contains(p) {
                let k = choose|k: int| 0 <= k < ds.len() && ds[k] == p;
                assert(before.spec_entry(ds[k]) is None);
            }
        }
        assert forall|p: Seq<char>|
            #[trigger] self.stored_entry(p) == if ds.contains(p) {
                Some(EntryView::Directory)
            } else {
                before.stored_entry(p)
            } by {
            assert(self.spec_entry(p) == self.stored_entry(p));
            assert(before.spec_entry(p) == before.stored_entry(p));
        }
        Some(created)
    }

    fn write_owned_symlink_for(
        &mut self,
        path: &str,
        target: &str,
        package_state_key: &str,
        package: &str,
        integration_key: &str,
    ) -> (written: bool)
        ensures
            written,
    {
        MemoryActivationFs::write_owned_symlink_for(
            self,
            path,
            target,
            package_state_key,
            package,
            integration_key,
        )
    }

    fn write_owned_shim_for(
        &mut self,
        path: &str,
        target: &str,
        package_state_key: &str,
        package: &str,
        integration_key: &str,
    ) -> (written: bool)
        ensures
            written,
    {
        self.put_shim(path, target, package_state_key, package, integration_key);
        true
    }

    fn write_owned_service_metadata_for(
        &mut self,
        path: &str,
        source: &str,
        package_state_key: &str,
        package: &str,
        integration_key: &str,
    ) -> (written: bool)
        ensures
            written,
    {
        self.put_service_metadata(path, source, package_state_key, package, integration_key);
        true
    }

    fn remove_entry(&mut self, path: &str) -> (removed: bool)
        ensures
            final(self).spec_entry(path@) is None,
    {
        let removed = crate::assoc::assoc_remove(&mut self.entries, path);
        removed
    }
}

} // verus!
