//! The directory layout of an installation prefix: where packages, exposed
//! binaries, completions, GUI assets, state files and transactions live.
use vstd::prelude::*;

use crate::identity::{legacy_state_key_of, state_key_of, target_label_of, InstalledPackageIdentity};
use crate::paths::{join_file_on_host, join_path_on_host, path_join_on_host};
use crate::types::{ArchiveType, ArtifactCompletionShell};

verus! {

/// An installation prefix.
#[derive(Debug, Clone, PartialEq, Eq)]
pub struct PrefixLayout {
    prefix: String,
    windows: bool,
}

impl View for PrefixLayout {
    type V = Seq<char>;

    closed spec fn view(&self) -> Seq<char> {
        self.prefix@
    }
}

impl PrefixLayout {
    /// A layout rooted at `prefix`, whose paths are joined the way this
    /// library's host joins them.
    pub fn new(prefix: &str) -> (r: Self)
        ensures
            r@ == prefix@,
    {
        PrefixLayout {
            prefix: String::from_str(prefix),
            windows: crate::paths::host_main_separator() == '\\',
        }
    }

    /// Whether the layout's paths are joined as on Windows (`\\`) rather
    /// than as on Unix (`/`).
    pub closed spec fn spec_windows(&self) -> bool {
        self.windows
    }

    /// Whether the layout's paths are joined as on Windows.
    pub fn joins_as_windows(&self) -> (r: bool)
        ensures
            r == self.spec_windows(),
    {
        self.windows
    }

    /// The same layout.
    pub fn duplicate(&self) -> (r: Self)
        ensures
            r@ == self@,
            r.spec_windows() == self.spec_windows(),
    {
        PrefixLayout { prefix: self.prefix.clone(), windows: self.windows }
    }

    /// The prefix itself.
    pub fn prefix(&self) -> (r: &str)
        ensures
            r@ == self@,
    {
        self.prefix.as_str()
    }
    pub open spec fn spec_pkgs_dir(&self) -> Seq<char> {
        path_join_on_host(self.spec_windows(), self@, "pkgs"@)
    }
    pub fn pkgs_dir(&self) -> (r: String)
        ensures
            r@ == self.spec_pkgs_dir(),
    {
        join_path_on_host(self.windows, self.prefix.as_str(), "pkgs")
    }
    pub open spec fn spec_bin_dir(&self) -> Seq<char> {
        path_join_on_host(self.spec_windows(), self@, "bin"@)
    }
    pub fn bin_dir(&self) -> (r: String)
        ensures
            r@ == self.spec_bin_dir(),
    {
        join_path_on_host(self.windows, self.prefix.as_str(), "bin")
    }
    pub open spec fn spec_state_dir(&self) -> Seq<char> {
        path_join_on_host(self.spec_windows(), self@, "state"@)
    }
    pub fn state_dir(&self) -> (r: String)
        ensures
            r@ == self.spec_state_dir(),
    {
        join_path_on_host(self.windows, self.prefix.as_str(), "state")
    }
    pub open spec fn spec_cache_dir(&self) -> Seq<char> {
        path_join_on_host(self.spec_windows(), self@, "cache"@)
    }
    pub fn cache_dir(&self) -> (r: String)
        ensures
            r@ == self.spec_cache_dir(),
    {
        join_path_on_host(self.windows, self.prefix.as_str(), "cache")
    }
    pub open spec fn spec_share_dir(&self) -> Seq<char> {
        path_join_on_host(self.spec_windows(), self@, "share"@)
    }
    pub fn share_dir(&self) -> (r: String)
        ensures
            r@ == self.spec_share_dir(),
    {
        join_path_on_host(self.windows, self.prefix.as_str(), "share")
    }
    pub open spec fn spec_completions_dir(&self) -> Seq<char> {
        path_join_on_host(self.spec_windows(), self.spec_share_dir(), "completions"@)
    }
    pub fn completions_dir(&self) -> (r: String)
        ensures
            r@ == self.spec_completions_dir(),
    {
        join_path_on_host(self.windows, self.share_dir().as_str(), "completions")
    }
    pub open spec fn spec_package_completions_dir(&self) -> Seq<char> {
        path_join_on_host(self.spec_windows(), self.spec_completions_dir(), "packages"@)
    }
    pub fn package_completions_dir(&self) -> (r: String)
        ensures
            r@ == self.spec_package_completions_dir(),
    {
        join_path_on_host(self.windows, self.completions_dir().as_str(), "packages")
    }
    pub open spec fn spec_shell_init_dir(&self) -> Seq<char> {
        path_join_on_host(self.spec_windows(), path_join_on_host(self.spec_windows(), self.spec_share_dir(), "shell"@), "init"@)
    }
    pub fn shell_init_dir(&self) -> (r: String)
        ensures
            r@ == self.spec_shell_init_dir(),
    {
        let d0 = join_path_on_host(self.windows, self.share_dir().as_str(), "shell");
        join_path_on_host(self.windows, d0.as_str(), "init")
    }
    pub open spec fn spec_man_dir(&self) -> Seq<char> {
        path_join_on_host(self.spec_windows(), self.spec_share_dir(), "man"@)
    }
    pub fn man_dir(&self) -> (r: String)
        ensures
            r@ == self.spec_man_dir(),
    {
        join_path_on_host(self.windows, self.share_dir().as_str(), "man")
    }
    pub open spec fn spec_gui_dir(&self) -> Seq<char> {
        path_join_on_host(self.spec_windows(), self.spec_share_dir(), "gui"@)
    }
    pub fn gui_dir(&self) -> (r: String)
        ensures
            r@ == self.spec_gui_dir(),
    {
        join_path_on_host(self.windows, self.share_dir().as_str(), "gui")
    }
    pub open spec fn spec_gui_launchers_dir(&self) -> Seq<char> {
        path_join_on_host(self.spec_windows(), self.spec_gui_dir(), "launchers"@)
    }
    pub fn gui_launchers_dir(&self) -> (r: String)
        ensures
            r@ == self.spec_gui_launchers_dir(),
    {
        join_path_on_host(self.windows, self.gui_dir().as_str(), "launchers")
    }
    pub open spec fn spec_gui_handlers_dir(&self) -> Seq<char> {
        path_join_on_host(self.spec_windows(), self.spec_gui_dir(), "handlers"@)
    }
    pub fn gui_handlers_dir(&self) -> (r: String)
        ensures
            r@ == self.spec_gui_handlers_dir(),
    {
        join_path_on_host(self.windows, self.gui_dir().as_str(), "handlers")
    }
    pub open spec fn spec_integrations_dir(&self) -> Seq<char> {
        path_join_on_host(self.spec_windows(), self.spec_share_dir(), "integrations"@)
    }
    pub fn integrations_dir(&self) -> (r: String)
        ensures
            r@ == self.spec_integrations_dir(),
    {
        join_path_on_host(self.windows, self.share_dir().as_str(), "integrations")
    }
    pub open spec fn spec_artifacts_cache_dir(&self) -> Seq<char> {
        path_join_on_host(self.spec_windows(), self.spec_cache_dir(), "artifacts"@)
    }
    pub fn artifacts_cache_dir(&self) -> (r: String)
        ensures
            r@ == self.spec_artifacts_cache_dir(),
    {
        join_path_on_host(self.windows, self.cache_dir().as_str(), "artifacts")
    }
    /// Where an artifact is cached:
    /// `<artifacts cache>/<name>/<version>/<target>/artifact.<extension>`.
    pub open spec fn spec_artifact_cache_path(
        &self,
        name: Seq<char>,
        version: Seq<char>,
        target: Seq<char>,
        archive_type: ArchiveType,
    ) -> Seq<char> {
        path_join_on_host(self.spec_windows(), 
            path_join_on_host(self.spec_windows(), path_join_on_host(self.spec_windows(), path_join_on_host(self.spec_windows(), self.spec_artifacts_cache_dir(), name), version), target),
            "artifact."@ + archive_type.token(),
        )
    }
    pub fn artifact_cache_path(
        &self,
        name: &str,
        version: &str,
        target: &str,
        archive_type: ArchiveType,
    ) -> (r: String)
        ensures
            r@ == self.spec_artifact_cache_path(name@, version@, target@, archive_type),
    {
        let by_name = join_path_on_host(self.windows, self.artifacts_cache_dir().as_str(), name);
        let by_version = join_path_on_host(self.windows, by_name.as_str(), version);
        let by_target = join_path_on_host(self.windows, by_version.as_str(), target);
        join_file_on_host(self.windows, by_target.as_str(), "artifact.", archive_type.cache_extension())
    }
    pub open spec fn spec_tmp_state_dir(&self) -> Seq<char> {
        path_join_on_host(self.spec_windows(), self.spec_state_dir(), "tmp"@)
    }
    pub fn tmp_state_dir(&self) -> (r: String)
        ensures
            r@ == self.spec_tmp_state_dir(),
    {
        join_path_on_host(self.windows, self.state_dir().as_str(), "tmp")
    }
    pub open spec fn spec_installed_state_dir(&self) -> Seq<char> {
        path_join_on_host(self.spec_windows(), self.spec_state_dir(), "installed"@)
    }
    pub fn installed_state_dir(&self) -> (r: String)
        ensures
            r@ == self.spec_installed_state_dir(),
    {
        join_path_on_host(self.windows, self.state_dir().as_str(), "installed")
    }
    pub open spec fn spec_pins_dir(&self) -> Seq<char> {
        path_join_on_host(self.spec_windows(), self.spec_state_dir(), "pins"@)
    }
    pub fn pins_dir(&self) -> (r: String)
        ensures
            r@ == self.spec_pins_dir(),
    {
        join_path_on_host(self.windows, self.state_dir().as_str(), "pins")
    }
    pub open spec fn spec_identity_pkgs_dir(&self) -> Seq<char> {
        path_join_on_host(self.spec_windows(), path_join_on_host(self.spec_windows(), self.spec_pkgs_dir(), "identities"@), "v1"@)
    }
    pub fn identity_pkgs_dir(&self) -> (r: String)
        ensures
            r@ == self.spec_identity_pkgs_dir(),
    {
        let d0 = join_path_on_host(self.windows, self.pkgs_dir().as_str(), "identities");
        join_path_on_host(self.windows, d0.as_str(), "v1")
    }
    pub open spec fn spec_integration_activation_state_path(&self) -> Seq<char> {
        path_join_on_host(self.spec_windows(), self.spec_installed_state_dir(), "integrations.activation"@)
    }
    pub fn integration_activation_state_path(&self) -> (r: String)
        ensures
            r@ == self.spec_integration_activation_state_path(),
    {
        join_path_on_host(self.windows, self.installed_state_dir().as_str(), "integrations.activation")
    }
    pub open spec fn spec_transactions_dir(&self) -> Seq<char> {
        path_join_on_host(self.spec_windows(), self.spec_state_dir(), "transactions"@)
    }
    pub fn transactions_dir(&self) -> (r: String)
        ensures
            r@ == self.spec_transactions_dir(),
    {
        join_path_on_host(self.windows, self.state_dir().as_str(), "transactions")
    }
    pub open spec fn spec_transactions_staging_dir(&self) -> Seq<char> {
        path_join_on_host(self.spec_windows(), self.spec_transactions_dir(), "staging"@)
    }
    pub fn transactions_staging_dir(&self) -> (r: String)
        ensures
            r@ == self.spec_transactions_staging_dir(),
    {
        join_path_on_host(self.windows, self.transactions_dir().as_str(), "staging")
    }
    pub open spec fn spec_transaction_active_path(&self) -> Seq<char> {
        path_join_on_host(self.spec_windows(), self.spec_transactions_dir(), "active"@)
    }
    pub fn transaction_active_path(&self) -> (r: String)
        ensures
            r@ == self.spec_transaction_active_path(),
    {
        join_path_on_host(self.windows, self.transactions_dir().as_str(), "active")
    }
    pub fn pin_path(&self, name: &str) -> (r: String)
        ensures
            r@ == path_join_on_host(self.spec_windows(), self.spec_pins_dir(), name@ + ".pin"@),
    {
        join_file_on_host(self.windows, self.pins_dir().as_str(), name, ".pin")
    }
    pub fn receipt_path(&self, name: &str) -> (r: String)
        ensures
            r@ == path_join_on_host(self.spec_windows(), self.spec_installed_state_dir(), name@ + ".receipt"@),
    {
        join_file_on_host(self.windows, self.installed_state_dir().as_str(), name, ".receipt")
    }
    pub fn installed_state_document_path(&self, package_name: &str) -> (r: String)
        ensures
            r@ == path_join_on_host(self.spec_windows(), self.spec_installed_state_dir(), package_name@ + ".state.json"@),
    {
        join_file_on_host(self.windows, self.installed_state_dir().as_str(), package_name, ".state.json")
    }
    pub fn gui_state_path(&self, name: &str) -> (r: String)
        ensures
            r@ == path_join_on_host(self.spec_windows(), self.spec_installed_state_dir(), name@ + ".gui"@),
    {
        join_file_on_host(self.windows, self.installed_state_dir().as_str(), name, ".gui")
    }
    pub fn gui_native_state_path(&self, name: &str) -> (r: String)
        ensures
            r@ == path_join_on_host(self.spec_windows(), self.spec_installed_state_dir(), name@ + ".gui-native"@),
    {
        join_file_on_host(self.windows, self.installed_state_dir().as_str(), name, ".gui-native")
    }
    pub fn declared_services_state_path(&self, name: &str) -> (r: String)
        ensures
            r@ == path_join_on_host(self.spec_windows(), self.spec_installed_state_dir(), name@ + ".services"@),
    {
        join_file_on_host(self.windows, self.installed_state_dir().as_str(), name, ".services")
    }
    pub fn integration_state_path(&self, name: &str) -> (r: String)
        ensures
            r@ == path_join_on_host(self.spec_windows(), self.spec_installed_state_dir(), name@ + ".integrations"@),
    {
        join_file_on_host(self.windows, self.installed_state_dir().as_str(), name, ".integrations")
    }
    pub fn shell_init_state_path(&self, name: &str) -> (r: String)
        ensures
            r@ == path_join_on_host(self.spec_windows(), self.spec_installed_state_dir(), name@ + ".shell-init"@),
    {
        join_file_on_host(self.windows, self.installed_state_dir().as_str(), name, ".shell-init")
    }
    pub fn transaction_metadata_path(&self, txid: &str) -> (r: String)
        ensures
            r@ == path_join_on_host(self.spec_windows(), self.spec_transactions_dir(), txid@ + ".json"@),
    {
        join_file_on_host(self.windows, self.transactions_dir().as_str(), txid, ".json")
    }
    pub fn transaction_journal_path(&self, txid: &str) -> (r: String)
        ensures
            r@ == path_join_on_host(self.spec_windows(), self.spec_transactions_dir(), txid@ + ".journal"@),
    {
        join_file_on_host(self.windows, self.transactions_dir().as_str(), txid, ".journal")
    }
    pub fn identity_pin_path(&self, identity: &InstalledPackageIdentity) -> (r: String)
        ensures
            r@ == path_join_on_host(self.spec_windows(), self.spec_pins_dir(), state_key_of(identity@) + ".pin"@),
    {
        let key = identity.state_key();
        join_file_on_host(self.windows, self.pins_dir().as_str(), key.as_str(), ".pin")
    }
    pub fn identity_receipt_path(&self, identity: &InstalledPackageIdentity) -> (r: String)
        ensures
            r@ == path_join_on_host(self.spec_windows(), self.spec_installed_state_dir(), state_key_of(identity@) + ".receipt"@),
    {
        let key = identity.state_key();
        join_file_on_host(self.windows, self.installed_state_dir().as_str(), key.as_str(), ".receipt")
    }
    pub fn installed_identity_state_document_path(&self, identity: &InstalledPackageIdentity) -> (r: String)
        ensures
            r@ == path_join_on_host(self.spec_windows(), self.spec_installed_state_dir(), state_key_of(identity@) + ".state.json"@),
    {
        let key = identity.state_key();
        join_file_on_host(self.windows, self.installed_state_dir().as_str(), key.as_str(), ".state.json")
    }
    pub fn installed_legacy_identity_state_document_path(&self, identity: &InstalledPackageIdentity) -> (r: String)
        ensures
            r@ == path_join_on_host(self.spec_windows(), self.spec_installed_state_dir(), legacy_state_key_of(identity@) + ".state.json"@),
    {
        let key = identity.legacy_state_key();
        join_file_on_host(self.windows, self.installed_state_dir().as_str(), key.as_str(), ".state.json")
    }
    pub fn identity_gui_state_path(&self, identity: &InstalledPackageIdentity) -> (r: String)
        ensures
            r@ == path_join_on_host(self.spec_windows(), self.spec_installed_state_dir(), state_key_of(identity@) + ".gui"@),
    {
        let key = identity.state_key();
        join_file_on_host(self.windows, self.installed_state_dir().as_str(), key.as_str(), ".gui")
    }
    pub fn identity_gui_native_state_path(&self, identity: &InstalledPackageIdentity) -> (r: String)
        ensures
            r@ == path_join_on_host(self.spec_windows(), self.spec_installed_state_dir(), state_key_of(identity@) + ".gui-native"@),
    {
        let key = identity.state_key();
        join_file_on_host(self.windows, self.installed_state_dir().as_str(), key.as_str(), ".gui-native")
    }
    pub fn identity_declared_services_state_path(&self, identity: &InstalledPackageIdentity) -> (r: String)
        ensures
            r@ == path_join_on_host(self.spec_windows(), self.spec_installed_state_dir(), state_key_of(identity@) + ".services"@),
    {
        let key = identity.state_key();
        join_file_on_host(self.windows, self.installed_state_dir().as_str(), key.as_str(), ".services")
    }
    pub fn identity_integration_state_path(&self, identity: &InstalledPackageIdentity) -> (r: String)
        ensures
            r@ == path_join_on_host(self.spec_windows(), self.spec_installed_state_dir(), state_key_of(identity@) + ".integrations"@),
    {
        let key = identity.state_key();
        join_file_on_host(self.windows, self.installed_state_dir().as_str(), key.as_str(), ".integrations")
    }
    pub fn identity_shell_init_state_path(&self, identity: &InstalledPackageIdentity) -> (r: String)
        ensures
            r@ == path_join_on_host(self.spec_windows(), self.spec_installed_state_dir(), state_key_of(identity@) + ".shell-init"@),
    {
        let key = identity.state_key();
        join_file_on_host(self.windows, self.installed_state_dir().as_str(), key.as_str(), ".shell-init")
    }
    pub fn transaction_staging_path(&self, txid: &str) -> (r: String)
        ensures
            r@ == path_join_on_host(self.spec_windows(), self.spec_transactions_staging_dir(), txid@),
    {
        join_path_on_host(self.windows, self.transactions_staging_dir().as_str(), txid)
    }

    pub fn package_dir(&self, name: &str, version: &str) -> (r: String)
        ensures
            r@ == path_join_on_host(self.spec_windows(), path_join_on_host(self.spec_windows(), self.spec_pkgs_dir(), name@), version@),
    {
        let d = join_path_on_host(self.windows, self.pkgs_dir().as_str(), name);
        join_path_on_host(self.windows, d.as_str(), version)
    }

    pub fn identity_package_dir(&self, identity: &InstalledPackageIdentity, version: &str) -> (r: String)
        ensures
            r@ == path_join_on_host(self.spec_windows(), 
                path_join_on_host(self.spec_windows(), 
                    path_join_on_host(self.spec_windows(), 
                        path_join_on_host(self.spec_windows(), 
                            path_join_on_host(self.spec_windows(), self.spec_identity_pkgs_dir(), identity@.profile),
                            target_label_of(identity@.target),
                        ),
                        identity@.source_namespace,
                    ),
                    identity@.package,
                ),
                version@,
            ),
    {
        let d0 = join_path_on_host(self.windows, self.identity_pkgs_dir().as_str(), identity.profile.as_str());
        let d1 = join_path_on_host(self.windows, d0.as_str(), identity.target_label());
        let d2 = join_path_on_host(self.windows, d1.as_str(), identity.source_namespace_label());
        let d3 = join_path_on_host(self.windows, d2.as_str(), identity.package.as_str());
        join_path_on_host(self.windows, d3.as_str(), version)
    }

    pub fn package_completions_shell_dir(&self, shell: ArtifactCompletionShell) -> (r: String)
        ensures
            r@ == path_join_on_host(self.spec_windows(), self.spec_package_completions_dir(), shell.token()),
    {
        join_path_on_host(self.windows, self.package_completions_dir().as_str(), shell.as_str())
    }

    pub fn shell_init_shell_dir(&self, shell: ArtifactCompletionShell) -> (r: String)
        ensures
            r@ == path_join_on_host(self.spec_windows(), self.spec_shell_init_dir(), shell.token()),
    {
        join_path_on_host(self.windows, self.shell_init_dir().as_str(), shell.as_str())
    }

    /// Every directory `ensure_base_dirs` creates, in creation order.
    pub open spec fn spec_base_dirs(&self) -> Seq<Seq<char>> {
        seq![
            self.spec_pkgs_dir(),
            self.spec_identity_pkgs_dir(),
            self.spec_bin_dir(),
            self.spec_state_dir(),
            self.spec_cache_dir(),
            self.spec_share_dir(),
            self.spec_completions_dir(),
            self.spec_package_completions_dir(),
            self.spec_shell_init_dir(),
            self.spec_man_dir(),
            self.spec_gui_dir(),
            self.spec_gui_launchers_dir(),
            self.spec_gui_handlers_dir(),
            self.spec_integrations_dir(),
            self.spec_artifacts_cache_dir(),
            self.spec_tmp_state_dir(),
            self.spec_installed_state_dir(),
            self.spec_pins_dir(),
            self.spec_transactions_dir(),
            self.spec_transactions_staging_dir(),
        ]
    }

    /// The directories of a fresh prefix, in the order they are created.
    pub fn base_dirs(&self) -> (r: Vec<String>)
        ensures
            r@.len() == self.spec_base_dirs().len(),
            forall|k: int| 0 <= k < r@.len() ==> #[trigger] r@[k]@ == self.spec_base_dirs()[k],
    {
        let mut r: Vec<String> = Vec::new();
        r.push(self.pkgs_dir());
        r.push(self.identity_pkgs_dir());
        r.push(self.bin_dir());
        r.push(self.state_dir());
        r.push(self.cache_dir());
        r.push(self.share_dir());
        r.push(self.completions_dir());
        r.push(self.package_completions_dir());
        r.push(self.shell_init_dir());
        r.push(self.man_dir());
        r.push(self.gui_dir());
        r.push(self.gui_launchers_dir());
        r.push(self.gui_handlers_dir());
        r.push(self.integrations_dir());
        r.push(self.artifacts_cache_dir());
        r.push(self.tmp_state_dir());
        r.push(self.installed_state_dir());
        r.push(self.pins_dir());
        r.push(self.transactions_dir());
        r.push(self.transactions_staging_dir());
        r
    }
}

} // verus!
