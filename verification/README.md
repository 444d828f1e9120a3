# crosspack_installer

The installer core of Crosspack, written in Verus: every function under
`src/` carries a contract that Verus proves.

What the library decides:

- the directory layout of an installation prefix and the identities of
  installed packages, with the prefix's paths joined the way the host joins
  them (`\` on Windows, `/` elsewhere) (`layout`, `identity`, `paths`);
- the text of the prefix's state files — install receipts, native sidecars,
  GUI exposure state, integration activation state, pins — both ways, with
  round-trip laws (`receipts`, `receipt_laws`, `native`, `exposure`,
  `activation_state`, `pins`);
- integration activation: planning Docker CLI plugins, PATH plugins and user
  services, applying and disabling them on an abstract filesystem, and
  replaying their rollback entries (`activation_plan`, `activation_fs`,
  `memory_fs`, `real_fs`, `activation_adapters`, `service_adapters`,
  `native_service`). What an adapter reports follows from the filesystem's
  answers; on a filesystem that carries out every step, such as the
  in-memory one, every accepted rollback entry replays with success (a
  link is put back where the host path's ancestors are directories or
  missing); replaying the rollback entry of a Docker or PATH plugin apply
  succeeds and puts back what stood at the host path, and so does that of a
  disable where the host path's ancestors are directories or missing;
- GUI apps: their projected assets, launchers and handler metadata, and the
  native registration and deregistration plans for Linux, Windows and macOS
  (`gui_app`, `native_gui`, `native_macos`, `native_registration`,
  `native_removal`);
- artifact staging and extraction commands, exposed binaries and completion
  paths, with relative paths checked by the host's rules (on Windows a
  drive letter with `:` and a separator, or two leading separators, makes a
  path absolute, and `\` separates components too) (`artifact`,
  `binaries`, `exposure`);
- installed packages: where their state documents lie, how the states read
  through receipts and the documents found are merged and listed, and how a
  selector picks one package (`installed_state`, `installed_listing`,
  `order`);
- transaction recovery: what an interrupted transaction left on disk calls
  for, and what repairing it runs (`recovery`).

The command runner and the macOS host that the adapters work through are
traits whose contracts speak of a record of what was asked and answered.
`RecordingExecutor` and `RecordingMacosHost` keep that record in verified
code around any runner or host (`NativeCommandRunner`,
`MacosHostOperations`), which is how `app/` runs commands and touches the
macOS disk. The filesystem trait's contracts speak of what each path holds;
the in-memory filesystem defines that model in `src/` and is verified
against it. The disk filesystem in `app/` lies outside Verus and cannot
define the model: it keeps the trait's default one (every path empty), which
the disk does not match, so what is proved of the adapters holds of the
in-memory filesystem, not of the disk, where the trait's contracts are an
assumption about the disk's behaviour.

`app/` holds the file, process and environment work around it: it reads what
the library needs from disk, runs the steps the library plans, and writes
back what the library renders.

`tests/` exercises the library on concrete values.
