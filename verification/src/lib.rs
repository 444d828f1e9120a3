//! Crosspack installer core: prefix layout, installed-package identities,
//! receipts and state sidecars, integration activation planning and the
//! activation adapters that apply, disable and roll back host exposures.
pub mod text;
pub mod types;
pub mod paths;
pub mod identity;
pub mod layout;
pub mod assoc;
pub mod activation_plan;
pub mod receipts;
pub mod native;
pub mod activation_fs;
pub mod memory_fs;
pub mod activation_adapters;
pub mod service_adapters;
pub mod real_fs;
pub mod activation_state;
pub mod exposure;
pub mod artifact;
pub mod receipt_laws;
pub mod recovery;
pub mod gui_app;
pub mod native_gui;
pub mod native_macos;
pub mod native_registration;
pub mod native_removal;
pub mod binaries;
pub mod pins;
pub mod installed_state;
pub mod native_service;
pub mod order;
pub mod installed_listing;
