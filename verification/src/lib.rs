//! Keyboard layout generation: the layout model, the macOS key transition
//! tables, the Windows `.klc` text format and the smaller converters that the
//! platform generators share.

pub mod android;
pub mod chromeos;
pub mod index_map;
pub mod keyed;
pub mod ios;
pub mod iso_keys;
pub mod keylayout;
pub mod klc;
pub mod klc_build;
pub mod klc_generate;
pub mod layer_set;
pub mod layout;
pub mod macos;
pub mod macos_bundle;
pub mod pbx_duplicate;
pub mod pbx_edit;
pub mod pbx_locales;
pub mod pbx_project;
pub mod pbx_targets;
pub mod pbx_write;
pub mod pbxproj;
pub mod project;
pub mod sorted;
pub mod text;
pub mod xcode;
