//! Locates the Windows Kits installation and resolves the directory of a
//! component category (binaries, headers, libraries), optionally narrowed to
//! the newest versioned subdirectory.
mod kits;
mod names;
mod version;

pub use kits::{
    category_dir, lemma_category_dir_deterministic, lemma_category_dirs,
    lemma_version_dir_idempotent, path_join, subdir_name, version_dir, DirectoryType, Error,
    WindowsKits, INSTALLED_ROOTS_KEY, KITS_ROOT_VALUE,
};
pub use names::{has_prefix, lex_le, name_le};
pub use version::{
    has_no_candidate, is_candidate, is_latest, is_version_name, latest_version,
    lemma_latest_unique, VERSION_PREFIX,
};
