//! Icon lookup after the freedesktop.org icon theme rules: theme inheritance,
//! per-directory size policies, exact and closest matches, and unthemed icons.
//!
//! Existence of files is read from a `FileIndex`, a view of the files under
//! the base directories that the caller fills in.

pub mod files;
pub mod laws;
pub mod lookup;
pub mod probe;
pub mod size;
pub mod theme;

pub use files::FileIndex;
pub use lookup::{find_best_icon, find_icon, new, Icon, IconFinderInstance};
pub use probe::{lookup_fallback_icon, lookup_icon};
pub use size::{directory_matches_size, directory_size_distance};
pub use theme::{
    find_fallback_theme, get_user_selected_theme, Theme, ThemeDirectory, ThemeDirectoryType,
    UnloadedTheme,
};
