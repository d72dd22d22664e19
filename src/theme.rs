use vstd::prelude::*;
use vstd::string::*;

use crate::files::{base_directories, base_directory, build_index_path, index_path, FileIndex};

verus! {

/// How a directory's icons may be sized. Fixed icons have one size,
/// scalable ones a range of sizes, threshold ones a size with a tolerance.
pub enum ThemeDirectoryType {
    Fixed,
    Scalable,
    Threshold,
}

/// One directory of a theme and the icon sizes it serves.
pub struct ThemeDirectory {
    pub name: String,
    pub size: i16,
    pub scale: Option<i16>,
    pub context: Option<String>,
    pub directory_type: ThemeDirectoryType,
    pub max_size: Option<i16>,
    pub min_size: Option<i16>,
    pub threshold: Option<i16>,
}

/// A named set of icons. Parent themes are owned, so the themes form a tree.
pub struct Theme {
    pub name: String,
    pub comment: String,
    pub inherits: Vec<Theme>,
    pub directories: Vec<ThemeDirectory>,
    pub location: String,
}

/// A theme known by the location of its description file, not yet read.
pub struct UnloadedTheme {
    pub location: String,
}

impl UnloadedTheme {
    /// The theme at this location, before its description is read: the name
    /// and comment are placeholders, and it has no parents and no
    /// directories. Reading the description fills these in.
    pub fn load(self) -> (r: Theme)
        ensures
            r.location@ == self.location@,
            r.name@ == "Insert name of theme"@,
            r.comment@ == "Insert comment after it's read"@,
            r.inherits.len() == 0,
            r.directories.len() == 0,
    {
        Theme {
            name: String::from_str("Insert name of theme"),
            comment: String::from_str("Insert comment after it's read"),
            inherits: Vec::new(),
            directories: Vec::new(),
            location: self.location,
        }
    }
}

/// The first base directory, from the `i`-th on, that holds a theme
/// description, as the path of that description.
pub open spec fn first_index_file(files: Set<Seq<char>>, i: int) -> Option<Seq<char>>
    decreases 3 - i,
{
    if i < 0 || i >= 3 {
        None
    } else if files.contains(index_path(base_directories()[i])) {
        Some(index_path(base_directories()[i]))
    } else {
        first_index_file(files, i + 1)
    }
}

/// Finds the default theme's description: the first base directory that
/// holds an `index.theme`.
pub fn find_fallback_theme(files: &FileIndex) -> (r: Option<UnloadedTheme>)
    ensures
        match r {
            Some(t) => first_index_file(files@, 0) == Some(t.location@),
            None => first_index_file(files@, 0) is None,
        },
{
    let mut i: usize = 0;
    while i < 3
        invariant
            i <= 3,
            first_index_file(files@, 0) == first_index_file(files@, i as int),
        decreases 3 - i,
    {
        let path = build_index_path(base_directory(i));
        if files.path_exists(&path) {
            return Some(UnloadedTheme { location: path });
        }
        i += 1;
    }
    None
}

/// The location of the theme that the user selected.
pub fn get_user_selected_theme() -> (r: String)
    ensures
        r@ == "/usr/share/themes/Adwaita/index.theme"@,
{
    String::from_str("/usr/share/themes/Adwaita/index.theme")
}

} // verus!
