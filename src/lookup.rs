use vstd::prelude::*;

use crate::files::FileIndex;
use crate::probe::{first_unthemed, lookup_fallback_icon, lookup_icon, lookup_in_theme, path_of};
use crate::theme::Theme;

verus! {

/// What a lookup of `icon` finds in `t` and its ancestors: the result of the
/// first theme, in pre-order (the theme, then each parent's tree in turn),
/// whose own lookup finds anything.
pub open spec fn resolve(
    t: Theme,
    icon: Seq<char>,
    size: int,
    scale: int,
    files: Set<Seq<char>>,
) -> Option<Seq<char>>
    decreases t, t.inherits.len() + 1,
{
    match lookup_in_theme(t, icon, size, scale, files) {
        Some(p) => Some(p),
        None => resolve_parents(t, icon, size, scale, files, 0),
    }
}

/// `resolve` over the parents of `t` from the `i`-th on.
pub open spec fn resolve_parents(
    t: Theme,
    icon: Seq<char>,
    size: int,
    scale: int,
    files: Set<Seq<char>>,
    i: int,
) -> Option<Seq<char>>
    decreases t, t.inherits.len() - i,
{
    if i < 0 || i >= t.inherits.len() {
        None
    } else {
        match resolve(t.inherits@[i], icon, size, scale, files) {
            Some(p) => Some(p),
            None => resolve_parents(t, icon, size, scale, files, i + 1),
        }
    }
}

pub open spec fn names_of(icons: Seq<&str>) -> Seq<Seq<char>> {
    icons.map_values(|s: &str| s@)
}

/// The first of `icons`, from the `j`-th on, that a lookup in `t` alone
/// finds, and what it finds.
pub open spec fn first_in_theme(
    t: Theme,
    icons: Seq<Seq<char>>,
    size: int,
    scale: int,
    files: Set<Seq<char>>,
    j: int,
) -> Option<Seq<char>>
    decreases icons.len() - j,
{
    if j < 0 || j >= icons.len() {
        None
    } else {
        match lookup_in_theme(t, icons[j], size, scale, files) {
            Some(p) => Some(p),
            None => first_in_theme(t, icons, size, scale, files, j + 1),
        }
    }
}

/// What a lookup of any of `icons` finds in `t` and its ancestors: at each
/// theme every name is tried before the theme's parents are.
pub open spec fn resolve_best(
    t: Theme,
    icons: Seq<Seq<char>>,
    size: int,
    scale: int,
    files: Set<Seq<char>>,
) -> Option<Seq<char>>
    decreases t, t.inherits.len() + 1,
{
    match first_in_theme(t, icons, size, scale, files, 0) {
        Some(p) => Some(p),
        None => resolve_best_parents(t, icons, size, scale, files, 0),
    }
}

/// `resolve_best` over the parents of `t` from the `i`-th on.
pub open spec fn resolve_best_parents(
    t: Theme,
    icons: Seq<Seq<char>>,
    size: int,
    scale: int,
    files: Set<Seq<char>>,
    i: int,
) -> Option<Seq<char>>
    decreases t, t.inherits.len() - i,
{
    if i < 0 || i >= t.inherits.len() {
        None
    } else {
        match resolve_best(t.inherits@[i], icons, size, scale, files) {
            Some(p) => Some(p),
            None => resolve_best_parents(t, icons, size, scale, files, i + 1),
        }
    }
}

/// The first unthemed icon among `icons`, from the `j`-th on.
pub open spec fn first_unthemed_of(icons: Seq<Seq<char>>, files: Set<Seq<char>>, j: int) -> Option<
    Seq<char>,
>
    decreases icons.len() - j,
{
    if j < 0 || j >= icons.len() {
        None
    } else {
        match first_unthemed(icons[j], files, 0) {
            Some(p) => Some(p),
            None => first_unthemed_of(icons, files, j + 1),
        }
    }
}

/// The default theme as this library builds it: named hicolor, with no
/// directories and no parents.
pub open spec fn is_default_theme(t: Theme) -> bool {
    &&& t.name@ == "hicolor"@
    &&& t.directories.len() == 0
    &&& t.inherits.len() == 0
}

/// What `find_best_icon` finds.
pub open spec fn best_icon(
    t: Theme,
    icons: Seq<Seq<char>>,
    size: int,
    scale: int,
    files: Set<Seq<char>>,
) -> Option<Seq<char>> {
    match resolve_best(t, icons, size, scale, files) {
        Some(p) => Some(p),
        None => first_unthemed_of(icons, files, 0),
    }
}

/// The default theme finds nothing: it has no directories and no parents.
pub proof fn lemma_default_theme_finds_nothing(
    t: Theme,
    icon: Seq<char>,
    icons: Seq<Seq<char>>,
    size: int,
    scale: int,
    files: Set<Seq<char>>,
)
    requires
        is_default_theme(t),
    ensures
        resolve(t, icon, size, scale, files) is None,
        resolve_best(t, icons, size, scale, files) is None,
{
    assert(first_in_theme(t, icons, size, scale, files, 0) is None) by {
        lemma_empty_theme_lookup_none(t, icons, size, scale, files, 0);
    }
    assert(lookup_in_theme(t, icon, size, scale, files) is None);
}

proof fn lemma_empty_theme_lookup_none(
    t: Theme,
    icons: Seq<Seq<char>>,
    size: int,
    scale: int,
    files: Set<Seq<char>>,
    j: int,
)
    requires
        t.directories.len() == 0,
    ensures
        first_in_theme(t, icons, size, scale, files, j) is None,
    decreases icons.len() - j,
{
    if 0 <= j < icons.len() {
        assert(lookup_in_theme(t, icons[j], size, scale, files) is None);
        lemma_empty_theme_lookup_none(t, icons, size, scale, files, j + 1);
    }
}

fn default_theme() -> (t: Theme)
    ensures
        is_default_theme(t),
{
    Theme {
        name: String::from_str("hicolor"),
        comment: String::from_str("Default icon theme"),
        inherits: Vec::new(),
        directories: Vec::new(),
        location: String::new(),
    }
}

fn find_icon_helper(icon: &str, size: i16, scale: i16, theme: &Theme, files: &FileIndex) -> (r: Option<String>)
    ensures
        path_of(r) == resolve(*theme, icon@, size as int, scale as int, files@),
    decreases theme,
{
    let found = lookup_icon(icon, size, scale, theme, files);
    if found.is_some() {
        return found;
    }
    let mut i: usize = 0;
    while i < theme.inherits.len()
        invariant
            i <= theme.inherits.len(),
            resolve(*theme, icon@, size as int, scale as int, files@) == resolve_parents(
                *theme,
                icon@,
                size as int,
                scale as int,
                files@,
                i as int,
            ),
        decreases theme.inherits.len() - i,
    {
        let parent = find_icon_helper(icon, size, scale, &theme.inherits[i], files);
        if parent.is_some() {
            return parent;
        }
        i += 1;
    }
    None
}

fn find_best_icon_helper(icon_list: &Vec<&str>, size: i16, scale: i16, theme: &Theme, files: &FileIndex) -> (r:
    Option<String>)
    ensures
        path_of(r) == resolve_best(*theme, names_of(icon_list@), size as int, scale as int, files@),
    decreases theme,
{
    let ghost names = names_of(icon_list@);
    let mut j: usize = 0;
    while j < icon_list.len()
        invariant
            j <= icon_list.len(),
            names == names_of(icon_list@),
            first_in_theme(*theme, names, size as int, scale as int, files@, 0) == first_in_theme(
                *theme,
                names,
                size as int,
                scale as int,
                files@,
                j as int,
            ),
        decreases icon_list.len() - j,
    {
        let found = lookup_icon(icon_list[j], size, scale, theme, files);
        if found.is_some() {
            return found;
        }
        j += 1;
    }
    let mut i: usize = 0;
    while i < theme.inherits.len()
        invariant
            i <= theme.inherits.len(),
            names == names_of(icon_list@),
            resolve_best(*theme, names, size as int, scale as int, files@) == resolve_best_parents(
                *theme,
                names,
                size as int,
                scale as int,
                files@,
                i as int,
            ),
        decreases theme.inherits.len() - i,
    {
        let parent = find_best_icon_helper(icon_list, size, scale, &theme.inherits[i], files);
        if parent.is_some() {
            return parent;
        }
        i += 1;
    }
    None
}

/// Finds the file for `icon` at `size` and `scale`: in `user_selected_theme`
/// and its ancestors, then in the default theme. The search stops at the
/// first theme that has the icon in any size.
pub fn find_icon(icon: &str, size: i16, scale: i16, user_selected_theme: Theme, files: &FileIndex) -> (r: Option<
    String,
>)
    ensures
        path_of(r) == resolve(user_selected_theme, icon@, size as int, scale as int, files@),
{
    let fallback_theme = default_theme();
    match find_icon_helper(icon, size, scale, &user_selected_theme, files) {
        Some(found) => Some(found),
        None => {
            proof {
                lemma_default_theme_finds_nothing(fallback_theme, icon@, seq![], size as int, scale as int, files@);
            }
            find_icon_helper(icon, size, scale, &fallback_theme, files)
        },
    }
}

/// Finds the file for the first of `icon_list` that any theme has: at each
/// theme, from `user_selected_theme` through its ancestors to the default
/// theme, every name is tried before the parents are. Failing that, the
/// first name that exists as an unthemed icon.
pub fn find_best_icon(icon_list: Vec<&str>, size: i16, scale: i16, user_selected_theme: Theme, files: &FileIndex) -> (r:
    Option<String>)
    ensures
        path_of(r) == best_icon(user_selected_theme, names_of(icon_list@), size as int, scale as int, files@),
{
    let ghost names = names_of(icon_list@);
    let fallback_theme = default_theme();
    if let Some(found) = find_best_icon_helper(&icon_list, size, scale, &user_selected_theme, files) {
        return Some(found);
    }
    proof {
        lemma_default_theme_finds_nothing(fallback_theme, seq![], names, size as int, scale as int, files@);
    }
    if let Some(found) = find_best_icon_helper(&icon_list, size, scale, &fallback_theme, files) {
        return Some(found);
    }
    let mut j: usize = 0;
    while j < icon_list.len()
        invariant
            j <= icon_list.len(),
            names == names_of(icon_list@),
            resolve_best(user_selected_theme, names, size as int, scale as int, files@) is None,
            first_unthemed_of(names, files@, 0) == first_unthemed_of(names, files@, j as int),
        decreases icon_list.len() - j,
    {
        assert(names[j as int] == icon_list@[j as int]@);
        if let Some(found) = lookup_fallback_icon(icon_list[j], files) {
            return Some(found);
        }
        j += 1;
    }
    None
}

/// A finder bound to one theme.
pub struct IconFinderInstance {
    pub theme: Theme,
}

/// A finder that looks icons up in `theme`.
pub fn new(theme: Theme) -> (r: IconFinderInstance)
    ensures
        r.theme == theme,
{
    IconFinderInstance { theme }
}

impl IconFinderInstance {
    /// `find_icon` in this finder's theme.
    pub fn find_icon(self, icon: &str, size: i16, scale: i16, files: &FileIndex) -> (r: Option<String>)
        ensures
            path_of(r) == resolve(self.theme, icon@, size as int, scale as int, files@),
    {
        find_icon(icon, size, scale, self.theme, files)
    }
}

/// An icon together with the theme it belongs to.
pub struct Icon {
    pub theme: Theme,
}

} // verus!
