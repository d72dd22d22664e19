use vstd::prelude::*;

use crate::files::{
    allowed_extension,
    allowed_extensions,
    base_directories,
    base_directory,
    build_themed_path,
    build_unthemed_path,
    themed_path,
    unthemed_path,
    FileIndex,
};
use crate::size::{directory_matches_size, directory_size_distance, matches_size, size_distance};
use crate::theme::{Theme, ThemeDirectory};

verus! {

/// Each directory of a theme gives nine candidate files: three base
/// directories, each with three extensions. Candidate `k` belongs to
/// directory `k / 9`, base directory `(k % 9) / 3` and extension `k % 3`,
/// so that candidates are numbered in the order they are tried.
pub open spec fn candidate_count(t: Theme) -> int {
    t.directories.len() * 9
}

pub open spec fn candidate_directory(t: Theme, k: int) -> ThemeDirectory {
    t.directories@[k / 9]
}

pub open spec fn candidate_path(t: Theme, icon: Seq<char>, k: int) -> Seq<char> {
    themed_path(
        base_directories()[(k % 9) / 3],
        t.name@,
        candidate_directory(t, k).name@,
        icon,
        allowed_extensions()[k % 3],
    )
}

/// Candidate `k` exists and its directory serves the size as it is.
pub open spec fn is_exact_candidate(
    t: Theme,
    icon: Seq<char>,
    size: int,
    scale: int,
    files: Set<Seq<char>>,
    k: int,
) -> bool {
    &&& files.contains(candidate_path(t, icon, k))
    &&& matches_size(candidate_directory(t, k), size, scale)
}

/// The first exact candidate from `k` on.
pub open spec fn first_exact(
    t: Theme,
    icon: Seq<char>,
    size: int,
    scale: int,
    files: Set<Seq<char>>,
    k: int,
) -> Option<Seq<char>>
    decreases candidate_count(t) - k,
{
    if k < 0 || k >= candidate_count(t) {
        None
    } else if is_exact_candidate(t, icon, size, scale, files, k) {
        Some(candidate_path(t, icon, k))
    } else {
        first_exact(t, icon, size, scale, files, k + 1)
    }
}

/// Among the first `k` candidates, the existing one nearest in size with
/// its distance; of equally near ones, the first.
pub open spec fn closest_among(
    t: Theme,
    icon: Seq<char>,
    size: int,
    scale: int,
    files: Set<Seq<char>>,
    k: int,
) -> Option<(Seq<char>, int)>
    decreases k,
{
    if k <= 0 {
        None
    } else {
        let before = closest_among(t, icon, size, scale, files, k - 1);
        let p = candidate_path(t, icon, k - 1);
        let dist = size_distance(candidate_directory(t, k - 1), size, scale);
        let nearer = match before {
            Some(b) => dist < b.1,
            None => true,
        };
        if files.contains(p) && nearer {
            Some((p, dist))
        } else {
            before
        }
    }
}

/// What a lookup in the theme `t` alone finds: an exact match if there is
/// one, else the nearest existing candidate, else nothing.
pub open spec fn lookup_in_theme(
    t: Theme,
    icon: Seq<char>,
    size: int,
    scale: int,
    files: Set<Seq<char>>,
) -> Option<Seq<char>> {
    match first_exact(t, icon, size, scale, files, 0) {
        Some(p) => Some(p),
        None => match closest_among(t, icon, size, scale, files, candidate_count(t)) {
            Some(c) => Some(c.0),
            None => None,
        },
    }
}

pub open spec fn unthemed_candidate(icon: Seq<char>, c: int) -> Seq<char> {
    unthemed_path(base_directories()[c / 3], icon, allowed_extensions()[c % 3])
}

/// The first existing unthemed candidate from `c` on.
pub open spec fn first_unthemed(icon: Seq<char>, files: Set<Seq<char>>, c: int) -> Option<Seq<char>>
    decreases 9 - c,
{
    if c < 0 || c >= 9 {
        None
    } else if files.contains(unthemed_candidate(icon, c)) {
        Some(unthemed_candidate(icon, c))
    } else {
        first_unthemed(icon, files, c + 1)
    }
}

pub open spec fn path_of(r: Option<String>) -> Option<Seq<char>> {
    match r {
        Some(s) => Some(s@),
        None => None,
    }
}

proof fn lemma_candidate_index(d: int, c: int)
    requires
        0 <= d,
        0 <= c < 9,
    ensures
        (d * 9 + c) / 9 == d,
        (d * 9 + c) % 9 == c,
        (d * 9 + c) % 3 == c % 3,
{
    assert((d * 9 + c) / 9 == d && (d * 9 + c) % 9 == c && (d * 9 + c) % 3 == c % 3)
        by (nonlinear_arith)
        requires
            0 <= d,
            0 <= c < 9,
    ;
}

proof fn lemma_first_exact_skip(
    t: Theme,
    icon: Seq<char>,
    size: int,
    scale: int,
    files: Set<Seq<char>>,
    k: int,
    m: int,
)
    requires
        0 <= k <= m,
        forall|j: int| k <= j < m ==> !is_exact_candidate(t, icon, size, scale, files, j),
    ensures
        first_exact(t, icon, size, scale, files, k) == first_exact(t, icon, size, scale, files, m),
    decreases m - k,
{
    if k < m {
        lemma_first_exact_skip(t, icon, size, scale, files, k + 1, m);
    }
}

spec fn best_view(b: Option<(String, i64)>) -> Option<(Seq<char>, int)> {
    match b {
        Some(x) => Some((x.0@, x.1 as int)),
        None => None,
    }
}

/// Looks `icon_name` up in `theme` alone: first an exact match, in the order
/// directories, base directories, extensions; failing that, the existing
/// candidate nearest in size.
pub fn lookup_icon(icon_name: &str, size: i16, scale: i16, theme: &Theme, files: &FileIndex) -> (r: Option<String>)
    ensures
        path_of(r) == lookup_in_theme(*theme, icon_name@, size as int, scale as int, files@),
{
    let ghost t = *theme;
    let ghost icon = icon_name@;
    let n = theme.directories.len();
    let mut d: usize = 0;
    while d < n
        invariant
            t == *theme,
            icon == icon_name@,
            n == theme.directories.len(),
            d <= n,
            forall|j: int| 0 <= j < d * 9 ==> !is_exact_candidate(t, icon, size as int, scale as int, files@, j),
        decreases n - d,
    {
        let dir = &theme.directories[d];
        if directory_matches_size(dir, size, scale) {
            let mut c: usize = 0;
            while c < 9
                invariant
                    t == *theme,
                    icon == icon_name@,
                    n == theme.directories.len(),
                    d < n,
                    *dir == theme.directories@[d as int],
                    matches_size(*dir, size as int, scale as int),
                    c <= 9,
                    forall|j: int| 0 <= j < d * 9 + c ==> !is_exact_candidate(t, icon, size as int, scale as int, files@, j),
                decreases 9 - c,
            {
                let path = build_themed_path(
                    base_directory(c / 3),
                    theme.name.as_str(),
                    dir.name.as_str(),
                    icon_name,
                    allowed_extension(c % 3),
                );
                proof {
                    lemma_candidate_index(d as int, c as int);
                }
                assert(path@ == candidate_path(t, icon, d * 9 + c));
                if files.path_exists(&path) {
                    proof {
                        lemma_first_exact_skip(t, icon, size as int, scale as int, files@, 0, d * 9 + c);
                        assert(candidate_directory(t, d * 9 + c) == *dir);
                        assert(is_exact_candidate(t, icon, size as int, scale as int, files@, d * 9 + c));
                    }
                    return Some(path);
                }
                c += 1;
            }
        } else {
            assert forall|j: int| 0 <= j < d * 9 + 9 implies !is_exact_candidate(t, icon, size as int, scale as int, files@, j) by {
                if j >= d * 9 {
                    lemma_candidate_index(d as int, j - d * 9);
                }
            }
        }
        d += 1;
    }
    proof {
        lemma_first_exact_skip(t, icon, size as int, scale as int, files@, 0, n * 9);
    }
    let mut best: Option<(String, i64)> = None;
    let mut d: usize = 0;
    while d < n
        invariant
            t == *theme,
            icon == icon_name@,
            n == theme.directories.len(),
            d <= n,
            best_view(best) == closest_among(t, icon, size as int, scale as int, files@, d * 9),
        decreases n - d,
    {
        let dir = &theme.directories[d];
        let dist = directory_size_distance(dir, size, scale);
        let mut c: usize = 0;
        while c < 9
            invariant
                t == *theme,
                icon == icon_name@,
                n == theme.directories.len(),
                d < n,
                *dir == theme.directories@[d as int],
                dist == size_distance(*dir, size as int, scale as int),
                c <= 9,
                best_view(best) == closest_among(t, icon, size as int, scale as int, files@, d * 9 + c),
            decreases 9 - c,
        {
            let path = build_themed_path(
                base_directory(c / 3),
                theme.name.as_str(),
                dir.name.as_str(),
                icon_name,
                allowed_extension(c % 3),
            );
            proof {
                lemma_candidate_index(d as int, c as int);
            }
            assert(path@ == candidate_path(t, icon, d * 9 + c));
            let nearer = match &best {
                Some(b) => dist < b.1,
                None => true,
            };
            if nearer && files.path_exists(&path) {
                best = Some((path, dist));
            }
            c += 1;
        }
        d += 1;
    }
    match best {
        Some(b) => Some(b.0),
        None => None,
    }
}

/// Looks `icon_name` up outside any theme, directly under the base
/// directories: the first existing candidate.
pub fn lookup_fallback_icon(icon_name: &str, files: &FileIndex) -> (r: Option<String>)
    ensures
        path_of(r) == first_unthemed(icon_name@, files@, 0),
{
    let mut c: usize = 0;
    while c < 9
        invariant
            c <= 9,
            first_unthemed(icon_name@, files@, 0) == first_unthemed(icon_name@, files@, c as int),
        decreases 9 - c,
    {
        let path = build_unthemed_path(base_directory(c / 3), icon_name, allowed_extension(c % 3));
        if files.path_exists(&path) {
            return Some(path);
        }
        c += 1;
    }
    None
}

} // verus!
