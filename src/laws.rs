use vstd::prelude::*;

use crate::lookup::{
    best_icon,
    first_in_theme,
    resolve,
    resolve_best,
    resolve_best_parents,
    resolve_parents,
};
use crate::probe::{
    candidate_count,
    candidate_directory,
    candidate_path,
    closest_among,
    first_exact,
    is_exact_candidate,
    lookup_in_theme,
    path_of,
};
use crate::size::{
    abs,
    effective_max_size,
    effective_min_size,
    effective_scale,
    effective_threshold,
    matches_size,
    size_distance,
};
use crate::theme::{Theme, ThemeDirectory, ThemeDirectoryType};

verus! {

pub open spec fn min(a: int, b: int) -> int {
    if a <= b {
        a
    } else {
        b
    }
}

/// A fixed directory serves exactly its own size at its own scale, and its
/// distance is the absolute difference of the two sizes in device pixels.
pub proof fn lemma_fixed_directory(d: ThemeDirectory, size: int, scale: int)
    requires
        d.directory_type == ThemeDirectoryType::Fixed,
    ensures
        matches_size(d, size, scale) <==> (size == d.size && scale == effective_scale(d)),
        size_distance(d, size, scale) == abs(d.size * effective_scale(d) - size * scale),
{
}

/// A scalable directory serves the sizes from its minimum to its maximum at
/// its own scale. Its distance is zero within that range, in device pixels,
/// and outside it the gap to the nearer bound.
pub proof fn lemma_scalable_directory(d: ThemeDirectory, size: int, scale: int)
    requires
        d.directory_type == ThemeDirectoryType::Scalable,
        effective_min_size(d) <= effective_max_size(d),
        effective_scale(d) >= 0,
    ensures
        matches_size(d, size, scale) <==> (effective_min_size(d) <= size <= effective_max_size(d) && scale
            == effective_scale(d)),
        ({
            let ds = effective_scale(d);
            let wanted = size * scale;
            let low = effective_min_size(d) * ds;
            let high = effective_max_size(d) * ds;
            &&& low <= wanted <= high ==> size_distance(d, size, scale) == 0
            &&& !(low <= wanted <= high) ==> size_distance(d, size, scale) == min(
                abs(wanted - low),
                abs(wanted - high),
            )
        }),
        matches_size(d, size, scale) ==> size_distance(d, size, scale) == 0,
{
    let ds = effective_scale(d);
    assert(effective_min_size(d) * ds <= effective_max_size(d) * ds) by (nonlinear_arith)
        requires
            effective_min_size(d) <= effective_max_size(d),
            ds >= 0,
    ;
    if matches_size(d, size, scale) {
        assert(effective_min_size(d) * ds <= size * ds <= effective_max_size(d) * ds) by (nonlinear_arith)
            requires
                effective_min_size(d) <= size <= effective_max_size(d),
                ds >= 0,
        ;
    }
}

/// A threshold directory serves the sizes within its threshold of its own
/// size, at its own scale. Its distance is zero within that band, in device
/// pixels, and outside it the gap to the directory's own size, not to the
/// edge of the band.
pub proof fn lemma_threshold_directory(d: ThemeDirectory, size: int, scale: int)
    requires
        d.directory_type == ThemeDirectoryType::Threshold,
        effective_threshold(d) >= 0,
        effective_scale(d) >= 0,
    ensures
        matches_size(d, size, scale) <==> (d.size - effective_threshold(d) <= size <= d.size
            + effective_threshold(d) && scale == effective_scale(d)),
        ({
            let ds = effective_scale(d);
            let wanted = size * scale;
            let low = (d.size - effective_threshold(d)) * ds;
            let high = (d.size + effective_threshold(d)) * ds;
            &&& low <= wanted <= high ==> size_distance(d, size, scale) == 0
            &&& !(low <= wanted <= high) ==> size_distance(d, size, scale) == abs(wanted - d.size * ds)
        }),
        matches_size(d, size, scale) ==> size_distance(d, size, scale) == 0,
{
    let ds = effective_scale(d);
    let t = effective_threshold(d);
    assert((d.size - t) * ds <= d.size * ds <= (d.size + t) * ds) by (nonlinear_arith)
        requires
            t >= 0,
            ds >= 0,
    ;
    if matches_size(d, size, scale) {
        assert((d.size - t) * ds <= size * ds <= (d.size + t) * ds) by (nonlinear_arith)
            requires
                d.size - t <= size <= d.size + t,
                ds >= 0,
        ;
    }
}

proof fn lemma_first_exact_found(
    t: Theme,
    icon: Seq<char>,
    size: int,
    scale: int,
    files: Set<Seq<char>>,
    k: int,
    m: int,
)
    requires
        0 <= k <= m < candidate_count(t),
        is_exact_candidate(t, icon, size, scale, files, m),
    ensures
        exists|e: int|
            k <= e <= m && is_exact_candidate(t, icon, size, scale, files, e) && first_exact(
                t,
                icon,
                size,
                scale,
                files,
                k,
            ) == Some(candidate_path(t, icon, e)) && forall|j: int|
                k <= j < e ==> !is_exact_candidate(t, icon, size, scale, files, j),
    decreases m - k,
{
    if is_exact_candidate(t, icon, size, scale, files, k) {
        assert(k <= k <= m);
    } else {
        lemma_first_exact_found(t, icon, size, scale, files, k + 1, m);
        let e = choose|e: int|
            k + 1 <= e <= m && is_exact_candidate(t, icon, size, scale, files, e) && first_exact(
                t,
                icon,
                size,
                scale,
                files,
                k + 1,
            ) == Some(candidate_path(t, icon, e)) && forall|j: int|
                k + 1 <= j < e ==> !is_exact_candidate(t, icon, size, scale, files, j);
        assert(forall|j: int| k <= j < e ==> !is_exact_candidate(t, icon, size, scale, files, j));
    }
}

proof fn lemma_first_exact_none(
    t: Theme,
    icon: Seq<char>,
    size: int,
    scale: int,
    files: Set<Seq<char>>,
    k: int,
)
    requires
        0 <= k,
        forall|j: int| k <= j < candidate_count(t) ==> !is_exact_candidate(t, icon, size, scale, files, j),
    ensures
        first_exact(t, icon, size, scale, files, k) is None,
    decreases candidate_count(t) - k,
{
    if k < candidate_count(t) {
        lemma_first_exact_none(t, icon, size, scale, files, k + 1);
    }
}

proof fn lemma_closest_is_nearest(
    t: Theme,
    icon: Seq<char>,
    size: int,
    scale: int,
    files: Set<Seq<char>>,
    k: int,
)
    requires
        0 <= k,
    ensures
        match closest_among(t, icon, size, scale, files, k) {
            Some(c) => exists|e: int|
                0 <= e < k && files.contains(candidate_path(t, icon, e)) && c.0 == candidate_path(t, icon, e)
                    && c.1 == size_distance(candidate_directory(t, e), size, scale) && forall|j: int|
                    0 <= j < k && files.contains(#[trigger] candidate_path(t, icon, j)) ==> c.1 <= size_distance(
                        candidate_directory(t, j),
                        size,
                        scale,
                    ),
            None => forall|j: int| 0 <= j < k ==> !files.contains(#[trigger] candidate_path(t, icon, j)),
        },
    decreases k,
{
    if k > 0 {
        lemma_closest_is_nearest(t, icon, size, scale, files, k - 1);
    }
}

/// Within one theme an exact match always wins: when some existing candidate
/// lies in a directory that serves the size as it is, the lookup returns the
/// first such candidate, however near in size other candidates are. Only
/// when there is none does it return the existing candidate nearest in size
/// (the first of equally near ones), and nothing when no candidate exists.
pub proof fn lemma_exact_before_closest(
    t: Theme,
    icon: Seq<char>,
    size: int,
    scale: int,
    files: Set<Seq<char>>,
)
    ensures
        (exists|k: int| 0 <= k < candidate_count(t) && is_exact_candidate(t, icon, size, scale, files, k))
            ==> exists|k: int|
            0 <= k < candidate_count(t) && is_exact_candidate(t, icon, size, scale, files, k)
                && matches_size(candidate_directory(t, k), size, scale) && lookup_in_theme(
                t,
                icon,
                size,
                scale,
                files,
            ) == Some(candidate_path(t, icon, k)) && forall|j: int|
                0 <= j < k ==> !is_exact_candidate(t, icon, size, scale, files, j),
        (forall|k: int| 0 <= k < candidate_count(t) ==> !is_exact_candidate(t, icon, size, scale, files, k))
            ==> match lookup_in_theme(t, icon, size, scale, files) {
            Some(p) => exists|e: int|
                0 <= e < candidate_count(t) && files.contains(candidate_path(t, icon, e)) && p
                    == candidate_path(t, icon, e) && forall|j: int|
                    0 <= j < candidate_count(t) && files.contains(#[trigger] candidate_path(t, icon, j))
                        ==> size_distance(candidate_directory(t, e), size, scale) <= size_distance(
                        candidate_directory(t, j),
                        size,
                        scale,
                    ),
            None => forall|j: int|
                0 <= j < candidate_count(t) ==> !files.contains(#[trigger] candidate_path(t, icon, j)),
        },
{
    if exists|k: int| 0 <= k < candidate_count(t) && is_exact_candidate(t, icon, size, scale, files, k) {
        let m = choose|k: int| 0 <= k < candidate_count(t) && is_exact_candidate(t, icon, size, scale, files, k);
        lemma_first_exact_found(t, icon, size, scale, files, 0, m);
    } else {
        lemma_first_exact_none(t, icon, size, scale, files, 0);
        lemma_closest_is_nearest(t, icon, size, scale, files, candidate_count(t));
    }
}

/// The themes of the tree under `t` in pre-order: `t`, then the tree of
/// each parent in turn.
pub open spec fn preorder(t: Theme) -> Seq<Theme>
    decreases t, t.inherits.len() + 1,
{
    seq![t] + preorder_parents(t, 0)
}

/// The trees of the parents of `t` from the `i`-th on, each in pre-order.
pub open spec fn preorder_parents(t: Theme, i: int) -> Seq<Theme>
    decreases t, t.inherits.len() - i,
{
    if i < 0 || i >= t.inherits.len() {
        Seq::empty()
    } else {
        preorder(t.inherits@[i]) + preorder_parents(t, i + 1)
    }
}

/// What the lookup in the first theme of `ts` that finds anything finds.
pub open spec fn first_found(
    ts: Seq<Theme>,
    icon: Seq<char>,
    size: int,
    scale: int,
    files: Set<Seq<char>>,
) -> Option<Seq<char>>
    decreases ts.len(),
{
    if ts.len() == 0 {
        None
    } else {
        match lookup_in_theme(ts[0], icon, size, scale, files) {
            Some(p) => Some(p),
            None => first_found(ts.drop_first(), icon, size, scale, files),
        }
    }
}

proof fn lemma_first_found_concat(
    a: Seq<Theme>,
    b: Seq<Theme>,
    icon: Seq<char>,
    size: int,
    scale: int,
    files: Set<Seq<char>>,
)
    ensures
        first_found(a + b, icon, size, scale, files) == match first_found(a, icon, size, scale, files) {
            Some(p) => Some(p),
            None => first_found(b, icon, size, scale, files),
        },
    decreases a.len(),
{
    if a.len() == 0 {
        assert(a + b =~= b);
    } else {
        assert((a + b).drop_first() =~= a.drop_first() + b);
        lemma_first_found_concat(a.drop_first(), b, icon, size, scale, files);
    }
}

proof fn lemma_first_found_is_first(
    ts: Seq<Theme>,
    icon: Seq<char>,
    size: int,
    scale: int,
    files: Set<Seq<char>>,
)
    ensures
        match first_found(ts, icon, size, scale, files) {
            Some(p) => exists|i: int|
                0 <= i < ts.len() && lookup_in_theme(ts[i], icon, size, scale, files) == Some(p) && forall|
                    j: int,
                | 0 <= j < i ==> lookup_in_theme(#[trigger] ts[j], icon, size, scale, files) is None,
            None => forall|j: int| 0 <= j < ts.len() ==> lookup_in_theme(#[trigger] ts[j], icon, size, scale, files) is None,
        },
    decreases ts.len(),
{
    if ts.len() > 0 {
        let rest = ts.drop_first();
        lemma_first_found_is_first(rest, icon, size, scale, files);
        assert(forall|j: int| 0 <= j < rest.len() ==> rest[j] == ts[j + 1]);
        if lookup_in_theme(ts[0], icon, size, scale, files) is None {
            match first_found(rest, icon, size, scale, files) {
                Some(p) => {
                    let i = choose|i: int|
                        0 <= i < rest.len() && lookup_in_theme(rest[i], icon, size, scale, files) == Some(p)
                            && forall|j: int|
                            0 <= j < i ==> lookup_in_theme(#[trigger] rest[j], icon, size, scale, files) is None;
                    assert(lookup_in_theme(ts[i + 1], icon, size, scale, files) == Some(p));
                    assert forall|j: int| 0 <= j < i + 1 implies lookup_in_theme(
                        #[trigger] ts[j],
                        icon,
                        size,
                        scale,
                        files,
                    ) is None by {
                        if j > 0 {
                            assert(ts[j] == rest[j - 1]);
                        }
                    }
                },
                None => {
                    assert forall|j: int| 0 <= j < ts.len() implies lookup_in_theme(
                        #[trigger] ts[j],
                        icon,
                        size,
                        scale,
                        files,
                    ) is None by {
                        if j > 0 {
                            assert(ts[j] == rest[j - 1]);
                        }
                    }
                },
            }
        }
    }
}

proof fn lemma_resolve_preorder(t: Theme, icon: Seq<char>, size: int, scale: int, files: Set<Seq<char>>)
    ensures
        resolve(t, icon, size, scale, files) == first_found(preorder(t), icon, size, scale, files),
    decreases t, t.inherits.len() + 1,
{
    lemma_resolve_parents_preorder(t, icon, size, scale, files, 0);
    lemma_first_found_concat(seq![t], preorder_parents(t, 0), icon, size, scale, files);
    assert(seq![t][0] == t);
    assert(seq![t].drop_first() =~= Seq::<Theme>::empty());
    assert(first_found(Seq::<Theme>::empty(), icon, size, scale, files) is None);
}

proof fn lemma_resolve_parents_preorder(
    t: Theme,
    icon: Seq<char>,
    size: int,
    scale: int,
    files: Set<Seq<char>>,
    i: int,
)
    ensures
        resolve_parents(t, icon, size, scale, files, i) == first_found(
            preorder_parents(t, i),
            icon,
            size,
            scale,
            files,
        ),
    decreases t, t.inherits.len() - i,
{
    if 0 <= i < t.inherits.len() {
        lemma_resolve_preorder(t.inherits@[i], icon, size, scale, files);
        lemma_resolve_parents_preorder(t, icon, size, scale, files, i + 1);
        lemma_first_found_concat(preorder(t.inherits@[i]), preorder_parents(t, i + 1), icon, size, scale, files);
    }
}

/// Resolving goes through the themes in pre-order (the theme itself, then
/// each parent's tree in turn) and returns what the first theme that finds
/// anything finds, exact or not: it never weighs one theme's result against
/// another's. It finds nothing only when no theme of the tree does.
pub proof fn lemma_resolve_stops_at_first_theme(
    t: Theme,
    icon: Seq<char>,
    size: int,
    scale: int,
    files: Set<Seq<char>>,
)
    ensures
        resolve(t, icon, size, scale, files) == first_found(preorder(t), icon, size, scale, files),
        match resolve(t, icon, size, scale, files) {
            Some(p) => exists|i: int|
                0 <= i < preorder(t).len() && lookup_in_theme(preorder(t)[i], icon, size, scale, files)
                    == Some(p) && forall|j: int|
                    0 <= j < i ==> lookup_in_theme(#[trigger] preorder(t)[j], icon, size, scale, files) is None,
            None => forall|j: int|
                0 <= j < preorder(t).len() ==> lookup_in_theme(#[trigger] preorder(t)[j], icon, size, scale, files)
                    is None,
        },
{
    lemma_resolve_preorder(t, icon, size, scale, files);
    lemma_first_found_is_first(preorder(t), icon, size, scale, files);
}

proof fn lemma_first_in_theme_found(
    t: Theme,
    icons: Seq<Seq<char>>,
    size: int,
    scale: int,
    files: Set<Seq<char>>,
    k: int,
    m: int,
)
    requires
        0 <= k <= m < icons.len(),
        lookup_in_theme(t, icons[m], size, scale, files) is Some,
    ensures
        exists|e: int|
            k <= e <= m && lookup_in_theme(t, icons[e], size, scale, files) is Some && first_in_theme(
                t,
                icons,
                size,
                scale,
                files,
                k,
            ) == lookup_in_theme(t, icons[e], size, scale, files) && forall|j: int|
                k <= j < e ==> lookup_in_theme(t, #[trigger] icons[j], size, scale, files) is None,
    decreases m - k,
{
    if lookup_in_theme(t, icons[k], size, scale, files) is Some {
        assert(k <= k <= m);
    } else {
        lemma_first_in_theme_found(t, icons, size, scale, files, k + 1, m);
        let e = choose|e: int|
            k + 1 <= e <= m && lookup_in_theme(t, icons[e], size, scale, files) is Some && first_in_theme(
                t,
                icons,
                size,
                scale,
                files,
                k + 1,
            ) == lookup_in_theme(t, icons[e], size, scale, files) && forall|j: int|
                k + 1 <= j < e ==> lookup_in_theme(t, #[trigger] icons[j], size, scale, files) is None;
        assert(forall|j: int| k <= j < e ==> lookup_in_theme(t, #[trigger] icons[j], size, scale, files) is None);
    }
}

proof fn lemma_first_in_theme_none(
    t: Theme,
    icons: Seq<Seq<char>>,
    size: int,
    scale: int,
    files: Set<Seq<char>>,
    k: int,
)
    requires
        0 <= k,
        forall|j: int| k <= j < icons.len() ==> lookup_in_theme(t, #[trigger] icons[j], size, scale, files) is None,
    ensures
        first_in_theme(t, icons, size, scale, files, k) is None,
    decreases icons.len() - k,
{
    if k < icons.len() {
        lemma_first_in_theme_none(t, icons, size, scale, files, k + 1);
    }
}

/// Looking for the best of several names, every name is tried in a theme
/// before any of its parents: when the theme itself has any of the names,
/// the result is what it has for the first such name, whatever the parents
/// hold. The parents are searched only when the theme has none of them.
pub proof fn lemma_names_before_parents(
    t: Theme,
    icons: Seq<Seq<char>>,
    size: int,
    scale: int,
    files: Set<Seq<char>>,
)
    ensures
        (exists|j: int| 0 <= j < icons.len() && lookup_in_theme(t, icons[j], size, scale, files) is Some)
            ==> exists|j: int|
            0 <= j < icons.len() && lookup_in_theme(t, icons[j], size, scale, files) is Some && resolve_best(
                t,
                icons,
                size,
                scale,
                files,
            ) == lookup_in_theme(t, icons[j], size, scale, files) && forall|i: int|
                0 <= i < j ==> lookup_in_theme(t, #[trigger] icons[i], size, scale, files) is None,
        (forall|j: int| 0 <= j < icons.len() ==> lookup_in_theme(t, #[trigger] icons[j], size, scale, files) is None)
            ==> resolve_best(t, icons, size, scale, files) == resolve_best_parents(t, icons, size, scale, files, 0),
{
    if exists|j: int| 0 <= j < icons.len() && lookup_in_theme(t, icons[j], size, scale, files) is Some {
        let m = choose|j: int| 0 <= j < icons.len() && lookup_in_theme(t, icons[j], size, scale, files) is Some;
        lemma_first_in_theme_found(t, icons, size, scale, files, 0, m);
    } else {
        lemma_first_in_theme_none(t, icons, size, scale, files, 0);
    }
}

proof fn lemma_resolve_parents_first(
    t: Theme,
    icon: Seq<char>,
    size: int,
    scale: int,
    files: Set<Seq<char>>,
    k: int,
)
    requires
        0 <= k <= t.inherits.len(),
    ensures
        match resolve_parents(t, icon, size, scale, files, k) {
            Some(p) => exists|i: int|
                k <= i < t.inherits.len() && resolve(t.inherits@[i], icon, size, scale, files) == Some(p)
                    && forall|j: int|
                    k <= j < i ==> resolve(#[trigger] t.inherits@[j], icon, size, scale, files) is None,
            None => forall|j: int|
                k <= j < t.inherits.len() ==> resolve(#[trigger] t.inherits@[j], icon, size, scale, files) is None,
        },
    decreases t.inherits.len() - k,
{
    if k < t.inherits.len() {
        lemma_resolve_parents_first(t, icon, size, scale, files, k + 1);
    }
}

/// One step of resolving: when the theme's own lookup finds anything, that
/// is the result and no parent is searched. Otherwise the result is that
/// of the first parent, in declared order, whose tree finds anything (later
/// parents are not consulted), or nothing when no parent's tree does.
pub proof fn lemma_resolve_own_theme_then_parents(
    t: Theme,
    icon: Seq<char>,
    size: int,
    scale: int,
    files: Set<Seq<char>>,
)
    ensures
        lookup_in_theme(t, icon, size, scale, files) is Some ==> resolve(t, icon, size, scale, files)
            == lookup_in_theme(t, icon, size, scale, files),
        lookup_in_theme(t, icon, size, scale, files) is None ==> match resolve(t, icon, size, scale, files) {
            Some(p) => exists|i: int|
                0 <= i < t.inherits.len() && resolve(t.inherits@[i], icon, size, scale, files) == Some(p)
                    && forall|j: int|
                    0 <= j < i ==> resolve(#[trigger] t.inherits@[j], icon, size, scale, files) is None,
            None => forall|j: int|
                0 <= j < t.inherits.len() ==> resolve(#[trigger] t.inherits@[j], icon, size, scale, files) is None,
        },
{
    lemma_resolve_parents_first(t, icon, size, scale, files, 0);
}

proof fn lemma_resolve_best_parents_first(
    t: Theme,
    icons: Seq<Seq<char>>,
    size: int,
    scale: int,
    files: Set<Seq<char>>,
    k: int,
)
    requires
        0 <= k <= t.inherits.len(),
    ensures
        match resolve_best_parents(t, icons, size, scale, files, k) {
            Some(p) => exists|i: int|
                k <= i < t.inherits.len() && resolve_best(t.inherits@[i], icons, size, scale, files) == Some(p)
                    && forall|j: int|
                    k <= j < i ==> resolve_best(#[trigger] t.inherits@[j], icons, size, scale, files) is None,
            None => forall|j: int|
                k <= j < t.inherits.len() ==> resolve_best(#[trigger] t.inherits@[j], icons, size, scale, files)
                    is None,
        },
    decreases t.inherits.len() - k,
{
    if k < t.inherits.len() {
        lemma_resolve_best_parents_first(t, icons, size, scale, files, k + 1);
    }
}

/// When a theme has none of the names, looking for the best of them goes to
/// the parents in declared order and returns what the first parent's tree
/// finds, or nothing when no parent's tree finds any of the names.
pub proof fn lemma_best_parents_in_order(
    t: Theme,
    icons: Seq<Seq<char>>,
    size: int,
    scale: int,
    files: Set<Seq<char>>,
)
    requires
        forall|j: int| 0 <= j < icons.len() ==> lookup_in_theme(t, #[trigger] icons[j], size, scale, files) is None,
    ensures
        match resolve_best(t, icons, size, scale, files) {
            Some(p) => exists|i: int|
                0 <= i < t.inherits.len() && resolve_best(t.inherits@[i], icons, size, scale, files) == Some(p)
                    && forall|j: int|
                    0 <= j < i ==> resolve_best(#[trigger] t.inherits@[j], icons, size, scale, files) is None,
            None => forall|j: int|
                0 <= j < t.inherits.len() ==> resolve_best(#[trigger] t.inherits@[j], icons, size, scale, files)
                    is None,
        },
{
    lemma_names_before_parents(t, icons, size, scale, files);
    lemma_resolve_best_parents_first(t, icons, size, scale, files, 0);
}

/// Lookups are repeatable: results that `find_icon` gives for the same
/// name, size, scale and theme over the same files are the same path, and
/// so are results that `find_best_icon` gives for the same names.
pub proof fn lemma_lookups_repeatable(
    t: Theme,
    icon: Seq<char>,
    icons: Seq<Seq<char>>,
    size: int,
    scale: int,
    files: Set<Seq<char>>,
    first: Option<String>,
    second: Option<String>,
    first_best: Option<String>,
    second_best: Option<String>,
)
    requires
        path_of(first) == resolve(t, icon, size, scale, files),
        path_of(second) == resolve(t, icon, size, scale, files),
        path_of(first_best) == best_icon(t, icons, size, scale, files),
        path_of(second_best) == best_icon(t, icons, size, scale, files),
    ensures
        path_of(first) == path_of(second),
        path_of(first_best) == path_of(second_best),
{
}

} // verus!
