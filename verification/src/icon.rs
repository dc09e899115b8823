//! Looking an icon up inside one theme, and among the un-themed icons.
//!
//! Which files exist is not known to this module: a lookup first lists the
//! files it may probe, the caller finds out which of them are files, and the
//! lookup then decides from those answers.
use vstd::prelude::*;
use crate::lookup::{first_theme_dir, look_for_theme_directory};
use crate::path::{joined, path_join, views};
use crate::size::{
    directory_matches_size, directory_size_distance, distance_fits, match_fits, size_distance,
    size_distance_fits, size_match_fits, size_matches,
};
use crate::theme::{DirList, Directory, DirectoryType, IconTheme};

verus! {

/// The icon file extensions, in the order they are tried.
pub open spec fn extensions() -> Seq<Seq<char>> {
    seq![seq!['.', 'p', 'n', 'g'], seq!['.', 's', 'v', 'g'], seq!['.', 'x', 'p', 'm']]
}

/// The icon files named `icon` in directory `base`, one per extension.
pub open spec fn ext_paths(base: Seq<char>, icon: Seq<char>) -> Seq<Seq<char>> {
    seq![
        joined(base, icon + extensions()[0]),
        joined(base, icon + extensions()[1]),
        joined(base, icon + extensions()[2]),
    ]
}

/// The name of a theme sub-directory (empty where it has none).
pub open spec fn subdir_name(d: Directory) -> Seq<char> {
    match d.name {
        Some(n) => n@,
        None => Seq::<char>::empty(),
    }
}

/// The files of the exact-size search: for each sub-directory that suits the
/// wanted size, in order, the icon files in it under the theme directory `dir`.
pub open spec fn exact_probes(
    subdirs: Seq<Directory>,
    dir: Seq<char>,
    icon: Seq<char>,
    size: int,
    scale: int,
) -> Seq<Seq<char>>
    decreases subdirs.len(),
{
    if subdirs.len() == 0 {
        Seq::<Seq<char>>::empty()
    } else {
        exact_probes(subdirs.drop_last(), dir, icon, size, scale) + (if size_matches(
            subdirs.last(),
            size,
            scale,
        ) {
            ext_paths(joined(dir, subdir_name(subdirs.last())), icon)
        } else {
            Seq::<Seq<char>>::empty()
        })
    }
}

/// The icon files named `icon` in sub-directory `sub` of theme `theme_name`
/// under each of `icon_dirs`, in order.
pub open spec fn near_group(
    icon_dirs: Seq<Seq<char>>,
    theme_name: Seq<char>,
    sub: Seq<char>,
    icon: Seq<char>,
) -> Seq<Seq<char>>
    decreases icon_dirs.len(),
{
    if icon_dirs.len() == 0 {
        Seq::<Seq<char>>::empty()
    } else {
        near_group(icon_dirs.drop_last(), theme_name, sub, icon) + ext_paths(
            joined(joined(icon_dirs.last(), theme_name), sub),
            icon,
        )
    }
}

/// The files of the nearest-size search, each with the index of its
/// sub-directory: for each sub-directory in order, its icon files under each
/// icon directory.
pub open spec fn near_probes(
    subdirs: Seq<Directory>,
    icon_dirs: Seq<Seq<char>>,
    theme_name: Seq<char>,
    icon: Seq<char>,
) -> Seq<(Seq<char>, int)>
    decreases subdirs.len(),
{
    if subdirs.len() == 0 {
        Seq::<(Seq<char>, int)>::empty()
    } else {
        let k = subdirs.len() - 1;
        near_probes(subdirs.drop_last(), icon_dirs, theme_name, icon) + near_group(
            icon_dirs,
            theme_name,
            subdir_name(subdirs.last()),
            icon,
        ).map_values(|p: Seq<char>| (p, k))
    }
}

/// The icon files named `icon` directly under each of `icon_dirs`, in order.
pub open spec fn fallback_probes(icon_dirs: Seq<Seq<char>>, icon: Seq<char>) -> Seq<Seq<char>>
    decreases icon_dirs.len(),
{
    if icon_dirs.len() == 0 {
        Seq::<Seq<char>>::empty()
    } else {
        fallback_probes(icon_dirs.drop_last(), icon) + ext_paths(icon_dirs.last(), icon)
    }
}

/// Whether the `i`th probe was found to be a file (probes past the answers were not).
pub open spec fn answer(found: Seq<bool>, i: int) -> bool {
    0 <= i < found.len() && found[i]
}

/// The first of the first `n` probes that was found to be a file.
pub open spec fn first_answer(found: Seq<bool>, n: int) -> Option<int>
    decreases n,
{
    if n <= 0 {
        None
    } else {
        match first_answer(found, n - 1) {
            Some(i) => Some(i),
            None => if answer(found, n - 1) {
                Some(n - 1)
            } else {
                None
            },
        }
    }
}

/// The nearest icon among the first `m` probes of the nearest-size search that
/// were found to be files, with its distance: each found file replaces the one
/// so far when its sub-directory is strictly nearer. Before any, the empty path
/// at distance `i32::MAX`.
pub open spec fn nearest(
    probes: Seq<(Seq<char>, int)>,
    found: Seq<bool>,
    subdirs: Seq<Directory>,
    size: int,
    scale: int,
    m: int,
) -> (Seq<char>, int)
    decreases m,
{
    if m <= 0 {
        (Seq::<char>::empty(), i32::MAX as int)
    } else {
        let prev = nearest(probes, found, subdirs, size, scale, m - 1);
        let dist = size_distance(subdirs[probes[m - 1].1], size, scale);
        if answer(found, m - 1) && dist < prev.1 {
            (probes[m - 1].0, dist)
        } else {
            prev
        }
    }
}

/// The theme directory that the exact-size search looks in: the directory of
/// the theme's name, or the empty path when there is none.
pub open spec fn theme_dir_of(theme: IconTheme, dirs: Seq<DirList>) -> Seq<char> {
    match first_theme_dir(dirs, theme.name->0@) {
        Some(d) => d,
        None => Seq::<char>::empty(),
    }
}

/// The sub-directories of a theme that has them.
pub open spec fn subdirs_of(theme: IconTheme) -> Seq<Directory> {
    theme.directories->0@
}

/// The exact-size probes of a lookup.
pub open spec fn exact_of(
    theme: IconTheme,
    dirs: Seq<DirList>,
    icon: Seq<char>,
    size: int,
    scale: int,
) -> Seq<Seq<char>> {
    exact_probes(subdirs_of(theme), theme_dir_of(theme, dirs), icon, size, scale)
}

/// The nearest-size probes of a lookup.
pub open spec fn near_of(
    theme: IconTheme,
    icon_dirs: Seq<Seq<char>>,
    icon: Seq<char>,
) -> Seq<(Seq<char>, int)> {
    near_probes(subdirs_of(theme), icon_dirs, theme.name->0@, icon)
}

/// The exact-size search found a file, given whether the theme directory
/// exists and which of its probes are files.
pub open spec fn exact_hit(dir_exists: bool, exact_found: Seq<bool>, n: int) -> bool {
    dir_exists && first_answer(exact_found, n) is Some
}

/// The result of looking `icon` up in `theme`. A theme without sub-directories
/// has nothing. Otherwise, where the theme directory exists and one of the
/// exact-size probes is a file, the first such; else the nearest of the
/// nearest-size probes that are files, and nothing when none is (the search
/// then goes on in the next theme).
pub open spec fn icon_lookup(
    icon: Seq<char>,
    size: int,
    scale: int,
    theme: IconTheme,
    dirs: Seq<DirList>,
    icon_dirs: Seq<Seq<char>>,
    dir_exists: bool,
    exact_found: Seq<bool>,
    near_found: Seq<bool>,
) -> Option<Seq<char>> {
    if theme.directories is None {
        None
    } else {
        let exact = exact_of(theme, dirs, icon, size, scale);
        if exact_hit(dir_exists, exact_found, exact.len() as int) {
            Some(exact[first_answer(exact_found, exact.len() as int)->0])
        } else {
            let near = near_of(theme, icon_dirs, icon);
            let best = nearest(near, near_found, subdirs_of(theme), size, scale, near.len() as int);
            if best.1 < i32::MAX {
                Some(best.0)
            } else {
                None
            }
        }
    }
}

/// The lookup can be carried out without a panic: the theme has a name, every
/// sub-directory that the search reaches has a name, the size test of each
/// sub-directory it tests fits `i32`, and so does the distance of each
/// sub-directory where a nearest-size probe is a file.
pub open spec fn lookup_defined(
    icon: Seq<char>,
    size: int,
    scale: int,
    theme: IconTheme,
    dirs: Seq<DirList>,
    icon_dirs: Seq<Seq<char>>,
    dir_exists: bool,
    exact_found: Seq<bool>,
    near_found: Seq<bool>,
) -> bool {
    theme.directories is Some ==> {
        let subdirs = subdirs_of(theme);
        let tdir = theme_dir_of(theme, dirs);
        let exact = exact_of(theme, dirs, icon, size, scale);
        let near = near_of(theme, icon_dirs, icon);
        &&& theme.name is Some
        &&& forall|k: int|
            0 <= k < subdirs.len() && !exact_hit(
                dir_exists,
                exact_found,
                #[trigger] exact_probes(subdirs.take(k), tdir, icon, size, scale).len() as int,
            ) ==> subdirs[k].name is Some && (dir_exists ==> size_match_fits(
                subdirs[k],
                size,
                scale,
            ))
        &&& !exact_hit(dir_exists, exact_found, exact.len() as int) ==> forall|i: int|
            0 <= i < near.len() && #[trigger] answer(near_found, i) ==> size_distance_fits(
                subdirs[near[i].1],
                size,
                scale,
            )
    }
}

proof fn lemma_exact_step(
    subdirs: Seq<Directory>,
    k: int,
    dir: Seq<char>,
    icon: Seq<char>,
    size: int,
    scale: int,
)
    requires
        0 <= k < subdirs.len(),
    ensures
        exact_probes(subdirs.take(k + 1), dir, icon, size, scale) == exact_probes(
            subdirs.take(k),
            dir,
            icon,
            size,
            scale,
        ) + (if size_matches(subdirs[k], size, scale) {
            ext_paths(joined(dir, subdir_name(subdirs[k])), icon)
        } else {
            Seq::<Seq<char>>::empty()
        }),
{
    assert(subdirs.take(k + 1).drop_last() =~= subdirs.take(k));
    assert(subdirs.take(k + 1).last() == subdirs[k]);
}

proof fn lemma_exact_prefix(
    subdirs: Seq<Directory>,
    j: int,
    m: int,
    dir: Seq<char>,
    icon: Seq<char>,
    size: int,
    scale: int,
)
    requires
        0 <= j <= m <= subdirs.len(),
    ensures
        exact_probes(subdirs.take(j), dir, icon, size, scale).len() <= exact_probes(
            subdirs.take(m),
            dir,
            icon,
            size,
            scale,
        ).len(),
        forall|i: int|
            0 <= i < exact_probes(subdirs.take(j), dir, icon, size, scale).len() ==> exact_probes(
                subdirs.take(m),
                dir,
                icon,
                size,
                scale,
            )[i] == exact_probes(subdirs.take(j), dir, icon, size, scale)[i],
    decreases m - j,
{
    if j < m {
        lemma_exact_prefix(subdirs, j, m - 1, dir, icon, size, scale);
        lemma_exact_step(subdirs, m - 1, dir, icon, size, scale);
    }
}

proof fn lemma_group_step(
    icon_dirs: Seq<Seq<char>>,
    d: int,
    theme_name: Seq<char>,
    sub: Seq<char>,
    icon: Seq<char>,
)
    requires
        0 <= d < icon_dirs.len(),
    ensures
        near_group(icon_dirs.take(d + 1), theme_name, sub, icon) == near_group(
            icon_dirs.take(d),
            theme_name,
            sub,
            icon,
        ) + ext_paths(joined(joined(icon_dirs[d], theme_name), sub), icon),
{
    assert(icon_dirs.take(d + 1).drop_last() =~= icon_dirs.take(d));
    assert(icon_dirs.take(d + 1).last() == icon_dirs[d]);
}

proof fn lemma_group_len(icon_dirs: Seq<Seq<char>>, theme_name: Seq<char>, sub: Seq<char>, icon: Seq<char>)
    ensures
        near_group(icon_dirs, theme_name, sub, icon).len() == 3 * icon_dirs.len(),
    decreases icon_dirs.len(),
{
    if icon_dirs.len() > 0 {
        lemma_group_len(icon_dirs.drop_last(), theme_name, sub, icon);
    }
}

proof fn lemma_group_prefix(
    icon_dirs: Seq<Seq<char>>,
    j: int,
    m: int,
    theme_name: Seq<char>,
    sub: Seq<char>,
    icon: Seq<char>,
)
    requires
        0 <= j <= m <= icon_dirs.len(),
    ensures
        near_group(icon_dirs.take(j), theme_name, sub, icon).len() <= near_group(
            icon_dirs.take(m),
            theme_name,
            sub,
            icon,
        ).len(),
        forall|i: int|
            0 <= i < near_group(icon_dirs.take(j), theme_name, sub, icon).len() ==> near_group(
                icon_dirs.take(m),
                theme_name,
                sub,
                icon,
            )[i] == near_group(icon_dirs.take(j), theme_name, sub, icon)[i],
    decreases m - j,
{
    if j < m {
        lemma_group_prefix(icon_dirs, j, m - 1, theme_name, sub, icon);
        lemma_group_step(icon_dirs, m - 1, theme_name, sub, icon);
    }
}

proof fn lemma_near_step(
    subdirs: Seq<Directory>,
    k: int,
    icon_dirs: Seq<Seq<char>>,
    theme_name: Seq<char>,
    icon: Seq<char>,
)
    requires
        0 <= k < subdirs.len(),
    ensures
        near_probes(subdirs.take(k + 1), icon_dirs, theme_name, icon) == near_probes(
            subdirs.take(k),
            icon_dirs,
            theme_name,
            icon,
        ) + near_group(icon_dirs, theme_name, subdir_name(subdirs[k]), icon).map_values(
            |p: Seq<char>| (p, k),
        ),
{
    assert(subdirs.take(k + 1).drop_last() =~= subdirs.take(k));
    assert(subdirs.take(k + 1).last() == subdirs[k]);
    assert(subdirs.take(k + 1).len() - 1 == k);
}

proof fn lemma_near_prefix(
    subdirs: Seq<Directory>,
    j: int,
    m: int,
    icon_dirs: Seq<Seq<char>>,
    theme_name: Seq<char>,
    icon: Seq<char>,
)
    requires
        0 <= j <= m <= subdirs.len(),
    ensures
        near_probes(subdirs.take(j), icon_dirs, theme_name, icon).len() <= near_probes(
            subdirs.take(m),
            icon_dirs,
            theme_name,
            icon,
        ).len(),
        forall|i: int|
            0 <= i < near_probes(subdirs.take(j), icon_dirs, theme_name, icon).len()
                ==> near_probes(subdirs.take(m), icon_dirs, theme_name, icon)[i] == near_probes(
                subdirs.take(j),
                icon_dirs,
                theme_name,
                icon,
            )[i],
    decreases m - j,
{
    if j < m {
        lemma_near_prefix(subdirs, j, m - 1, icon_dirs, theme_name, icon);
        lemma_near_step(subdirs, m - 1, icon_dirs, theme_name, icon);
    }
}

proof fn lemma_fallback_step(icon_dirs: Seq<Seq<char>>, d: int, icon: Seq<char>)
    requires
        0 <= d < icon_dirs.len(),
    ensures
        fallback_probes(icon_dirs.take(d + 1), icon) == fallback_probes(icon_dirs.take(d), icon)
            + ext_paths(icon_dirs[d], icon),
{
    assert(icon_dirs.take(d + 1).drop_last() =~= icon_dirs.take(d));
    assert(icon_dirs.take(d + 1).last() == icon_dirs[d]);
}

proof fn lemma_fallback_prefix(icon_dirs: Seq<Seq<char>>, j: int, m: int, icon: Seq<char>)
    requires
        0 <= j <= m <= icon_dirs.len(),
    ensures
        fallback_probes(icon_dirs.take(j), icon).len() <= fallback_probes(
            icon_dirs.take(m),
            icon,
        ).len(),
        forall|i: int|
            0 <= i < fallback_probes(icon_dirs.take(j), icon).len() ==> fallback_probes(
                icon_dirs.take(m),
                icon,
            )[i] == fallback_probes(icon_dirs.take(j), icon)[i],
    decreases m - j,
{
    if j < m {
        lemma_fallback_prefix(icon_dirs, j, m - 1, icon);
        lemma_fallback_step(icon_dirs, m - 1, icon);
    }
}

proof fn lemma_first_answer_mono(found: Seq<bool>, n: int, m: int)
    requires
        n <= m,
        first_answer(found, n) is Some,
    ensures
        first_answer(found, m) == first_answer(found, n),
    decreases m - n,
{
    if n < m {
        lemma_first_answer_mono(found, n, m - 1);
    }
}

proof fn lemma_first_answer_hit(found: Seq<bool>, n: int, m: int)
    requires
        0 <= n < m,
        first_answer(found, n) is None,
        answer(found, n),
    ensures
        first_answer(found, m) == Some(n),
{
    assert(first_answer(found, n + 1) == Some(n));
    lemma_first_answer_mono(found, n + 1, m);
}

proof fn lemma_first_answer_past_end(found: Seq<bool>, n: int, m: int)
    requires
        found.len() <= n <= m,
        first_answer(found, n) is None,
    ensures
        first_answer(found, m) is None,
    decreases m - n,
{
    if n < m {
        lemma_first_answer_past_end(found, n, m - 1);
    }
}

proof fn lemma_first_answer_none_below(found: Seq<bool>, n: int, m: int)
    requires
        n <= m,
        first_answer(found, m) is None,
    ensures
        first_answer(found, n) is None,
{
    if first_answer(found, n) is Some {
        lemma_first_answer_mono(found, n, m);
    }
}

/// The extension with index `e`.
fn extension(e: usize) -> (r: &'static str)
    requires
        e < 3,
    ensures
        r@ == extensions()[e as int],
{
    if e == 0 {
        let x = ".png";
        proof {
            reveal_strlit(".png");
        }
        assert(x@ =~= extensions()[0]);
        x
    } else if e == 1 {
        let x = ".svg";
        proof {
            reveal_strlit(".svg");
        }
        assert(x@ =~= extensions()[1]);
        x
    } else {
        let x = ".xpm";
        proof {
            reveal_strlit(".xpm");
        }
        assert(x@ =~= extensions()[2]);
        x
    }
}

/// The icon file name `iconname` with the extension of index `e`.
fn icon_file(iconname: &str, e: usize) -> (r: String)
    requires
        e < 3,
    ensures
        r@ == iconname@ + extensions()[e as int],
{
    let mut f = iconname.to_owned();
    f.append(extension(e));
    f
}

/// Whether the `i`th probe was found to be a file.
fn answer_at(found: &Vec<bool>, i: usize) -> (b: bool)
    ensures
        b == answer(found@, i as int),
{
    i < found.len() && found[i]
}

/// The first icon file named `iconname`, with the extensions in order, directly
/// under the first of `icon_dirs` that has one, among the probes of
/// `fallback_probes`; `found` tells which of them are files.
pub open spec fn fallback_lookup(
    icon: Seq<char>,
    icon_dirs: Seq<Seq<char>>,
    found: Seq<bool>,
) -> Option<Seq<char>> {
    let probes = fallback_probes(icon_dirs, icon);
    match first_answer(found, probes.len() as int) {
        Some(i) => Some(probes[i]),
        None => None,
    }
}

/// The files that the un-themed lookup of `iconname` probes, in order: each
/// extension in turn directly under each of `icon_dirs`.
pub fn fallback_icon_probes(iconname: &str, icon_dirs: &Vec<String>) -> (r: Vec<String>)
    ensures
        views(r@) == fallback_probes(views(icon_dirs@), iconname@),
{
    let ghost dirs = views(icon_dirs@);
    let mut out: Vec<String> = Vec::new();
    let nd = icon_dirs.len();
    let mut d: usize = 0;
    assert(dirs.take(0) =~= Seq::<Seq<char>>::empty());
    while d < nd
        invariant
            nd == dirs.len(),
            dirs == views(icon_dirs@),
            d <= nd,
            views(out@) == fallback_probes(dirs.take(d as int), iconname@),
        decreases nd - d,
    {
        proof {
            lemma_fallback_step(dirs, d as int, iconname@);
        }
        let mut e: usize = 0;
        while e < 3
            invariant
                nd == dirs.len(),
                dirs == views(icon_dirs@),
                d < nd,
                e <= 3,
                views(out@) == fallback_probes(dirs.take(d as int), iconname@) + ext_paths(
                    dirs[d as int],
                    iconname@,
                ).take(e as int),
            decreases 3 - e,
        {
            let file_name = icon_file(iconname, e);
            let path = path_join(icon_dirs[d].as_str(), file_name.as_str());
            let ghost before = views(out@);
            out.push(path);
            assert(views(out@) =~= before.push(path@));
            assert(ext_paths(dirs[d as int], iconname@).take(e + 1) =~= ext_paths(
                dirs[d as int],
                iconname@,
            ).take(e as int).push(path@));
            e = e + 1;
        }
        assert(ext_paths(dirs[d as int], iconname@).take(3) =~= ext_paths(
            dirs[d as int],
            iconname@,
        ));
        d = d + 1;
    }
    assert(dirs.take(nd as int) =~= dirs);
    out
}

/// The un-themed lookup: the first icon file named `iconname` directly under
/// the icon directories, trying the extensions in order in each directory;
/// `found[i]` tells whether the `i`th of `fallback_icon_probes` is a file.
pub fn lookup_fallback_icon(iconname: &str, icon_dirs: &Vec<String>, found: &Vec<bool>) -> (r:
    Option<String>)
    ensures
        crate::config::opt_view(r) == fallback_lookup(iconname@, views(icon_dirs@), found@),
{
    let ghost dirs = views(icon_dirs@);
    let ghost probes = fallback_probes(dirs, iconname@);
    let nd = icon_dirs.len();
    let mut d: usize = 0;
    let mut c: usize = 0;
    assert(dirs.take(0) =~= Seq::<Seq<char>>::empty());
    proof {
        lemma_fallback_len(dirs, iconname@);
    }
    while d < nd
        invariant
            nd == dirs.len(),
            dirs == views(icon_dirs@),
            probes == fallback_probes(dirs, iconname@),
            probes.len() == 3 * nd,
            d <= nd,
            c == 3 * d,
            fallback_probes(dirs.take(d as int), iconname@).len() == c,
            first_answer(found@, c as int) is None,
        decreases nd - d,
    {
        proof {
            lemma_fallback_step(dirs, d as int, iconname@);
            lemma_fallback_prefix(dirs, d + 1, nd as int, iconname@);
            assert(dirs.take(nd as int) =~= dirs);
        }
        let mut e: usize = 0;
        while e < 3
            invariant
                nd == dirs.len(),
                dirs == views(icon_dirs@),
                probes == fallback_probes(dirs, iconname@),
                probes.len() == 3 * nd,
                d < nd,
                e <= 3,
                c == 3 * d + e,
                fallback_probes(dirs.take(d as int), iconname@).len() + e == c,
                fallback_probes(dirs.take(d + 1), iconname@) == fallback_probes(
                    dirs.take(d as int),
                    iconname@,
                ) + ext_paths(dirs[d as int], iconname@),
                forall|i: int|
                    0 <= i < fallback_probes(dirs.take(d + 1), iconname@).len() ==> probes[i]
                        == fallback_probes(dirs.take(d + 1), iconname@)[i],
                first_answer(found@, c as int) is None,
            decreases 3 - e,
        {
            if c >= found.len() {
                proof {
                    lemma_first_answer_past_end(found@, c as int, probes.len() as int);
                }
                return None;
            }
            let file_name = icon_file(iconname, e);
            let path = path_join(icon_dirs[d].as_str(), file_name.as_str());
            assert(probes[c as int] == path@);
            if answer_at(found, c) {
                proof {
                    lemma_first_answer_hit(found@, c as int, probes.len() as int);
                }
                return Some(path);
            }
            c = c + 1;
            e = e + 1;
        }
        d = d + 1;
    }
    assert(dirs.take(nd as int) =~= dirs);
    None
}

proof fn lemma_fallback_len(icon_dirs: Seq<Seq<char>>, icon: Seq<char>)
    ensures
        fallback_probes(icon_dirs, icon).len() == 3 * icon_dirs.len(),
    decreases icon_dirs.len(),
{
    if icon_dirs.len() > 0 {
        lemma_fallback_len(icon_dirs.drop_last(), icon);
    }
}

/// The paths of the nearest-size probes of sub-directories `subdirs`.
pub open spec fn near_paths(
    subdirs: Seq<Directory>,
    icon_dirs: Seq<Seq<char>>,
    theme_name: Seq<char>,
    icon: Seq<char>,
) -> Seq<Seq<char>> {
    near_probes(subdirs, icon_dirs, theme_name, icon).map_values(|x: (Seq<char>, int)| x.0)
}

proof fn lemma_near_paths_step(
    subdirs: Seq<Directory>,
    k: int,
    icon_dirs: Seq<Seq<char>>,
    theme_name: Seq<char>,
    icon: Seq<char>,
)
    requires
        0 <= k < subdirs.len(),
    ensures
        near_paths(subdirs.take(k + 1), icon_dirs, theme_name, icon) == near_paths(
            subdirs.take(k),
            icon_dirs,
            theme_name,
            icon,
        ) + near_group(icon_dirs, theme_name, subdir_name(subdirs[k]), icon),
{
    lemma_near_step(subdirs, k, icon_dirs, theme_name, icon);
    assert(near_paths(subdirs.take(k + 1), icon_dirs, theme_name, icon) =~= near_paths(
        subdirs.take(k),
        icon_dirs,
        theme_name,
        icon,
    ) + near_group(icon_dirs, theme_name, subdir_name(subdirs[k]), icon));
}

/// Whether a directory suits the wanted size, computed without overflow.
fn suits_size(d: &Directory, iconsize: i32, iconscale: i32) -> (b: bool)
    ensures
        b == size_matches(*d, iconsize as int, iconscale as int),
{
    let scale: i64 = match d.scale {
        Some(s) => s as i64,
        None => 1,
    };
    if scale != iconscale as i64 {
        return false;
    }
    let size: i64 = match d.size {
        Some(s) => s as i64,
        None => return false,
    };
    let min_size: i64 = match d.min_size {
        Some(s) => s as i64,
        None => size,
    };
    let max_size: i64 = match d.max_size {
        Some(s) => s as i64,
        None => size,
    };
    let threshold: i64 = match d.threshold {
        Some(s) => s as i64,
        None => 2,
    };
    let wanted = iconsize as i64;
    match d.xdg_type {
        Some(DirectoryType::Fixed) => size == wanted,
        Some(DirectoryType::Scalable) => min_size <= wanted && wanted <= max_size,
        _ => size - threshold <= wanted && wanted <= size + threshold,
    }
}

/// The files a lookup in a theme may probe.
pub struct IconProbes {
    /// The theme directory: the lookup asks whether it exists.
    pub theme_dir: String,
    /// The files of the exact-size search, in order.
    pub exact: Vec<String>,
    /// The files of the nearest-size search, in order.
    pub near: Vec<String>,
}

/// The files that looking `iconname` up in `theme` may probe (see
/// `exact_probes` and `near_probes`); `lookup_icon` takes the answers about
/// them in this order. A theme without sub-directories or without a name
/// probes nothing.
pub fn lookup_icon_probes(
    iconname: &str,
    size: i32,
    scale: i32,
    theme: &IconTheme,
    dir_list_vector: Vec<DirList>,
    icon_dirs: &Vec<String>,
) -> (r: IconProbes)
    ensures
        (theme.directories is Some && theme.name is Some) ==> {
            &&& r.theme_dir@ == theme_dir_of(*theme, dir_list_vector@)
            &&& views(r.exact@) == exact_of(
                *theme,
                dir_list_vector@,
                iconname@,
                size as int,
                scale as int,
            )
            &&& views(r.near@) == near_paths(
                subdirs_of(*theme),
                views(icon_dirs@),
                theme.name->0@,
                iconname@,
            )
        },
        !(theme.directories is Some && theme.name is Some) ==> r.theme_dir@.len() == 0
            && r.exact@.len() == 0 && r.near@.len() == 0,
{
    if theme.directories.is_none() || theme.name.is_none() {
        return IconProbes { theme_dir: String::new(), exact: Vec::new(), near: Vec::new() };
    }
    let theme_name = theme.name.as_ref().unwrap();
    let subdirs = theme.directories.as_ref().unwrap();
    let ghost sd = subdirs@;
    let ghost dirs = views(icon_dirs@);
    let theme_dir = match look_for_theme_directory(theme_name.clone(), dir_list_vector) {
        Some(d) => d,
        None => String::new(),
    };
    let n = subdirs.len();
    let mut exact: Vec<String> = Vec::new();
    let mut k: usize = 0;
    assert(sd.take(0) =~= Seq::<Directory>::empty());
    while k < n
        invariant
            n == sd.len(),
            sd == subdirs@,
            k <= n,
            views(exact@) == exact_probes(sd.take(k as int), theme_dir@, iconname@, size as int, scale as int),
        decreases n - k,
    {
        proof {
            lemma_exact_step(sd, k as int, theme_dir@, iconname@, size as int, scale as int);
        }
        if suits_size(&subdirs[k], size, scale) {
            let name = match &subdirs[k].name {
                Some(x) => x.clone(),
                None => String::new(),
            };
            assert(name@ == subdir_name(sd[k as int]));
            let base = path_join(theme_dir.as_str(), name.as_str());
            let mut e: usize = 0;
            while e < 3
                invariant
                    n == sd.len(),
                    sd == subdirs@,
                    k < n,
                    e <= 3,
                    views(exact@) == exact_probes(
                        sd.take(k as int),
                        theme_dir@,
                        iconname@,
                        size as int,
                        scale as int,
                    ) + ext_paths(base@, iconname@).take(e as int),
                decreases 3 - e,
            {
                let file_name = icon_file(iconname, e);
                let path = path_join(base.as_str(), file_name.as_str());
                let ghost before = views(exact@);
                exact.push(path);
                assert(views(exact@) =~= before.push(path@));
                assert(ext_paths(base@, iconname@).take(e + 1) =~= ext_paths(
                    base@,
                    iconname@,
                ).take(e as int).push(path@));
                e = e + 1;
            }
            assert(ext_paths(base@, iconname@).take(3) =~= ext_paths(base@, iconname@));
        } else {
            assert(views(exact@) =~= views(exact@) + Seq::<Seq<char>>::empty());
        }
        k = k + 1;
    }
    assert(sd.take(n as int) =~= sd);
    let mut near: Vec<String> = Vec::new();
    let nd = icon_dirs.len();
    k = 0;
    assert(near_paths(sd.take(0), dirs, theme_name@, iconname@) =~= Seq::<Seq<char>>::empty());
    while k < n
        invariant
            n == sd.len(),
            sd == subdirs@,
            nd == dirs.len(),
            dirs == views(icon_dirs@),
            k <= n,
            views(near@) == near_paths(sd.take(k as int), dirs, theme_name@, iconname@),
        decreases n - k,
    {
        proof {
            lemma_near_paths_step(sd, k as int, dirs, theme_name@, iconname@);
        }
        let name = match &subdirs[k].name {
            Some(x) => x.clone(),
            None => String::new(),
        };
        assert(name@ == subdir_name(sd[k as int]));
        let mut d: usize = 0;
        assert(dirs.take(0) =~= Seq::<Seq<char>>::empty());
        while d < nd
            invariant
                n == sd.len(),
                sd == subdirs@,
                nd == dirs.len(),
                dirs == views(icon_dirs@),
                k < n,
                d <= nd,
                name@ == subdir_name(sd[k as int]),
                views(near@) == near_paths(sd.take(k as int), dirs, theme_name@, iconname@)
                    + near_group(dirs.take(d as int), theme_name@, name@, iconname@),
            decreases nd - d,
        {
            proof {
                lemma_group_step(dirs, d as int, theme_name@, name@, iconname@);
            }
            let top = path_join(icon_dirs[d].as_str(), theme_name.as_str());
            let base = path_join(top.as_str(), name.as_str());
            let mut e: usize = 0;
            while e < 3
                invariant
                    n == sd.len(),
                    sd == subdirs@,
                    nd == dirs.len(),
                    dirs == views(icon_dirs@),
                    k < n,
                    d < nd,
                    e <= 3,
                    name@ == subdir_name(sd[k as int]),
                    base@ == joined(joined(dirs[d as int], theme_name@), name@),
                    views(near@) == near_paths(sd.take(k as int), dirs, theme_name@, iconname@)
                        + near_group(dirs.take(d as int), theme_name@, name@, iconname@)
                        + ext_paths(base@, iconname@).take(e as int),
                decreases 3 - e,
            {
                let file_name = icon_file(iconname, e);
                let path = path_join(base.as_str(), file_name.as_str());
                let ghost before = views(near@);
                near.push(path);
                assert(views(near@) =~= before.push(path@));
                assert(ext_paths(base@, iconname@).take(e + 1) =~= ext_paths(
                    base@,
                    iconname@,
                ).take(e as int).push(path@));
                e = e + 1;
            }
            assert(ext_paths(base@, iconname@).take(3) =~= ext_paths(base@, iconname@));
            assert(views(near@) =~= near_paths(sd.take(k as int), dirs, theme_name@, iconname@)
                + near_group(dirs.take(d + 1), theme_name@, name@, iconname@));
            d = d + 1;
        }
        assert(dirs.take(nd as int) =~= dirs);
        k = k + 1;
    }
    assert(sd.take(n as int) =~= sd);
    IconProbes { theme_dir, exact, near }
}

proof fn lemma_nearest_past_end(
    probes: Seq<(Seq<char>, int)>,
    found: Seq<bool>,
    subdirs: Seq<Directory>,
    size: int,
    scale: int,
    n: int,
    m: int,
)
    requires
        found.len() <= n <= m,
    ensures
        nearest(probes, found, subdirs, size, scale, m) == nearest(
            probes,
            found,
            subdirs,
            size,
            scale,
            n,
        ),
    decreases m - n,
{
    if n < m {
        lemma_nearest_past_end(probes, found, subdirs, size, scale, n, m - 1);
    }
}

/// The exact-size search: the first of `exact_probes` that is a file, where the
/// theme directory exists.
fn exact_icon(
    iconname: &str,
    size: i32,
    scale: i32,
    subdirs: &Vec<Directory>,
    directory: &String,
    dir_exists: bool,
    exact_found: &Vec<bool>,
) -> (r: Option<String>)
    requires
        forall|k: int|
            0 <= k < subdirs@.len() && !exact_hit(
                dir_exists,
                exact_found@,
                #[trigger] exact_probes(
                    subdirs@.take(k),
                    directory@,
                    iconname@,
                    size as int,
                    scale as int,
                ).len() as int,
            ) ==> subdirs@[k].name is Some && (dir_exists ==> size_match_fits(
                subdirs@[k],
                size as int,
                scale as int,
            )),
    ensures
        ({
            let exact = exact_probes(subdirs@, directory@, iconname@, size as int, scale as int);
            crate::config::opt_view(r) == if exact_hit(
                dir_exists,
                exact_found@,
                exact.len() as int,
            ) {
                Some(exact[first_answer(exact_found@, exact.len() as int)->0])
            } else {
                None
            }
        }),
{
    let ghost sd = subdirs@;
    let ghost exact = exact_probes(sd, directory@, iconname@, size as int, scale as int);
    if !dir_exists {
        return None;
    }
    let n = subdirs.len();
    let mut c1: usize = 0;
    let mut k: usize = 0;
    assert(sd.take(0) =~= Seq::<Directory>::empty());
    assert(sd.take(n as int) =~= sd);
    while k < n
        invariant
            n == sd.len(),
            sd == subdirs@,
            k <= n,
            dir_exists,
            exact == exact_probes(sd, directory@, iconname@, size as int, scale as int),
            sd.take(n as int) == sd,
            c1 == exact_probes(sd.take(k as int), directory@, iconname@, size as int, scale as int).len(),
            first_answer(exact_found@, c1 as int) is None,
            forall|k: int|
                0 <= k < sd.len() && !exact_hit(
                    dir_exists,
                    exact_found@,
                    #[trigger] exact_probes(
                        sd.take(k),
                        directory@,
                        iconname@,
                        size as int,
                        scale as int,
                    ).len() as int,
                ) ==> sd[k].name is Some && (dir_exists ==> size_match_fits(
                    sd[k],
                    size as int,
                    scale as int,
                )),
        decreases n - k,
    {
        proof {
            lemma_exact_step(sd, k as int, directory@, iconname@, size as int, scale as int);
            lemma_exact_prefix(sd, k + 1, n as int, directory@, iconname@, size as int, scale as int);
            assert(!exact_hit(
                dir_exists,
                exact_found@,
                exact_probes(sd.take(k as int), directory@, iconname@, size as int, scale as int).len() as int,
            ));
        }
        let sub_name = subdirs[k].name.as_ref().unwrap().clone();
        assert(sub_name@ == subdir_name(sd[k as int]));
        let base = path_join(directory.as_str(), sub_name.as_str());
        let mut e: usize = 0;
        let ghost start = c1 as int;
        let ghost group = ext_paths(base@, iconname@);
        while e < 3
            invariant
                n == sd.len(),
                sd == subdirs@,
                k < n,
                e <= 3,
                dir_exists,
                exact == exact_probes(sd, directory@, iconname@, size as int, scale as int),
                start == exact_probes(sd.take(k as int), directory@, iconname@, size as int, scale as int).len(),
                exact_probes(sd.take(k + 1), directory@, iconname@, size as int, scale as int)
                    == exact_probes(sd.take(k as int), directory@, iconname@, size as int, scale as int) + (
                if size_matches(sd[k as int], size as int, scale as int) {
                    group
                } else {
                    Seq::<Seq<char>>::empty()
                }),
                forall|i: int|
                    0 <= i < exact_probes(sd.take(k + 1), directory@, iconname@, size as int, scale as int).len()
                        ==> exact[i] == exact_probes(sd.take(k + 1), directory@, iconname@, size as int, scale as int)[i],
                exact_probes(sd.take(k + 1), directory@, iconname@, size as int, scale as int).len() <= exact.len(),
                group == ext_paths(base@, iconname@),
                size_match_fits(sd[k as int], size as int, scale as int),
                c1 == start + (if size_matches(sd[k as int], size as int, scale as int) {
                    e as int
                } else {
                    0
                }),
                first_answer(exact_found@, c1 as int) is None,
            decreases 3 - e,
        {
            let file_name = icon_file(iconname, e);
            let path = path_join(base.as_str(), file_name.as_str());
            if directory_matches_size(subdirs[k].clone(), size, scale) {
                assert(group[e as int] == path@);
                assert(exact_probes(sd.take(k + 1), directory@, iconname@, size as int, scale as int)[c1 as int] == path@);
                assert(exact[c1 as int] == path@);
                if c1 >= exact_found.len() {
                    proof {
                        lemma_exact_prefix(sd, k + 1, n as int, directory@, iconname@, size as int, scale as int);
                        lemma_first_answer_past_end(exact_found@, c1 as int, exact.len() as int);
                    }
                    return None;
                }
                if answer_at(exact_found, c1) {
                    proof {
                        lemma_first_answer_hit(exact_found@, c1 as int, exact.len() as int);
                    }
                    return Some(path);
                }
                c1 = c1 + 1;
            }
            e = e + 1;
        }
        k = k + 1;
    }
    None
}

/// The nearest-size search: the nearest of `near_probes` that are files.
fn nearest_icon(
    iconname: &str,
    size: i32,
    scale: i32,
    subdirs: &Vec<Directory>,
    theme_name: &String,
    icon_dirs: &Vec<String>,
    near_found: &Vec<bool>,
) -> (r: (String, i32))
    requires
        forall|k: int| 0 <= k < subdirs@.len() ==> (#[trigger] subdirs@[k]).name is Some,
        ({
            let near = near_probes(subdirs@, views(icon_dirs@), theme_name@, iconname@);
            forall|i: int|
                0 <= i < near.len() && #[trigger] answer(near_found@, i) ==> size_distance_fits(
                    subdirs@[near[i].1],
                    size as int,
                    scale as int,
                )
        }),
    ensures
        ({
            let near = near_probes(subdirs@, views(icon_dirs@), theme_name@, iconname@);
            (r.0@, r.1 as int) == nearest(near, near_found@, subdirs@, size as int, scale as int, near.len() as int)
        }),
{
    let ghost sd = subdirs@;
    let ghost dirs = views(icon_dirs@);
    let ghost near = near_probes(sd, dirs, theme_name@, iconname@);
    let mut closest_filename = String::new();
    let mut minimal_size: i32 = i32::MAX;
    let n = subdirs.len();
    let nd = icon_dirs.len();
    let mut c2: usize = 0;
    let mut k: usize = 0;
    assert(sd.take(0) =~= Seq::<Directory>::empty());
    assert(sd.take(n as int) =~= sd);
    assert(closest_filename@ =~= Seq::<char>::empty());
    while k < n
        invariant
            n == sd.len(),
            sd == subdirs@,
            nd == dirs.len(),
            dirs == views(icon_dirs@),
            near == near_probes(sd, dirs, theme_name@, iconname@),
            sd.take(n as int) == sd,
            k <= n,
            forall|k: int| 0 <= k < sd.len() ==> (#[trigger] sd[k]).name is Some,
            forall|i: int|
                0 <= i < near.len() && #[trigger] answer(near_found@, i) ==> size_distance_fits(
                    sd[near[i].1],
                    size as int,
                    scale as int,
                ),
            c2 == near_probes(sd.take(k as int), dirs, theme_name@, iconname@).len(),
            (closest_filename@, minimal_size as int) == nearest(
                near,
                near_found@,
                sd,
                size as int,
                scale as int,
                c2 as int,
            ),
        decreases n - k,
    {
        let sub_name = subdirs[k].name.as_ref().unwrap().clone();
        assert(sub_name@ == subdir_name(sd[k as int]));
        let ghost group = near_group(dirs, theme_name@, sub_name@, iconname@);
        proof {
            lemma_near_step(sd, k as int, dirs, theme_name@, iconname@);
            lemma_near_prefix(sd, k + 1, n as int, dirs, theme_name@, iconname@);
            lemma_group_len(dirs, theme_name@, sub_name@, iconname@);
        }
        let ghost start = c2 as int;
        let mut d: usize = 0;
        assert(dirs.take(0) =~= Seq::<Seq<char>>::empty());
        assert(dirs.take(nd as int) =~= dirs);
        while d < nd
            invariant
                n == sd.len(),
                sd == subdirs@,
                nd == dirs.len(),
                dirs == views(icon_dirs@),
                near == near_probes(sd, dirs, theme_name@, iconname@),
                dirs.take(nd as int) == dirs,
                k < n,
                d <= nd,
                forall|i: int|
                    0 <= i < near.len() && #[trigger] answer(near_found@, i) ==> size_distance_fits(
                        sd[near[i].1],
                        size as int,
                        scale as int,
                    ),
                sub_name@ == subdir_name(sd[k as int]),
                group == near_group(dirs, theme_name@, sub_name@, iconname@),
                start == near_probes(sd.take(k as int), dirs, theme_name@, iconname@).len(),
                near_probes(sd.take(k + 1), dirs, theme_name@, iconname@) == near_probes(
                    sd.take(k as int),
                    dirs,
                    theme_name@,
                    iconname@,
                ) + group.map_values(|p: Seq<char>| (p, k as int)),
                forall|i: int|
                    0 <= i < near_probes(sd.take(k + 1), dirs, theme_name@, iconname@).len()
                        ==> near[i] == near_probes(sd.take(k + 1), dirs, theme_name@, iconname@)[i],
                near_probes(sd.take(k + 1), dirs, theme_name@, iconname@).len() <= near.len(),
                group.len() == 3 * nd,
                c2 == start + near_group(dirs.take(d as int), theme_name@, sub_name@, iconname@).len(),
                (closest_filename@, minimal_size as int) == nearest(
                    near,
                    near_found@,
                    sd,
                    size as int,
                    scale as int,
                    c2 as int,
                ),
            decreases nd - d,
        {
            proof {
                lemma_group_step(dirs, d as int, theme_name@, sub_name@, iconname@);
                lemma_group_prefix(dirs, d + 1, nd as int, theme_name@, sub_name@, iconname@);
            }
            let top = path_join(icon_dirs[d].as_str(), theme_name.as_str());
            let base = path_join(top.as_str(), sub_name.as_str());
            let ghost gstart = near_group(dirs.take(d as int), theme_name@, sub_name@, iconname@).len();
            let mut e: usize = 0;
            while e < 3
                invariant
                    n == sd.len(),
                    sd == subdirs@,
                    nd == dirs.len(),
                    dirs == views(icon_dirs@),
                    near == near_probes(sd, dirs, theme_name@, iconname@),
                    k < n,
                    d < nd,
                    e <= 3,
                    forall|i: int|
                        0 <= i < near.len() && #[trigger] answer(near_found@, i) ==> size_distance_fits(
                            sd[near[i].1],
                            size as int,
                            scale as int,
                        ),
                    sub_name@ == subdir_name(sd[k as int]),
                    group == near_group(dirs, theme_name@, sub_name@, iconname@),
                    near_group(dirs.take(d + 1), theme_name@, sub_name@, iconname@) == near_group(
                        dirs.take(d as int),
                        theme_name@,
                        sub_name@,
                        iconname@,
                    ) + ext_paths(base@, iconname@),
                    forall|i: int|
                        0 <= i < near_group(dirs.take(d + 1), theme_name@, sub_name@, iconname@).len()
                            ==> group[i] == near_group(dirs.take(d + 1), theme_name@, sub_name@, iconname@)[i],
                    gstart == near_group(dirs.take(d as int), theme_name@, sub_name@, iconname@).len(),
                    base@ == joined(joined(dirs[d as int], theme_name@), sub_name@),
                    start == near_probes(sd.take(k as int), dirs, theme_name@, iconname@).len(),
                    near_probes(sd.take(k + 1), dirs, theme_name@, iconname@) == near_probes(
                        sd.take(k as int),
                        dirs,
                        theme_name@,
                        iconname@,
                    ) + group.map_values(|p: Seq<char>| (p, k as int)),
                    forall|i: int|
                        0 <= i < near_probes(sd.take(k + 1), dirs, theme_name@, iconname@).len()
                            ==> near[i] == near_probes(sd.take(k + 1), dirs, theme_name@, iconname@)[i],
                    near_probes(sd.take(k + 1), dirs, theme_name@, iconname@).len() <= near.len(),
                    near_group(dirs.take(d + 1), theme_name@, sub_name@, iconname@).len() <= group.len(),
                    group.len() == 3 * nd,
                    c2 == start + gstart + e,
                    (closest_filename@, minimal_size as int) == nearest(
                        near,
                        near_found@,
                        sd,
                        size as int,
                        scale as int,
                        c2 as int,
                    ),
                decreases 3 - e,
            {
                let file_name = icon_file(iconname, e);
                let path = path_join(base.as_str(), file_name.as_str());
                if c2 >= near_found.len() {
                    proof {
                        lemma_nearest_past_end(
                            near,
                            near_found@,
                            sd,
                            size as int,
                            scale as int,
                            c2 as int,
                            near.len() as int,
                        );
                    }
                    return (closest_filename, minimal_size);
                }
                proof {
                    assert(near_group(dirs.take(d + 1), theme_name@, sub_name@, iconname@)[gstart + e] == path@);
                    assert(group[gstart + e] == path@);
                    assert(group.map_values(|p: Seq<char>| (p, k as int))[gstart + e] == (path@, k as int));
                    assert(near_probes(sd.take(k + 1), dirs, theme_name@, iconname@)[c2 as int] == (path@, k as int));
                    assert(near[c2 as int] == (path@, k as int));
                }
                if answer_at(near_found, c2) && directory_size_distance(
                    subdirs[k].clone(),
                    size,
                    scale,
                ) < minimal_size {
                    closest_filename = path;
                    minimal_size = directory_size_distance(subdirs[k].clone(), size, scale);
                }
                c2 = c2 + 1;
                e = e + 1;
            }
            d = d + 1;
        }
        k = k + 1;
    }
    (closest_filename, minimal_size)
}

/// Looks `iconname` up in `theme` at the wanted size and scale, as
/// `icon_lookup` says: first an icon in a sub-directory of the theme directory
/// that suits the size, then the nearest-sized icon of the theme under the icon
/// directories, and nothing when there is none.
///
/// `dir_exists` tells whether the theme directory of `lookup_icon_probes`
/// exists, and `exact_found`, `near_found` whether each of its exact-size and
/// nearest-size probes is a file.
pub fn lookup_icon(
    iconname: &str,
    size: i32,
    scale: i32,
    theme: &IconTheme,
    dir_list_vector: Vec<DirList>,
    icon_dirs: &Vec<String>,
    dir_exists: bool,
    exact_found: &Vec<bool>,
    near_found: &Vec<bool>,
) -> (r: Option<String>)
    requires
        lookup_defined(
            iconname@,
            size as int,
            scale as int,
            *theme,
            dir_list_vector@,
            views(icon_dirs@),
            dir_exists,
            exact_found@,
            near_found@,
        ),
    ensures
        crate::config::opt_view(r) == icon_lookup(
            iconname@,
            size as int,
            scale as int,
            *theme,
            dir_list_vector@,
            views(icon_dirs@),
            dir_exists,
            exact_found@,
            near_found@,
        ),
{
    if theme.directories.is_none() {
        return None;
    }
    let ghost dirs = dir_list_vector@;
    let theme_name = theme.name.as_ref().unwrap();
    let subdirs = theme.directories.as_ref().unwrap();
    let ghost sd = subdirs@;
    let directory = match look_for_theme_directory(theme_name.clone(), dir_list_vector) {
        Some(d) => d,
        None => String::new(),
    };
    assert(directory@ == theme_dir_of(*theme, dirs));
    let hit = exact_icon(iconname, size, scale, subdirs, &directory, dir_exists, exact_found);
    if hit.is_some() {
        return hit;
    }
    let ghost exact = exact_probes(sd, directory@, iconname@, size as int, scale as int);
    assert(!exact_hit(dir_exists, exact_found@, exact.len() as int));
    assert forall|k: int| 0 <= k < sd.len() implies (#[trigger] sd[k]).name is Some by {
        lemma_exact_prefix(sd, k, sd.len() as int, directory@, iconname@, size as int, scale as int);
        assert(sd.take(sd.len() as int) =~= sd);
        if dir_exists {
            lemma_first_answer_none_below(
                exact_found@,
                exact_probes(sd.take(k), directory@, iconname@, size as int, scale as int).len() as int,
                exact.len() as int,
            );
        }
        assert(!exact_hit(
            dir_exists,
            exact_found@,
            exact_probes(sd.take(k), directory@, iconname@, size as int, scale as int).len() as int,
        ));
    }
    let (closest, distance) = nearest_icon(iconname, size, scale, subdirs, theme_name, icon_dirs, near_found);
    if distance < i32::MAX {
        Some(closest)
    } else {
        None
    }
}

/// The exact-size search can be carried out without a panic: `None` when some
/// sub-directory that it reaches has no name, or a size test it makes does not
/// fit `i32`; otherwise whether it finds a file.
fn exact_defined(
    iconname: &str,
    size: i32,
    scale: i32,
    subdirs: &Vec<Directory>,
    directory: &String,
    dir_exists: bool,
    exact_found: &Vec<bool>,
) -> (r: Option<bool>)
    ensures
        ({
            let sd = subdirs@;
            let exact = exact_probes(sd, directory@, iconname@, size as int, scale as int);
            let ok = forall|k: int|
                0 <= k < sd.len() && !exact_hit(
                    dir_exists,
                    exact_found@,
                    #[trigger] exact_probes(
                        sd.take(k),
                        directory@,
                        iconname@,
                        size as int,
                        scale as int,
                    ).len() as int,
                ) ==> sd[k].name is Some && (dir_exists ==> size_match_fits(
                    sd[k],
                    size as int,
                    scale as int,
                ));
            match r {
                Some(h) => ok && h == exact_hit(dir_exists, exact_found@, exact.len() as int),
                None => !ok,
            }
        }),
{
    let ghost sd = subdirs@;
    let ghost dir = directory@;
    let n = subdirs.len();
    let mut hit = false;
    let mut c1: usize = 0;
    let ghost mut cnt: int = 0;
    let mut k: usize = 0;
    assert(sd.take(0) =~= Seq::<Directory>::empty());
    while k < n
        invariant
            n == sd.len(),
            sd == subdirs@,
            dir == directory@,
            k <= n,
            cnt == exact_probes(sd.take(k as int), dir, iconname@, size as int, scale as int).len(),
            c1 <= exact_found@.len(),
            cnt <= exact_found@.len() ==> c1 == cnt,
            cnt > exact_found@.len() ==> c1 == exact_found@.len(),
            hit == exact_hit(dir_exists, exact_found@, cnt),
            forall|j: int|
                0 <= j < k && !exact_hit(
                    dir_exists,
                    exact_found@,
                    #[trigger] exact_probes(
                        sd.take(j),
                        dir,
                        iconname@,
                        size as int,
                        scale as int,
                    ).len() as int,
                ) ==> sd[j].name is Some && (dir_exists ==> size_match_fits(
                    sd[j],
                    size as int,
                    scale as int,
                )),
        decreases n - k,
    {
        proof {
            lemma_exact_step(sd, k as int, dir, iconname@, size as int, scale as int);
        }
        if !hit {
            if subdirs[k].name.is_none() || (dir_exists && !match_fits(&subdirs[k], size, scale)) {
                assert(!exact_hit(
                    dir_exists,
                    exact_found@,
                    exact_probes(sd.take(k as int), dir, iconname@, size as int, scale as int).len() as int,
                ));
                return None;
            }
        }
        if suits_size(&subdirs[k], size, scale) {
            let mut e: usize = 0;
            while e < 3
                invariant
                    e <= 3,
                    c1 <= exact_found@.len(),
                    cnt <= exact_found@.len() ==> c1 == cnt,
                    cnt > exact_found@.len() ==> c1 == exact_found@.len(),
                    hit == exact_hit(dir_exists, exact_found@, cnt),
                    cnt == exact_probes(sd.take(k as int), dir, iconname@, size as int, scale as int).len() + e,
                decreases 3 - e,
            {
                let a = c1 < exact_found.len() && exact_found[c1];
                assert(a == answer(exact_found@, cnt));
                assert(first_answer(exact_found@, cnt + 1) is Some == (first_answer(exact_found@, cnt) is Some
                    || answer(exact_found@, cnt)));
                hit = hit || (dir_exists && a);
                if c1 < exact_found.len() {
                    c1 = c1 + 1;
                }
                proof {
                    cnt = cnt + 1;
                }
                e = e + 1;
            }
        }
        k = k + 1;
    }
    assert(sd.take(n as int) =~= sd);
    Some(hit)
}

/// Whether the distance of each sub-directory where a nearest-size probe is a
/// file fits `i32`.
fn near_defined(
    iconname: &str,
    size: i32,
    scale: i32,
    subdirs: &Vec<Directory>,
    theme_name: &String,
    icon_dirs: &Vec<String>,
    near_found: &Vec<bool>,
) -> (b: bool)
    ensures
        b == ({
            let near = near_probes(subdirs@, views(icon_dirs@), theme_name@, iconname@);
            forall|i: int|
                0 <= i < near.len() && #[trigger] answer(near_found@, i) ==> size_distance_fits(
                    subdirs@[near[i].1],
                    size as int,
                    scale as int,
                )
        }),
{
    let ghost sd = subdirs@;
    let ghost dirs = views(icon_dirs@);
    let ghost near = near_probes(sd, dirs, theme_name@, iconname@);
    let n = subdirs.len();
    let nd = icon_dirs.len();
    let mut c2: usize = 0;
    let mut k: usize = 0;
    assert(sd.take(0) =~= Seq::<Directory>::empty());
    assert(sd.take(n as int) =~= sd);
    while k < n
        invariant
            n == sd.len(),
            sd == subdirs@,
            nd == dirs.len(),
            dirs == views(icon_dirs@),
            near == near_probes(sd, dirs, theme_name@, iconname@),
            sd.take(n as int) == sd,
            k <= n,
            c2 == near_probes(sd.take(k as int), dirs, theme_name@, iconname@).len(),
            c2 <= near_found@.len(),
            forall|i: int|
                0 <= i < c2 && #[trigger] answer(near_found@, i) ==> size_distance_fits(
                    sd[near[i].1],
                    size as int,
                    scale as int,
                ),
        decreases n - k,
    {
        let ghost name = subdir_name(sd[k as int]);
        let ghost group = near_group(dirs, theme_name@, name, iconname@);
        proof {
            lemma_near_step(sd, k as int, dirs, theme_name@, iconname@);
            lemma_near_prefix(sd, k + 1, n as int, dirs, theme_name@, iconname@);
            lemma_group_len(dirs, theme_name@, name, iconname@);
        }
        let ghost start = c2 as int;
        let fits_k = distance_fits(&subdirs[k], size, scale);
        let mut d: usize = 0;
        while d < nd
            invariant
                n == sd.len(),
                sd == subdirs@,
                nd == dirs.len(),
                dirs == views(icon_dirs@),
                near == near_probes(sd, dirs, theme_name@, iconname@),
                k < n,
                d <= nd,
                fits_k == size_distance_fits(sd[k as int], size as int, scale as int),
                group == near_group(dirs, theme_name@, name, iconname@),
                group.len() == 3 * nd,
                start == near_probes(sd.take(k as int), dirs, theme_name@, iconname@).len(),
                near_probes(sd.take(k + 1), dirs, theme_name@, iconname@) == near_probes(
                    sd.take(k as int),
                    dirs,
                    theme_name@,
                    iconname@,
                ) + group.map_values(|p: Seq<char>| (p, k as int)),
                forall|i: int|
                    0 <= i < near_probes(sd.take(k + 1), dirs, theme_name@, iconname@).len()
                        ==> near[i] == near_probes(sd.take(k + 1), dirs, theme_name@, iconname@)[i],
                near_probes(sd.take(k + 1), dirs, theme_name@, iconname@).len() <= near.len(),
                c2 == start + 3 * d,
                c2 <= near_found@.len(),
                forall|i: int|
                    0 <= i < c2 && #[trigger] answer(near_found@, i) ==> size_distance_fits(
                        sd[near[i].1],
                        size as int,
                        scale as int,
                    ),
            decreases nd - d,
        {
            let mut e: usize = 0;
            while e < 3
                invariant
                    n == sd.len(),
                    sd == subdirs@,
                    nd == dirs.len(),
                    dirs == views(icon_dirs@),
                    near == near_probes(sd, dirs, theme_name@, iconname@),
                    k < n,
                    d < nd,
                    e <= 3,
                    fits_k == size_distance_fits(sd[k as int], size as int, scale as int),
                    group.len() == 3 * nd,
                    start == near_probes(sd.take(k as int), dirs, theme_name@, iconname@).len(),
                    near_probes(sd.take(k + 1), dirs, theme_name@, iconname@) == near_probes(
                        sd.take(k as int),
                        dirs,
                        theme_name@,
                        iconname@,
                    ) + group.map_values(|p: Seq<char>| (p, k as int)),
                    forall|i: int|
                        0 <= i < near_probes(sd.take(k + 1), dirs, theme_name@, iconname@).len()
                            ==> near[i] == near_probes(sd.take(k + 1), dirs, theme_name@, iconname@)[i],
                    near_probes(sd.take(k + 1), dirs, theme_name@, iconname@).len() <= near.len(),
                    c2 == start + 3 * d + e,
                    c2 <= near_found@.len(),
                    forall|i: int|
                        0 <= i < c2 && #[trigger] answer(near_found@, i) ==> size_distance_fits(
                            sd[near[i].1],
                            size as int,
                            scale as int,
                        ),
                decreases 3 - e,
            {
                if c2 >= near_found.len() {
                    assert forall|i: int|
                        0 <= i < near.len() && #[trigger] answer(near_found@, i) implies size_distance_fits(
                            sd[near[i].1],
                            size as int,
                            scale as int,
                        ) by {
                        assert(i < c2);
                    }
                    return true;
                }
                proof {
                    assert(group.map_values(|p: Seq<char>| (p, k as int))[c2 - start] == (
                        group[c2 - start],
                        k as int,
                    ));
                    assert(near[c2 as int].1 == k as int);
                }
                if near_found[c2] && !fits_k {
                    assert(answer(near_found@, c2 as int));
                    return false;
                }
                c2 = c2 + 1;
                e = e + 1;
            }
            d = d + 1;
        }
        k = k + 1;
    }
    true
}

/// Whether `lookup_icon` can be carried out on these arguments, as
/// `lookup_defined` says: where it cannot, the lookup meets a theme or a
/// sub-directory without a name, or an `i32` overflow.
pub fn lookup_is_defined(
    iconname: &str,
    size: i32,
    scale: i32,
    theme: &IconTheme,
    dir_list_vector: Vec<DirList>,
    icon_dirs: &Vec<String>,
    dir_exists: bool,
    exact_found: &Vec<bool>,
    near_found: &Vec<bool>,
) -> (b: bool)
    ensures
        b == lookup_defined(
            iconname@,
            size as int,
            scale as int,
            *theme,
            dir_list_vector@,
            views(icon_dirs@),
            dir_exists,
            exact_found@,
            near_found@,
        ),
{
    if theme.directories.is_none() {
        return true;
    }
    if theme.name.is_none() {
        return false;
    }
    let ghost dirs = dir_list_vector@;
    let theme_name = theme.name.as_ref().unwrap();
    let subdirs = theme.directories.as_ref().unwrap();
    let directory = match look_for_theme_directory(theme_name.clone(), dir_list_vector) {
        Some(d) => d,
        None => String::new(),
    };
    assert(directory@ == theme_dir_of(*theme, dirs));
    match exact_defined(iconname, size, scale, subdirs, &directory, dir_exists, exact_found) {
        None => false,
        Some(true) => true,
        Some(false) => near_defined(iconname, size, scale, subdirs, theme_name, icon_dirs, near_found),
    }
}

proof fn lemma_first_answer_is_first(found: Seq<bool>, n: int)
    ensures
        match first_answer(found, n) {
            Some(i) => 0 <= i < n && answer(found, i) && forall|j: int|
                0 <= j < i ==> !answer(found, j),
            None => forall|j: int| 0 <= j < n ==> !answer(found, j),
        },
    decreases n,
{
    if n > 0 {
        lemma_first_answer_is_first(found, n - 1);
    }
}

/// The un-themed lookup finds the first of its probes that is a file, and
/// nothing when none is.
pub proof fn fallback_finds_first_file(icon: Seq<char>, icon_dirs: Seq<Seq<char>>, found: Seq<bool>)
    ensures
        ({
            let probes = fallback_probes(icon_dirs, icon);
            match fallback_lookup(icon, icon_dirs, found) {
                Some(p) => exists|i: int|
                    0 <= i < probes.len() && probes[i] == p && answer(found, i) && forall|j: int|
                        0 <= j < i ==> !answer(found, j),
                None => forall|i: int| 0 <= i < probes.len() ==> !answer(found, i),
            }
        }),
{
    let probes = fallback_probes(icon_dirs, icon);
    lemma_first_answer_is_first(found, probes.len() as int);
}

/// The nearest-size search keeps the found file of the nearest directory:
/// no found file among the first `m` probes is nearer than the one kept, and
/// the one kept is the empty path at distance `i32::MAX` or the first found
/// probe at its distance.
pub proof fn nearest_is_first_nearest(
    probes: Seq<(Seq<char>, int)>,
    found: Seq<bool>,
    subdirs: Seq<Directory>,
    size: int,
    scale: int,
    m: int,
)
    requires
        0 <= m <= probes.len(),
    ensures
        ({
            let best = nearest(probes, found, subdirs, size, scale, m);
            &&& best.1 <= i32::MAX
            &&& forall|i: int|
                0 <= i < m && answer(found, i) ==> best.1 <= size_distance(
                    subdirs[probes[i].1],
                    size,
                    scale,
                )
            &&& (best.0 == Seq::<char>::empty() && best.1 == i32::MAX) || exists|i: int|
                0 <= i < m && answer(found, i) && probes[i].0 == best.0 && size_distance(
                    subdirs[probes[i].1],
                    size,
                    scale,
                ) == best.1 && forall|j: int|
                    0 <= j < i && answer(found, j) ==> size_distance(
                        subdirs[probes[j].1],
                        size,
                        scale,
                    ) > best.1
        }),
    decreases m,
{
    if m > 0 {
        nearest_is_first_nearest(probes, found, subdirs, size, scale, m - 1);
        let prev = nearest(probes, found, subdirs, size, scale, m - 1);
        let dist = size_distance(subdirs[probes[m - 1].1], size, scale);
        if answer(found, m - 1) && dist < prev.1 {
            assert forall|j: int| 0 <= j < m - 1 && answer(found, j) implies size_distance(
                subdirs[probes[j].1],
                size,
                scale,
            ) > dist by {}
        }
    }
}

/// A lookup gives a file that was found, or nothing: the first exact-size
/// probe that is a file (where the theme directory exists), or a nearest-size
/// probe that is a file. It gives nothing exactly when the theme has no
/// sub-directories, or no exact-size probe is found and no nearest-size probe
/// that is a file lies within `i32::MAX` of the wanted size; in particular
/// when no probe is a file.
pub proof fn lookup_gives_a_found_probe(
    icon: Seq<char>,
    size: int,
    scale: int,
    theme: IconTheme,
    dirs: Seq<DirList>,
    icon_dirs: Seq<Seq<char>>,
    dir_exists: bool,
    exact_found: Seq<bool>,
    near_found: Seq<bool>,
)
    ensures
        ({
            let r = icon_lookup(icon, size, scale, theme, dirs, icon_dirs, dir_exists, exact_found, near_found);
            let exact = exact_of(theme, dirs, icon, size, scale);
            let near = near_of(theme, icon_dirs, icon);
            &&& r matches Some(p) ==> {
                ||| dir_exists && exists|i: int| 0 <= i < exact.len() && exact[i] == p && answer(exact_found, i)
                ||| exists|i: int| 0 <= i < near.len() && near[i].0 == p && answer(near_found, i)
            }
            &&& (r is None <==> (theme.directories is None || (!exact_hit(
                dir_exists,
                exact_found,
                exact.len() as int,
            ) && forall|i: int|
                0 <= i < near.len() && #[trigger] answer(near_found, i) ==> size_distance(
                    subdirs_of(theme)[near[i].1],
                    size,
                    scale,
                ) >= i32::MAX)))
        }),
{
    if theme.directories is Some {
        let exact = exact_of(theme, dirs, icon, size, scale);
        let near = near_of(theme, icon_dirs, icon);
        lemma_first_answer_is_first(exact_found, exact.len() as int);
        nearest_is_first_nearest(near, near_found, subdirs_of(theme), size, scale, near.len() as int);
    }
}

/// Where the theme directory exists and an exact-size probe is a file, the
/// lookup gives the first exact-size probe that is a file, whatever the
/// nearest-size probes answer.
pub proof fn exact_size_comes_first(
    icon: Seq<char>,
    size: int,
    scale: int,
    theme: IconTheme,
    dirs: Seq<DirList>,
    icon_dirs: Seq<Seq<char>>,
    exact_found: Seq<bool>,
    near_found: Seq<bool>,
    i: int,
)
    requires
        theme.directories is Some,
        0 <= i < exact_of(theme, dirs, icon, size, scale).len(),
        i < exact_found.len() && exact_found[i],
        forall|j: int| 0 <= j < i ==> !(j < exact_found.len() && #[trigger] exact_found[j]),
    ensures
        icon_lookup(icon, size, scale, theme, dirs, icon_dirs, true, exact_found, near_found) == Some(
            exact_of(theme, dirs, icon, size, scale)[i],
        ),
{
    let exact = exact_of(theme, dirs, icon, size, scale);
    lemma_first_answer_is_first(exact_found, exact.len() as int);
    assert(answer(exact_found, i));
    if let Some(k) = first_answer(exact_found, exact.len() as int) {
        if k < i {
            assert(answer(exact_found, k));
            assert(exact_found[k]);
        }
        assert(!(i < k));
    }
}

/// Where no exact-size probe counts (the theme directory is missing, or none
/// of its exact-size probes is a file), the lookup gives the nearest-size probe
/// that is a file and whose sub-directory is nearest the wanted size, the first
/// of them where several are as near; it gives nothing when no such probe is
/// nearer than `i32::MAX`.
pub proof fn nearest_size_comes_next(
    icon: Seq<char>,
    size: int,
    scale: int,
    theme: IconTheme,
    dirs: Seq<DirList>,
    icon_dirs: Seq<Seq<char>>,
    dir_exists: bool,
    exact_found: Seq<bool>,
    near_found: Seq<bool>,
)
    requires
        theme.directories is Some,
        dir_exists ==> forall|j: int|
            0 <= j < exact_of(theme, dirs, icon, size, scale).len() ==> !(j < exact_found.len()
                && #[trigger] exact_found[j]),
    ensures
        ({
            let near = near_of(theme, icon_dirs, icon);
            let subdirs = theme.directories->0@;
            let dist = |i: int| size_distance(subdirs[near[i].1], size, scale);
            let found = |i: int| i < near_found.len() && near_found[i];
            match icon_lookup(icon, size, scale, theme, dirs, icon_dirs, dir_exists, exact_found, near_found) {
                Some(p) => exists|i: int|
                    #![trigger near[i]]
                    0 <= i < near.len() && found(i) && near[i].0 == p && dist(i) < i32::MAX && (forall|j: int|
                        #![trigger near[j]]
                        0 <= j < near.len() && found(j) ==> dist(i) <= dist(j)) && (forall|j: int|
                        #![trigger near[j]]
                        0 <= j < i && found(j) ==> dist(i) < dist(j)),
                None => forall|j: int|
                    #![trigger near[j]]
                    0 <= j < near.len() && found(j) ==> dist(j) >= i32::MAX,
            }
        }),
{
    let exact = exact_of(theme, dirs, icon, size, scale);
    let near = near_of(theme, icon_dirs, icon);
    lemma_first_answer_is_first(exact_found, exact.len() as int);
    if dir_exists {
        if let Some(k) = first_answer(exact_found, exact.len() as int) {
            assert(answer(exact_found, k));
            assert(exact_found[k]);
        }
    }
    nearest_is_first_nearest(near, near_found, subdirs_of(theme), size, scale, near.len() as int);
    let best = nearest(near, near_found, subdirs_of(theme), size, scale, near.len() as int);
    if best.1 < i32::MAX {
        let i = choose|i: int|
            0 <= i < near.len() && answer(near_found, i) && near[i].0 == best.0 && size_distance(
                subdirs_of(theme)[near[i].1],
                size,
                scale,
            ) == best.1 && forall|j: int|
                0 <= j < i && answer(near_found, j) ==> size_distance(
                    subdirs_of(theme)[near[j].1],
                    size,
                    scale,
                ) > best.1;
        assert(near[i] == near[i]);
        assert forall|j: int| #![trigger near[j]] 0 <= j < near.len() && (j < near_found.len() && near_found[j]) implies size_distance(subdirs_of(theme)[near[i].1], size, scale) <= size_distance(subdirs_of(theme)[near[j].1], size, scale) by {
            assert(answer(near_found, j));
        }
        assert forall|j: int| #![trigger near[j]] 0 <= j < i && (j < near_found.len() && near_found[j]) implies size_distance(subdirs_of(theme)[near[i].1], size, scale) < size_distance(subdirs_of(theme)[near[j].1], size, scale) by {
            assert(answer(near_found, j));
        }
    } else {
        assert forall|j: int| #![trigger near[j]] 0 <= j < near.len() && (j < near_found.len() && near_found[j]) implies size_distance(subdirs_of(theme)[near[j].1], size, scale) >= i32::MAX by {
            assert(answer(near_found, j));
        }
    }
}

/// The un-themed lookup probes, for each icon directory in order, the files
/// `icon.png`, `icon.svg` and `icon.xpm` directly under it, in that order.
pub proof fn fallback_probes_each_directory_in_order(icon_dirs: Seq<Seq<char>>, icon: Seq<char>)
    ensures
        fallback_probes(icon_dirs, icon).len() == 3 * icon_dirs.len(),
        forall|d: int|
            #![trigger icon_dirs[d]]
            0 <= d < icon_dirs.len() ==> {
                &&& fallback_probes(icon_dirs, icon)[3 * d] == joined(
                    icon_dirs[d],
                    icon + seq!['.', 'p', 'n', 'g'],
                )
                &&& fallback_probes(icon_dirs, icon)[3 * d + 1] == joined(
                    icon_dirs[d],
                    icon + seq!['.', 's', 'v', 'g'],
                )
                &&& fallback_probes(icon_dirs, icon)[3 * d + 2] == joined(
                    icon_dirs[d],
                    icon + seq!['.', 'x', 'p', 'm'],
                )
            },
    decreases icon_dirs.len(),
{
    if icon_dirs.len() > 0 {
        let front = icon_dirs.drop_last();
        fallback_probes_each_directory_in_order(front, icon);
        let probes = fallback_probes(icon_dirs, icon);
        let before = fallback_probes(front, icon);
        assert(probes == before + ext_paths(icon_dirs.last(), icon));
        assert forall|d: int| #![trigger icon_dirs[d]] 0 <= d < icon_dirs.len() implies {
            &&& probes[3 * d] == joined(icon_dirs[d], icon + seq!['.', 'p', 'n', 'g'])
            &&& probes[3 * d + 1] == joined(icon_dirs[d], icon + seq!['.', 's', 'v', 'g'])
            &&& probes[3 * d + 2] == joined(icon_dirs[d], icon + seq!['.', 'x', 'p', 'm'])
        } by {
            if d < icon_dirs.len() - 1 {
                assert(front[d] == icon_dirs[d]);
            } else {
                assert(extensions()[0] =~= seq!['.', 'p', 'n', 'g']);
                assert(extensions()[1] =~= seq!['.', 's', 'v', 'g']);
                assert(extensions()[2] =~= seq!['.', 'x', 'p', 'm']);
            }
        }
    }
}

proof fn lemma_group_paths(icon_dirs: Seq<Seq<char>>, theme_name: Seq<char>, sub: Seq<char>, icon: Seq<char>)
    ensures
        forall|i: int|
            0 <= i < near_group(icon_dirs, theme_name, sub, icon).len() ==> exists|d: int, e: int|
                0 <= d < icon_dirs.len() && 0 <= e < 3 && #[trigger] near_group(
                    icon_dirs,
                    theme_name,
                    sub,
                    icon,
                )[i] == joined(joined(joined(icon_dirs[d], theme_name), sub), icon + extensions()[e]),
    decreases icon_dirs.len(),
{
    if icon_dirs.len() > 0 {
        let front = icon_dirs.drop_last();
        lemma_group_paths(front, theme_name, sub, icon);
        lemma_group_len(front, theme_name, sub, icon);
        let g = near_group(icon_dirs, theme_name, sub, icon);
        let gf = near_group(front, theme_name, sub, icon);
        let last = icon_dirs.len() - 1;
        assert forall|i: int| 0 <= i < g.len() implies exists|d: int, e: int|
            0 <= d < icon_dirs.len() && 0 <= e < 3 && #[trigger] g[i] == joined(
                joined(joined(icon_dirs[d], theme_name), sub),
                icon + extensions()[e],
            ) by {
            if i < gf.len() {
                assert(g[i] == gf[i]);
                let (d, e) = choose|d: int, e: int|
                    0 <= d < front.len() && 0 <= e < 3 && #[trigger] gf[i] == joined(
                        joined(joined(front[d], theme_name), sub),
                        icon + extensions()[e],
                    );
                assert(front[d] == icon_dirs[d]);
            } else {
                let e = i - gf.len();
                assert(g[i] == joined(joined(joined(icon_dirs[last], theme_name), sub), icon + extensions()[e]));
            }
        }
    }
}

/// The nearest-size search probes the sub-directories in order: each probe
/// carries the index of a sub-directory of the theme, the indices never go
/// down along the probes, and each probe is an icon file `icon` with one of
/// the extensions in that sub-directory of the theme under one of the icon
/// directories.
pub proof fn nearest_probes_follow_the_subdirectories(
    subdirs: Seq<Directory>,
    icon_dirs: Seq<Seq<char>>,
    theme_name: Seq<char>,
    icon: Seq<char>,
)
    ensures
        ({
            let near = near_probes(subdirs, icon_dirs, theme_name, icon);
            &&& forall|i: int|
                #![trigger near[i]]
                0 <= i < near.len() ==> 0 <= near[i].1 < subdirs.len() && exists|d: int, e: int|
                    0 <= d < icon_dirs.len() && 0 <= e < 3 && near[i].0 == joined(
                        joined(joined(#[trigger] icon_dirs[d], theme_name), subdir_name(subdirs[near[i].1])),
                        icon + #[trigger] extensions()[e],
                    )
            &&& forall|i: int, j: int|
                #![trigger near[i], near[j]]
                0 <= i <= j < near.len() ==> near[i].1 <= near[j].1
        }),
    decreases subdirs.len(),
{
    if subdirs.len() > 0 {
        let front = subdirs.drop_last();
        let k = subdirs.len() - 1;
        nearest_probes_follow_the_subdirectories(front, icon_dirs, theme_name, icon);
        let nf = near_probes(front, icon_dirs, theme_name, icon);
        let g = near_group(icon_dirs, theme_name, subdir_name(subdirs[k]), icon);
        let near = near_probes(subdirs, icon_dirs, theme_name, icon);
        assert(subdirs.last() == subdirs[k]);
        assert(near == nf + g.map_values(|p: Seq<char>| (p, k)));
        lemma_group_paths(icon_dirs, theme_name, subdir_name(subdirs[k]), icon);
        assert forall|i: int| #![trigger near[i]] 0 <= i < near.len() implies 0 <= near[i].1 < subdirs.len()
            && exists|d: int, e: int|
            0 <= d < icon_dirs.len() && 0 <= e < 3 && near[i].0 == joined(
                joined(joined(#[trigger] icon_dirs[d], theme_name), subdir_name(subdirs[near[i].1])),
                icon + #[trigger] extensions()[e],
            ) by {
            if i < nf.len() {
                assert(near[i] == nf[i]);
                assert(front[nf[i].1] == subdirs[nf[i].1]);
            } else {
                let t = i - nf.len();
                assert(near[i] == (g[t], k));
                assert(exists|d: int, e: int|
                    0 <= d < icon_dirs.len() && 0 <= e < 3 && #[trigger] g[t] == joined(
                        joined(joined(icon_dirs[d], theme_name), subdir_name(subdirs[k])),
                        icon + extensions()[e],
                    ));
            }
        }
        assert forall|i: int, j: int| #![trigger near[i], near[j]] 0 <= i <= j < near.len() implies near[i].1
            <= near[j].1 by {
            if j < nf.len() {
                assert(near[i] == nf[i] && near[j] == nf[j]);
            } else if i < nf.len() {
                assert(near[i] == nf[i]);
                assert(near[j].1 == k);
            } else {
                assert(near[i].1 == k && near[j].1 == k);
            }
        }
    }
}

/// `p` is the icon file `icon`, with one of the extensions, in a
/// sub-directory of `dir` that is among `subdirs` and suits the wanted size and
/// scale.
pub open spec fn in_suiting_subdir(
    subdirs: Seq<Directory>,
    dir: Seq<char>,
    icon: Seq<char>,
    size: int,
    scale: int,
    p: Seq<char>,
) -> bool {
    exists|k: int, e: int|
        #![trigger subdirs[k], extensions()[e]]
        0 <= k < subdirs.len() && 0 <= e < 3 && size_matches(subdirs[k], size, scale) && p == joined(
            joined(dir, subdir_name(subdirs[k])),
            icon + extensions()[e],
        )
}

proof fn lemma_exact_sound(subdirs: Seq<Directory>, dir: Seq<char>, icon: Seq<char>, size: int, scale: int)
    ensures
        forall|i: int|
            0 <= i < exact_probes(subdirs, dir, icon, size, scale).len() ==> in_suiting_subdir(
                subdirs,
                dir,
                icon,
                size,
                scale,
                #[trigger] exact_probes(subdirs, dir, icon, size, scale)[i],
            ),
    decreases subdirs.len(),
{
    if subdirs.len() > 0 {
        let front = subdirs.drop_last();
        let k0 = subdirs.len() - 1;
        lemma_exact_sound(front, dir, icon, size, scale);
        let ef = exact_probes(front, dir, icon, size, scale);
        let exact = exact_probes(subdirs, dir, icon, size, scale);
        assert(subdirs.last() == subdirs[k0]);
        let tail = if size_matches(subdirs[k0], size, scale) {
            ext_paths(joined(dir, subdir_name(subdirs[k0])), icon)
        } else {
            Seq::<Seq<char>>::empty()
        };
        assert(exact == ef + tail);
        assert forall|i: int| 0 <= i < exact.len() implies in_suiting_subdir(
            subdirs,
            dir,
            icon,
            size,
            scale,
            #[trigger] exact[i],
        ) by {
            if i < ef.len() {
                assert(exact[i] == ef[i]);
                assert(in_suiting_subdir(front, dir, icon, size, scale, ef[i]));
                let (k, e) = choose|k: int, e: int|
                    #![trigger front[k], extensions()[e]]
                    0 <= k < front.len() && 0 <= e < 3 && size_matches(front[k], size, scale) && ef[i]
                        == joined(joined(dir, subdir_name(front[k])), icon + extensions()[e]);
                assert(front[k] == subdirs[k]);
                assert(subdirs[k] == subdirs[k] && extensions()[e] == extensions()[e]);
            } else {
                let e = i - ef.len();
                assert(exact[i] == tail[e]);
                assert(subdirs[k0] == subdirs[k0] && extensions()[e] == extensions()[e]);
            }
        }
    }
}

proof fn lemma_exact_complete(subdirs: Seq<Directory>, dir: Seq<char>, icon: Seq<char>, size: int, scale: int, k: int, e: int)
    requires
        0 <= k < subdirs.len(),
        0 <= e < 3,
        size_matches(subdirs[k], size, scale),
    ensures
        exact_probes(subdirs, dir, icon, size, scale).contains(
            joined(joined(dir, subdir_name(subdirs[k])), icon + extensions()[e]),
        ),
    decreases subdirs.len(),
{
    let front = subdirs.drop_last();
    let k0 = subdirs.len() - 1;
    let ef = exact_probes(front, dir, icon, size, scale);
    let exact = exact_probes(subdirs, dir, icon, size, scale);
    let p = joined(joined(dir, subdir_name(subdirs[k])), icon + extensions()[e]);
    assert(subdirs.last() == subdirs[k0]);
    if k < k0 {
        assert(front[k] == subdirs[k]);
        lemma_exact_complete(front, dir, icon, size, scale, k, e);
        let i = choose|i: int| 0 <= i < ef.len() && ef[i] == p;
        if size_matches(subdirs[k0], size, scale) {
            assert(exact == ef + ext_paths(joined(dir, subdir_name(subdirs[k0])), icon));
        } else {
            assert(exact == ef + Seq::<Seq<char>>::empty());
        }
        assert(exact[i] == p);
    } else {
        let tail = ext_paths(joined(dir, subdir_name(subdirs[k0])), icon);
        assert(exact == ef + tail);
        assert(exact[ef.len() + e] == tail[e]);
        assert(exact[ef.len() + e] == p);
    }
}

/// The exact-size search probes only the sub-directories that suit the wanted
/// size and scale, and every one of them: each probe is the icon file `icon`
/// with one of the extensions in such a sub-directory of the theme directory,
/// and each such file is probed.
pub proof fn exact_probes_are_the_suiting_subdirectories(
    subdirs: Seq<Directory>,
    dir: Seq<char>,
    icon: Seq<char>,
    size: int,
    scale: int,
)
    ensures
        forall|i: int|
            0 <= i < exact_probes(subdirs, dir, icon, size, scale).len() ==> in_suiting_subdir(
                subdirs,
                dir,
                icon,
                size,
                scale,
                #[trigger] exact_probes(subdirs, dir, icon, size, scale)[i],
            ),
        forall|k: int, e: int|
            0 <= k < subdirs.len() && 0 <= e < 3 && size_matches(#[trigger] subdirs[k], size, scale)
                ==> exact_probes(subdirs, dir, icon, size, scale).contains(
                joined(joined(dir, subdir_name(subdirs[k])), icon + #[trigger] extensions()[e]),
            ),
{
    lemma_exact_sound(subdirs, dir, icon, size, scale);
    assert forall|k: int, e: int|
        0 <= k < subdirs.len() && 0 <= e < 3 && size_matches(#[trigger] subdirs[k], size, scale)
            implies exact_probes(subdirs, dir, icon, size, scale).contains(
            joined(joined(dir, subdir_name(subdirs[k])), icon + #[trigger] extensions()[e]),
        ) by {
        lemma_exact_complete(subdirs, dir, icon, size, scale, k, e);
    }
}

} // verus!
