//! Finding theme directories by name in the list of known theme directories.
use vstd::prelude::*;
use crate::path::{components, file_name, path_components, path_file_name, views};
use crate::text::{alphabetic_only, keep_alphabetic, lowercase, same_text, to_lowercase};
use crate::theme::{index_file_name, DirList};
use crate::path::joined;

verus! {

/// Path components that say nothing about a theme's name.
pub open spec fn is_generic_part(p: Seq<char>) -> bool {
    ||| p == seq!['u', 's', 'r']
    ||| p == seq!['s', 'h', 'a', 'r', 'e']
    ||| p == seq!['/']
    ||| p == seq!['h', 'o', 'm', 'e']
    ||| p == seq!['i', 'c', 'o', 'n', 's']
}

/// A component of `dir` other than the generic ones equals `name` once both are
/// lowercased.
pub open spec fn dir_is_named(dir: Seq<char>, name: Seq<char>) -> bool {
    exists|j: int|
        0 <= j < components(dir).len() && !is_generic_part(#[trigger] components(dir)[j])
            && lowercase(components(dir)[j]) == lowercase(name)
}

/// The first entry of `dirs` whose directory is named `name`.
pub open spec fn first_dir_named(dirs: Seq<DirList>, name: Seq<char>) -> Option<DirList>
    decreases dirs.len(),
{
    if dirs.len() == 0 {
        None
    } else if dir_is_named(dirs[0].dir@, name) {
        Some(dirs[0])
    } else {
        first_dir_named(dirs.drop_first(), name)
    }
}

/// The first entry of `dirs` whose directory's final name, reduced to its
/// alphabetic characters, matches `name` reduced the same way, and whose theme
/// name matches `name`, both ignoring case; its directory.
pub open spec fn first_theme_dir(dirs: Seq<DirList>, name: Seq<char>) -> Option<Seq<char>>
    decreases dirs.len(),
{
    if dirs.len() == 0 {
        None
    } else if holds_theme(dirs[0], name) {
        Some(dirs[0].dir@)
    } else {
        first_theme_dir(dirs.drop_first(), name)
    }
}

/// `d` is the directory of theme `name`: see `first_theme_dir`.
pub open spec fn holds_theme(d: DirList, name: Seq<char>) -> bool {
    &&& file_name(d.dir@) is Some
    &&& lowercase(alphabetic_only(file_name(d.dir@)->0)) == lowercase(alphabetic_only(name))
    &&& lowercase(d.theme@) == lowercase(name)
}

/// The index file of the first theme directory named `place`.
pub open spec fn first_index_theme(dirs: Seq<DirList>, place: Seq<char>) -> Option<Seq<char>> {
    match first_dir_named(dirs, place) {
        Some(d) => Some(joined(d.dir@, index_file_name())),
        None => None,
    }
}

fn is_generic(part: &str) -> (b: bool)
    ensures
        b == is_generic_part(part@),
{
    let usr = "usr";
    let share = "share";
    let root = "/";
    let home = "home";
    let icons = "icons";
    proof {
        reveal_strlit("usr");
        reveal_strlit("share");
        reveal_strlit("/");
        reveal_strlit("home");
        reveal_strlit("icons");
        assert(usr@ =~= seq!['u', 's', 'r']);
        assert(share@ =~= seq!['s', 'h', 'a', 'r', 'e']);
        assert(root@ =~= seq!['/']);
        assert(home@ =~= seq!['h', 'o', 'm', 'e']);
        assert(icons@ =~= seq!['i', 'c', 'o', 'n', 's']);
    }
    same_text(part, usr) || same_text(part, share) || same_text(part, root) || same_text(part, home)
        || same_text(part, icons)
}

/// Whether a component of `dir`, other than the generic ones, is `name` ignoring case.
fn names_dir(dir: &str, lower_name: &String, Ghost(name): Ghost<Seq<char>>) -> (b: bool)
    requires
        lower_name@ == lowercase(name),
    ensures
        b == dir_is_named(dir@, name),
{
    let parts = path_components(dir);
    let ghost comps = components(dir@);
    let k = parts.len();
    let mut j: usize = 0;
    while j < k
        invariant
            k == parts@.len(),
            views(parts@) == comps,
            comps == components(dir@),
            lower_name@ == lowercase(name),
            j <= k,
            forall|i: int|
                0 <= i < j ==> !(!is_generic_part(#[trigger] comps[i]) && lowercase(comps[i])
                    == lowercase(name)),
        decreases k - j,
    {
        let part = &parts[j];
        assert(part@ == comps[j as int]);
        if !is_generic(part.as_str()) {
            let lower = to_lowercase(part.as_str());
            if lower == *lower_name {
                return true;
            }
        }
        j = j + 1;
    }
    false
}

/// The first entry of `dir_list_vector` whose directory has a component,
/// other than `usr`, `share`, `/`, `home` and `icons`, equal to `name` when
/// both are lowercased.
pub fn find_by_name(name: String, dir_list_vector: Vec<DirList>) -> (r: Option<DirList>)
    ensures
        r == first_dir_named(dir_list_vector@, name@),
{
    let ghost dirs = dir_list_vector@;
    let mut owned = dir_list_vector;
    if owned.is_empty() {
        return None;
    }
    let lower_name = to_lowercase(name.as_str());
    let n = owned.len();
    let mut i: usize = 0;
    assert(dirs.skip(0) =~= dirs);
    while i < n
        invariant
            n == dirs.len(),
            owned@ == dirs,
            dirs == dir_list_vector@,
            lower_name@ == lowercase(name@),
            i <= n,
            first_dir_named(dirs, name@) == first_dir_named(dirs.skip(i as int), name@),
        decreases n - i,
    {
        proof {
            assert(dirs.skip(i as int)[0] == dirs[i as int]);
            assert(dirs.skip(i as int).drop_first() =~= dirs.skip(i + 1));
        }
        if names_dir(owned[i].dir.as_str(), &lower_name, Ghost(name@)) {
            assert(first_dir_named(dirs.skip(i as int), name@) == Some(dirs[i as int]));
            let d = owned.remove(i);
            assert(d == dirs[i as int]);
            assert(first_dir_named(dirs, name@) == Some(d));
            return Some(d);
        }
        i = i + 1;
    }
    assert(dirs.skip(n as int) =~= Seq::<DirList>::empty());
    None
}

/// The directory of the first entry of `dir_list_vector` that holds theme
/// `name`: its directory's final name, keeping only alphabetic characters, is
/// `name` kept the same way, and its theme name is `name`, both ignoring case.
pub fn look_for_theme_directory(name: String, dir_list_vector: Vec<DirList>) -> (r: Option<String>)
    ensures
        match r {
            Some(p) => first_theme_dir(dir_list_vector@, name@) == Some(p@),
            None => first_theme_dir(dir_list_vector@, name@) is None,
        },
{
    let ghost dirs = dir_list_vector@;
    let lower_name = to_lowercase(name.as_str());
    let trim_name = keep_alphabetic(name.as_str());
    let lower_trim_name = to_lowercase(trim_name.as_str());
    let n = dir_list_vector.len();
    let mut i: usize = 0;
    assert(dirs.skip(0) =~= dirs);
    while i < n
        invariant
            n == dirs.len(),
            dir_list_vector@ == dirs,
            lower_name@ == lowercase(name@),
            lower_trim_name@ == lowercase(alphabetic_only(name@)),
            i <= n,
            first_theme_dir(dirs, name@) == first_theme_dir(dirs.skip(i as int), name@),
        decreases n - i,
    {
        proof {
            assert(dirs.skip(i as int)[0] == dirs[i as int]);
            assert(dirs.skip(i as int).drop_first() =~= dirs.skip(i + 1));
        }
        let dir_list = &dir_list_vector[i];
        let fname = path_file_name(dir_list.dir.as_str());
        if let Some(fname) = fname {
            let trim_fname = keep_alphabetic(fname.as_str());
            let lower_trim_fname = to_lowercase(trim_fname.as_str());
            if lower_trim_fname == lower_trim_name {
                let nm = to_lowercase(dir_list.theme.as_str());
                if nm == lower_name {
                    return Some(dir_list.dir.clone());
                }
            }
        }
        i = i + 1;
    }
    assert(dirs.skip(n as int) =~= Seq::<DirList>::empty());
    None
}

/// The path of the `index.theme` file of the first theme directory named `place`
/// (see `find_by_name`).
pub fn get_first_index_theme(place: String, dir_list_vector: Vec<DirList>) -> (r: Option<String>)
    ensures
        match r {
            Some(p) => first_index_theme(dir_list_vector@, place@) == Some(p@),
            None => first_index_theme(dir_list_vector@, place@) is None,
        },
{
    let dirlist = find_by_name(place, dir_list_vector);
    if let Some(d) = dirlist {
        return Some(d.index());
    }
    None
}

/// Theme names are matched ignoring case: two names with the same lowercase
/// form find the same theme directory and the same index file.
pub proof fn theme_names_ignore_case(dirs: Seq<DirList>, a: Seq<char>, b: Seq<char>)
    requires
        lowercase(a) == lowercase(b),
    ensures
        first_dir_named(dirs, a) == first_dir_named(dirs, b),
        first_index_theme(dirs, a) == first_index_theme(dirs, b),
    decreases dirs.len(),
{
    if dirs.len() > 0 {
        theme_names_ignore_case(dirs.drop_first(), a, b);
        assert(dir_is_named(dirs[0].dir@, a) == dir_is_named(dirs[0].dir@, b));
    }
}

/// `find_by_name` gives the first entry of the list whose directory has a path
/// component, other than the generic ones (`usr`, `share`, `/`, `home`,
/// `icons`), that equals the name once both are lowercased; the theme names of
/// the entries play no part. There is none when no entry has such a component.
pub proof fn find_by_name_takes_the_first_named_directory(dirs: Seq<DirList>, name: Seq<char>)
    ensures
        match first_dir_named(dirs, name) {
            Some(d) => exists|i: int|
                0 <= i < dirs.len() && #[trigger] dirs[i] == d && (exists|k: int|
                    0 <= k < components(d.dir@).len() && !is_generic_part(
                        #[trigger] components(d.dir@)[k],
                    ) && lowercase(components(d.dir@)[k]) == lowercase(name)) && forall|j: int, k: int|
                    0 <= j < i && 0 <= k < components(dirs[j].dir@).len() && !is_generic_part(
                        #[trigger] components(dirs[j].dir@)[k],
                    ) ==> lowercase(components(dirs[j].dir@)[k]) != lowercase(name),
            None => forall|j: int, k: int|
                0 <= j < dirs.len() && 0 <= k < components(dirs[j].dir@).len() && !is_generic_part(
                    #[trigger] components(dirs[j].dir@)[k],
                ) ==> lowercase(components(dirs[j].dir@)[k]) != lowercase(name),
        },
    decreases dirs.len(),
{
    if dirs.len() > 0 {
        let rest = dirs.drop_first();
        find_by_name_takes_the_first_named_directory(rest, name);
        if !dir_is_named(dirs[0].dir@, name) {
            assert forall|j: int| 0 < j < dirs.len() implies #[trigger] dirs[j] == rest[j - 1] by {}
            match first_dir_named(rest, name) {
                Some(d) => {
                    let i = choose|i: int|
                        0 <= i < rest.len() && #[trigger] rest[i] == d && (exists|k: int|
                            0 <= k < components(d.dir@).len() && !is_generic_part(
                                #[trigger] components(d.dir@)[k],
                            ) && lowercase(components(d.dir@)[k]) == lowercase(name)) && forall|
                            j: int,
                            k: int,
                        |
                            0 <= j < i && 0 <= k < components(rest[j].dir@).len()
                                && !is_generic_part(#[trigger] components(rest[j].dir@)[k])
                                ==> lowercase(components(rest[j].dir@)[k]) != lowercase(name);
                    assert(dirs[i + 1] == d);
                    assert forall|j: int, k: int|
                        0 <= j < i + 1 && 0 <= k < components(dirs[j].dir@).len() && !is_generic_part(
                            #[trigger] components(dirs[j].dir@)[k],
                        ) implies lowercase(components(dirs[j].dir@)[k]) != lowercase(name) by {
                        if j > 0 {
                            assert(dirs[j] == rest[j - 1]);
                            assert(components(rest[j - 1].dir@)[k] == components(dirs[j].dir@)[k]);
                        }
                    }
                },
                None => {
                    assert forall|j: int, k: int|
                        0 <= j < dirs.len() && 0 <= k < components(dirs[j].dir@).len() && !is_generic_part(
                            #[trigger] components(dirs[j].dir@)[k],
                        ) implies lowercase(components(dirs[j].dir@)[k]) != lowercase(name) by {
                        if j > 0 {
                            assert(dirs[j] == rest[j - 1]);
                            assert(components(rest[j - 1].dir@)[k] == components(dirs[j].dir@)[k]);
                        }
                    }
                },
            }
        } else {
            let k = choose|k: int|
                0 <= k < components(dirs[0].dir@).len() && !is_generic_part(
                    #[trigger] components(dirs[0].dir@)[k],
                ) && lowercase(components(dirs[0].dir@)[k]) == lowercase(name);
            assert(components(dirs[0].dir@)[k] == components(dirs[0].dir@)[k]);
        }
    }
}

/// `look_for_theme_directory` gives the directory of the first entry of the
/// list that holds the theme: its directory's final name, keeping only
/// alphabetic characters, is the name kept the same way, and its theme name is
/// the name, both ignoring case. There is none when no entry holds it.
pub proof fn theme_directory_is_the_first_holding_the_theme(dirs: Seq<DirList>, name: Seq<char>)
    ensures
        match first_theme_dir(dirs, name) {
            Some(p) => exists|i: int|
                #![trigger dirs[i]]
                0 <= i < dirs.len() && dirs[i].dir@ == p && file_name(dirs[i].dir@) is Some
                    && lowercase(alphabetic_only(file_name(dirs[i].dir@)->0)) == lowercase(
                    alphabetic_only(name),
                ) && lowercase(dirs[i].theme@) == lowercase(name) && forall|j: int|
                    #![trigger dirs[j]]
                    0 <= j < i ==> !(file_name(dirs[j].dir@) is Some && lowercase(
                        alphabetic_only(file_name(dirs[j].dir@)->0),
                    ) == lowercase(alphabetic_only(name)) && lowercase(dirs[j].theme@)
                        == lowercase(name)),
            None => forall|j: int|
                #![trigger dirs[j]]
                0 <= j < dirs.len() ==> !(file_name(dirs[j].dir@) is Some && lowercase(
                    alphabetic_only(file_name(dirs[j].dir@)->0),
                ) == lowercase(alphabetic_only(name)) && lowercase(dirs[j].theme@) == lowercase(
                    name,
                )),
        },
    decreases dirs.len(),
{
    if dirs.len() > 0 {
        let rest = dirs.drop_first();
        theme_directory_is_the_first_holding_the_theme(rest, name);
        assert forall|j: int| 0 < j < dirs.len() implies #[trigger] dirs[j] == rest[j - 1] by {}
        if !holds_theme(dirs[0], name) {
            match first_theme_dir(rest, name) {
                Some(p) => {
                    let i = choose|i: int|
                        #![trigger rest[i]]
                        0 <= i < rest.len() && rest[i].dir@ == p && file_name(rest[i].dir@) is Some
                            && lowercase(alphabetic_only(file_name(rest[i].dir@)->0)) == lowercase(
                            alphabetic_only(name),
                        ) && lowercase(rest[i].theme@) == lowercase(name) && forall|j: int|
                            #![trigger rest[j]]
                            0 <= j < i ==> !(file_name(rest[j].dir@) is Some && lowercase(
                                alphabetic_only(file_name(rest[j].dir@)->0),
                            ) == lowercase(alphabetic_only(name)) && lowercase(rest[j].theme@)
                                == lowercase(name));
                    assert(dirs[i + 1].dir@ == p);
                    assert forall|j: int| #![trigger dirs[j]] 0 <= j < i + 1 implies !(file_name(
                        dirs[j].dir@,
                    ) is Some && lowercase(alphabetic_only(file_name(dirs[j].dir@)->0)) == lowercase(
                        alphabetic_only(name),
                    ) && lowercase(dirs[j].theme@) == lowercase(name)) by {
                        if j > 0 {
                            assert(dirs[j] == rest[j - 1]);
                        }
                    }
                },
                None => {
                    assert forall|j: int| #![trigger dirs[j]] 0 <= j < dirs.len() implies !(file_name(
                        dirs[j].dir@,
                    ) is Some && lowercase(alphabetic_only(file_name(dirs[j].dir@)->0)) == lowercase(
                        alphabetic_only(name),
                    ) && lowercase(dirs[j].theme@) == lowercase(name)) by {
                        if j > 0 {
                            assert(dirs[j] == rest[j - 1]);
                        }
                    }
                },
            }
        } else {
            assert(dirs[0].dir@ == dirs[0].dir@);
        }
    }
}

} // verus!
