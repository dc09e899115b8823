//! The user's icon theme: read from the KDE and GTK settings files, with the
//! `hicolor` theme as the default.
use vstd::prelude::*;
use crate::lookup::{first_index_theme, get_first_index_theme};
use crate::theme::DirList;

verus! {

#[verifier::external_type_specification]
#[verifier::external_body]
pub struct ExIni(tini::Ini);

#[verifier::external_type_specification]
#[verifier::external_body]
pub struct ExIniError(tini::Error);

/// What `tini::Ini::from_string` makes of a text: `None` where it reports an
/// error, else the value of each (section, key) pair.
pub uninterp spec fn ini_document(text: Seq<char>) -> Option<Map<(Seq<char>, Seq<char>), Seq<char>>>;

/// The value of each (section, key) pair that a parsed `tini::Ini` holds.
pub uninterp spec fn ini_entries(ini: tini::Ini) -> Map<(Seq<char>, Seq<char>), Seq<char>>;

/// Calls `tini::Ini::from_string`. Trusted: whether it succeeds, and what the
/// resulting document holds, are taken to be `ini_document` of the text, a
/// function of the text alone; the ini grammar itself is left unsaid.
#[verifier::external_body]
pub(crate) fn ini_from_string(text: &str) -> (r: Result<tini::Ini, tini::Error>)
    ensures
        match r {
            Ok(ini) => ini_document(text@) == Some(ini_entries(ini)),
            Err(_) => ini_document(text@) is None,
        },
{
    tini::Ini::from_string(text)
}

/// Calls `tini::Ini::get` for a `String`. Trusted: it gives the value stored
/// for the key in the section when there is one, and `None` otherwise (the
/// conversion of the stored text to a `String` cannot fail).
#[verifier::external_body]
pub(crate) fn ini_get(ini: &tini::Ini, section: &str, key: &str) -> (r: Option<String>)
    ensures
        match r {
            Some(v) => ini_entries(*ini).contains_key((section@, key@)) && ini_entries(
                *ini,
            )[(section@, key@)] == v@,
            None => !ini_entries(*ini).contains_key((section@, key@)),
        },
{
    ini.get::<String>(section, key)
}

/// The pieces of `s` between commas, in order: one piece when there is no
/// comma, and an empty piece before a leading or after a trailing comma, as
/// `str::split` with `","` gives them.
pub open spec fn comma_pieces(s: Seq<char>) -> Seq<Seq<char>>
    decreases s.len(),
{
    if s.len() == 0 {
        seq![s]
    } else {
        let rest = comma_pieces(s.drop_last());
        if s.last() == ',' {
            rest.push(Seq::<char>::empty())
        } else {
            rest.update(rest.len() - 1, rest.last().push(s.last()))
        }
    }
}

/// Whether `c` has the Unicode `White_Space` property, as `char::is_whitespace`
/// tests it.
pub open spec fn white_space(c: char) -> bool {
    ||| '\u{9}' <= c <= '\u{d}'
    ||| c == ' '
    ||| c == '\u{85}'
    ||| c == '\u{a0}'
    ||| c == '\u{1680}'
    ||| '\u{2000}' <= c <= '\u{200a}'
    ||| c == '\u{2028}'
    ||| c == '\u{2029}'
    ||| c == '\u{202f}'
    ||| c == '\u{205f}'
    ||| c == '\u{3000}'
}

/// `s` without its leading white space.
pub open spec fn trim_start(s: Seq<char>) -> Seq<char>
    decreases s.len(),
{
    if s.len() > 0 && white_space(s[0]) {
        trim_start(s.drop_first())
    } else {
        s
    }
}

/// `s` without its trailing white space.
pub open spec fn trim_end(s: Seq<char>) -> Seq<char>
    decreases s.len(),
{
    if s.len() > 0 && white_space(s.last()) {
        trim_end(s.drop_last())
    } else {
        s
    }
}

/// What `str::trim` gives: `s` without its leading and trailing white space.
pub open spec fn trimmed(s: Seq<char>) -> Seq<char> {
    trim_end(trim_start(s))
}

/// The items of a stored list value as `tini::Ini::get_vec` reads them: the
/// pieces between commas, each trimmed.
pub open spec fn ini_list_items(value: Seq<char>) -> Seq<Seq<char>> {
    comma_pieces(value).map_values(|p: Seq<char>| trimmed(p))
}

/// Calls `tini::Ini::get_vec` for `String` items. Trusted: where the key is
/// stored in the section, it gives the pieces of the stored value between
/// commas, each trimmed of leading and trailing Unicode white space (the
/// conversion of each item to a `String` cannot fail), and `None` otherwise.
#[verifier::external_body]
pub(crate) fn ini_get_list(ini: &tini::Ini, section: &str, key: &str) -> (r: Option<Vec<String>>)
    ensures
        match r {
            Some(v) => ini_entries(*ini).contains_key((section@, key@)) && crate::path::views(v@)
                == comma_pieces(ini_entries(*ini)[(section@, key@)]).map_values(
                |p: Seq<char>| trimmed(p),
            ),
            None => !ini_entries(*ini).contains_key((section@, key@)),
        },
{
    ini.get_vec::<String>(section, key)
}

/// The index file of the theme that the settings text `conf` names under
/// `item` in `section`: none when there is no text, it does not parse, it names
/// no theme there, or no theme directory has that name.
pub open spec fn config_theme_index(
    conf: Option<Seq<char>>,
    section: Seq<char>,
    item: Seq<char>,
    dirs: Seq<DirList>,
) -> Option<Seq<char>> {
    match conf {
        None => None,
        Some(text) => match ini_document(text) {
            None => None,
            Some(doc) => if doc.contains_key((section, item)) {
                first_index_theme(dirs, doc[(section, item)])
            } else {
                None
            },
        },
    }
}

/// The views of an optional string.
pub open spec fn opt_view(s: Option<String>) -> Option<Seq<char>> {
    match s {
        Some(x) => Some(x@),
        None => None,
    }
}

/// An optional value as a sequence of at most one.
pub open spec fn opt_seq(o: Option<Seq<char>>) -> Seq<Seq<char>> {
    match o {
        Some(x) => seq![x],
        None => Seq::<Seq<char>>::empty(),
    }
}

/// The index file of the theme that the settings text `conf` names under
/// `item` in `section` (see `config_theme_index`).
pub fn check_user_config(
    conf: Option<String>,
    section: &str,
    item: &str,
    dir_list_vector: Vec<DirList>,
) -> (r: Option<String>)
    ensures
        opt_view(r) == config_theme_index(opt_view(conf), section@, item@, dir_list_vector@),
{
    let text = match conf {
        Some(t) => t,
        None => return None,
    };
    let parsed = ini_from_string(text.as_str());
    if let Ok(conf) = parsed {
        let theme = ini_get(&conf, section, item);
        if let Some(themed) = theme {
            return get_first_index_theme(themed, dir_list_vector);
        }
    }
    None
}

/// The sections and keys that name the user's theme, in the order they are tried.
pub open spec fn kde_section() -> Seq<char> {
    seq!['I', 'c', 'o', 'n', 's']
}

pub open spec fn kde_key() -> Seq<char> {
    seq!['T', 'h', 'e', 'm', 'e']
}

pub open spec fn gtk_section() -> Seq<char> {
    seq!['S', 'e', 't', 't', 'i', 'n', 'g', 's']
}

pub open spec fn gtk_key() -> Seq<char> {
    seq![
        'g', 't', 'k', '-', 'i', 'c', 'o', 'n', '-', 't', 'h', 'e', 'm', 'e', '-', 'n', 'a', 'm', 'e'
    ]
}

/// The name of the default theme.
pub open spec fn hicolor() -> Seq<char> {
    seq!['h', 'i', 'c', 'o', 'l', 'o', 'r']
}

/// The index files that may describe the user's theme, most preferred first:
/// when the icon directories could be found, the themes named in the KDE
/// settings (`[Icons] Theme`), then in the GTK 3 and GTK 4 settings
/// (`[Settings] gtk-icon-theme-name`); last the `hicolor` theme.
pub open spec fn user_theme_candidates(
    icon_dirs_found: bool,
    kde: Option<Seq<char>>,
    gtk3: Option<Seq<char>>,
    gtk4: Option<Seq<char>>,
    dirs: Seq<DirList>,
) -> Seq<Seq<char>> {
    (if icon_dirs_found {
        opt_seq(config_theme_index(kde, kde_section(), kde_key(), dirs)) + opt_seq(
            config_theme_index(gtk3, gtk_section(), gtk_key(), dirs),
        ) + opt_seq(config_theme_index(gtk4, gtk_section(), gtk_key(), dirs))
    } else {
        Seq::<Seq<char>>::empty()
    }) + opt_seq(first_index_theme(dirs, hicolor()))
}

fn push_some(v: &mut Vec<String>, o: Option<String>)
    ensures
        crate::path::views(final(v)@) == crate::path::views(old(v)@) + opt_seq(opt_view(o)),
{
    match o {
        Some(x) => {
            v.push(x);
            assert(crate::path::views(v@) =~= crate::path::views(old(v)@) + seq![x@]);
        },
        None => {
            assert(crate::path::views(v@) =~= crate::path::views(old(v)@) + Seq::<
                Seq<char>,
            >::empty());
        },
    }
}

/// The index files that may describe the user's theme, most preferred first
/// (see `user_theme_candidates`): the user's theme is described by the first of
/// them that exists, and there is none when none exists.
///
/// `kde`, `gtk3` and `gtk4` are the texts of the KDE settings file and of the
/// GTK 3 and GTK 4 `settings.ini`, where they could be read.
pub fn user_theme(
    icon_dirs_found: bool,
    kde: Option<String>,
    gtk3: Option<String>,
    gtk4: Option<String>,
    dir_list_vector: Vec<DirList>,
) -> (r: Vec<String>)
    ensures
        crate::path::views(r@) == user_theme_candidates(
            icon_dirs_found,
            opt_view(kde),
            opt_view(gtk3),
            opt_view(gtk4),
            dir_list_vector@,
        ),
{
    let mut out: Vec<String> = Vec::new();
    let ghost dirs = dir_list_vector@;
    if icon_dirs_found {
        let icons = "Icons";
        let theme = "Theme";
        let settings = "Settings";
        let gtk_name = "gtk-icon-theme-name";
        proof {
            reveal_strlit("Icons");
            reveal_strlit("Theme");
            reveal_strlit("Settings");
            reveal_strlit("gtk-icon-theme-name");
            assert(icons@ =~= kde_section());
            assert(theme@ =~= kde_key());
            assert(settings@ =~= gtk_section());
            assert(gtk_name@ =~= gtk_key());
        }
        let d1 = dir_list_vector.clone();
        assert(d1@ =~= dirs);
        push_some(&mut out, check_user_config(kde, icons, theme, d1));
        let d2 = dir_list_vector.clone();
        assert(d2@ =~= dirs);
        push_some(&mut out, check_user_config(gtk3, settings, gtk_name, d2));
        let d3 = dir_list_vector.clone();
        assert(d3@ =~= dirs);
        push_some(&mut out, check_user_config(gtk4, settings, gtk_name, d3));
    }
    let default_theme = "hicolor";
    proof {
        reveal_strlit("hicolor");
        assert(default_theme@ =~= hicolor());
    }
    push_some(&mut out, get_first_index_theme(default_theme.to_owned(), dir_list_vector));
    assert(crate::path::views(out@) =~= user_theme_candidates(
        icon_dirs_found,
        opt_view(kde),
        opt_view(gtk3),
        opt_view(gtk4),
        dirs,
    ));
    out
}

/// The user's theme is looked for in this order: the theme named in the KDE
/// settings under `[Icons] Theme`, then in the GTK 3 and then the GTK 4
/// settings under `[Settings] gtk-icon-theme-name`, and only when the icon
/// directories could be found; the `hicolor` theme comes last, and alone when
/// they could not.
pub proof fn user_theme_order(
    kde: Option<Seq<char>>,
    gtk3: Option<Seq<char>>,
    gtk4: Option<Seq<char>>,
    dirs: Seq<DirList>,
)
    ensures
        ({
            let k = config_theme_index(kde, seq!['I', 'c', 'o', 'n', 's'], seq!['T', 'h', 'e', 'm', 'e'], dirs);
            let settings = seq!['S', 'e', 't', 't', 'i', 'n', 'g', 's'];
            let key = seq![
                'g', 't', 'k', '-', 'i', 'c', 'o', 'n', '-', 't', 'h', 'e', 'm', 'e', '-', 'n', 'a', 'm', 'e'
            ];
            let g3 = config_theme_index(gtk3, settings, key, dirs);
            let g4 = config_theme_index(gtk4, settings, key, dirs);
            let h = first_index_theme(dirs, seq!['h', 'i', 'c', 'o', 'l', 'o', 'r']);
            let found = user_theme_candidates(true, kde, gtk3, gtk4, dirs);
            let none = user_theme_candidates(false, kde, gtk3, gtk4, dirs);
            &&& (k is Some ==> found[0] == k->0)
            &&& (k is None && g3 is Some ==> found[0] == g3->0)
            &&& (k is None && g3 is None && g4 is Some ==> found[0] == g4->0)
            &&& (k is Some && g3 is Some ==> found[1] == g3->0)
            &&& (k is Some && g3 is Some && g4 is Some ==> found[2] == g4->0)
            &&& (h is Some ==> found.len() > 0 && found.last() == h->0 && none == seq![h->0])
            &&& (h is None ==> none.len() == 0)
            &&& found.len() == (if k is Some { 1int } else { 0 }) + (if g3 is Some { 1int } else { 0 })
                + (if g4 is Some { 1int } else { 0 }) + (if h is Some { 1int } else { 0 })
        }),
{
}

} // verus!
