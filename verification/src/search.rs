//! The search for an icon across themes: the user's theme and, depth first,
//! the themes it inherits from, then the default `hicolor` theme and its
//! ancestors, then the un-themed icons.
//!
//! Loading a theme and looking an icon up both need the file system, so the
//! search is a state machine: each step names the next thing to do
//! (`SearchAction`), and the caller does it and reports back (`SearchEvent`).
use vstd::prelude::*;
use crate::config::hicolor;
use crate::lookup::{first_index_theme, get_first_index_theme};
use crate::path::views;
use crate::theme::{DirList, IconTheme};

verus! {

/// Where a search stands.
#[derive(Clone, Copy, Debug, PartialEq, Eq, Structural)]
pub enum Stage {
    /// Searching the user's theme and the themes it inherits from.
    UserTheme,
    /// Searching the default theme and the themes it inherits from.
    Hicolor,
    /// Looking among the un-themed icons.
    Fallback,
    /// Done.
    Finished,
}

/// What the caller is to do next.
#[derive(Debug)]
pub enum SearchAction {
    /// Load the theme described by this index file (the empty path describes
    /// no theme) and report it with `SearchEvent::ThemeLoaded`.
    LoadTheme(String),
    /// Look this icon up in the current theme at the search's size and scale
    /// (`lookup_icon`) and report the result with `SearchEvent::Looked`.
    LookupIcon(String),
    /// Look this icon up among the un-themed icons (`lookup_fallback_icon`)
    /// and report the result with `SearchEvent::Looked`.
    LookupFallback(String),
    /// The search is over, with this icon or none.
    Finished(Option<String>),
}

/// What the caller reports back.
#[derive(Debug)]
pub enum SearchEvent {
    /// The theme that was asked for.
    ThemeLoaded(IconTheme),
    /// The result of the lookup that was asked for.
    Looked(Option<String>),
}

/// The state of a search for the first of some icon names.
#[derive(Debug)]
pub struct IconSearch {
    /// The icon names, most wanted first.
    pub icons: Vec<String>,
    /// The known theme directories.
    pub dir_list: Vec<DirList>,
    /// Where the search stands.
    pub stage: Stage,
    /// The themes still to visit in this stage, the next one last.
    pub pending: Vec<String>,
    /// The index of the icon name to look up next.
    pub next_icon: usize,
    /// The theme being searched.
    pub theme: IconTheme,
    /// The wanted icon size: every lookup in a theme is for this size.
    pub size: i32,
    /// The wanted icon scale: every lookup in a theme is for this scale.
    pub scale: i32,
}

/// A step of the search, as plain values.
pub enum Step {
    Load(Seq<char>),
    Lookup(Seq<char>),
    Fallback(Seq<char>),
    Done(Option<Seq<char>>),
}

/// A report to the search, as plain values.
pub enum Report {
    Loaded(IconTheme),
    Looked(Option<Seq<char>>),
}

/// The state of a search, as plain values.
pub struct SearchModel {
    pub icons: Seq<Seq<char>>,
    pub dirs: Seq<DirList>,
    pub stage: Stage,
    pub pending: Seq<Seq<char>>,
    pub next_icon: int,
    pub theme: IconTheme,
    pub size: int,
    pub scale: int,
}

impl IconSearch {
    /// The state as plain values.
    pub open spec fn model(&self) -> SearchModel {
        SearchModel {
            icons: views(self.icons@),
            dirs: self.dir_list@,
            stage: self.stage,
            pending: views(self.pending@),
            next_icon: self.next_icon as int,
            theme: self.theme,
            size: self.size as int,
            scale: self.scale as int,
        }
    }
}

/// An action as plain values.
pub open spec fn step_of(a: SearchAction) -> Step {
    match a {
        SearchAction::LoadTheme(p) => Step::Load(p@),
        SearchAction::LookupIcon(i) => Step::Lookup(i@),
        SearchAction::LookupFallback(i) => Step::Fallback(i@),
        SearchAction::Finished(r) => Step::Done(crate::config::opt_view(r)),
    }
}

/// An event as plain values.
pub open spec fn report_of(e: SearchEvent) -> Report {
    match e {
        SearchEvent::ThemeLoaded(t) => Report::Loaded(t),
        SearchEvent::Looked(r) => Report::Looked(crate::config::opt_view(r)),
    }
}

/// The themes a theme inherits from, in order.
pub open spec fn parents(t: IconTheme) -> Seq<Seq<char>> {
    match t.inherits {
        Some(v) => views(v@),
        None => Seq::<Seq<char>>::empty(),
    }
}

/// The index file of the first theme directory named `name`, or the empty path.
pub open spec fn index_or_empty(dirs: Seq<DirList>, name: Seq<char>) -> Seq<char> {
    match first_index_theme(dirs, name) {
        Some(p) => p,
        None => Seq::<char>::empty(),
    }
}

/// Moving on from a stage whose themes are all searched: from the user's themes
/// to loading `hicolor`; from `hicolor`'s to the un-themed lookup of the first
/// icon name (done at once when there is none); otherwise done.
pub open spec fn next_stage(m: SearchModel) -> (SearchModel, Step) {
    match m.stage {
        Stage::UserTheme => (
            SearchModel { stage: Stage::Hicolor, ..m },
            Step::Load(index_or_empty(m.dirs, hicolor())),
        ),
        Stage::Hicolor => if m.icons.len() > 0 {
            (SearchModel { stage: Stage::Fallback, next_icon: 0, ..m }, Step::Fallback(m.icons[0]))
        } else {
            (SearchModel { stage: Stage::Finished, next_icon: 0, ..m }, Step::Done(None))
        },
        _ => (SearchModel { stage: Stage::Finished, ..m }, Step::Done(None)),
    }
}

/// Searching the current theme: look up the next icon name while there is
/// one; then its parents join the themes to visit, first parent next, and the
/// next theme to visit is loaded; with none left, the next stage.
pub open spec fn visit_theme(m: SearchModel) -> (SearchModel, Step) {
    if 0 <= m.next_icon < m.icons.len() {
        (m, Step::Lookup(m.icons[m.next_icon]))
    } else {
        let stack = m.pending + parents(m.theme).reverse();
        if stack.len() > 0 {
            (
                SearchModel { pending: stack.drop_last(), ..m },
                Step::Load(index_or_empty(m.dirs, stack.last())),
            )
        } else {
            next_stage(SearchModel { pending: stack, ..m })
        }
    }
}

/// One step of the search on a report. A found icon ends it with that icon.
/// In the theme stages a loaded theme becomes the one searched, from the first
/// icon name, and a lookup that found nothing moves on to the next name. In the
/// un-themed stage anything else moves on to the next name, and past the last
/// the search ends with nothing. A finished search stays finished.
pub open spec fn advance_model(m: SearchModel, r: Report) -> (SearchModel, Step) {
    match m.stage {
        Stage::Finished => (m, Step::Done(None)),
        Stage::Fallback => match r {
            Report::Looked(Some(p)) => (SearchModel { stage: Stage::Finished, ..m }, Step::Done(Some(p))),
            _ => {
                let n = m.next_icon + 1;
                if 0 <= n < m.icons.len() {
                    (SearchModel { next_icon: n, ..m }, Step::Fallback(m.icons[n]))
                } else {
                    (SearchModel { stage: Stage::Finished, ..m }, Step::Done(None))
                }
            },
        },
        _ => match r {
            Report::Looked(Some(p)) => (SearchModel { stage: Stage::Finished, ..m }, Step::Done(Some(p))),
            Report::Looked(None) => visit_theme(
                SearchModel {
                    next_icon: if m.next_icon < m.icons.len() {
                        m.next_icon + 1
                    } else {
                        m.next_icon
                    },
                    ..m
                },
            ),
            Report::Loaded(t) => visit_theme(SearchModel { theme: t, next_icon: 0, ..m }),
        },
    }
}

/// The search as it starts in the user's theme `theme`, for icons of size
/// `size` at scale `scale`.
pub open spec fn start_model(
    icons: Seq<Seq<char>>,
    dirs: Seq<DirList>,
    theme: IconTheme,
    size: int,
    scale: int,
) -> SearchModel {
    SearchModel {
        icons,
        dirs,
        stage: Stage::UserTheme,
        pending: Seq::<Seq<char>>::empty(),
        next_icon: 0,
        theme,
        size,
        scale,
    }
}

/// The index file of the first theme directory named `name`, or the empty path.
fn index_path(dirs: &Vec<DirList>, name: String) -> (r: String)
    ensures
        r@ == index_or_empty(dirs@, name@),
{
    let copy = dirs.clone();
    assert(copy@ =~= dirs@);
    match get_first_index_theme(name, copy) {
        Some(p) => p,
        None => String::new(),
    }
}

impl IconSearch {
    /// Moves on from a stage whose themes are all searched (see `next_stage`).
    fn next_stage(&mut self) -> (a: SearchAction)
        ensures
            (final(self).model(), step_of(a)) == next_stage(old(self).model()),
    {
        match self.stage {
            Stage::UserTheme => {
                self.stage = Stage::Hicolor;
                let default_theme = "hicolor";
                proof {
                    reveal_strlit("hicolor");
                    assert(default_theme@ =~= hicolor());
                }
                SearchAction::LoadTheme(index_path(&self.dir_list, default_theme.to_owned()))
            },
            Stage::Hicolor => {
                self.next_icon = 0;
                if self.icons.len() > 0 {
                    self.stage = Stage::Fallback;
                    SearchAction::LookupFallback(self.icons[0].clone())
                } else {
                    self.stage = Stage::Finished;
                    SearchAction::Finished(None)
                }
            },
            _ => {
                self.stage = Stage::Finished;
                SearchAction::Finished(None)
            },
        }
    }
}

/// Searches the current theme of `search` (see `visit_theme`): the next icon
/// name is looked up in it, or, with none left, the themes it inherits from are
/// visited in order, depth first, and then the next stage begins.
pub fn find_best_icon_helper(search: &mut IconSearch) -> (a: SearchAction)
    ensures
        (final(search).model(), step_of(a)) == visit_theme(old(search).model()),
{
    if search.next_icon < search.icons.len() {
        return SearchAction::LookupIcon(search.icons[search.next_icon].clone());
    }
    let ghost m = search.model();
    let ghost stack = m.pending + parents(m.theme).reverse();
    match &search.theme.inherits {
        Some(parents) => {
            let k = parents.len();
            let mut i: usize = k;
            while i > 0
                invariant
                    i <= k,
                    k == parents@.len(),
                    search.icons == old(search).icons,
                    search.dir_list == old(search).dir_list,
                    search.stage == old(search).stage,
                    search.next_icon == old(search).next_icon,
                    search.theme == old(search).theme,
                    search.size == old(search).size,
                    search.scale == old(search).scale,
                    search.theme.inherits == Some(*parents),
                    views(search.pending@) == m.pending + views(parents@).reverse().take(k - i),
                decreases i,
            {
                i = i - 1;
                let ghost before = views(search.pending@);
                search.pending.push(parents[i].clone());
                assert(views(search.pending@) =~= before.push(parents@[i as int]@));
                assert(views(parents@).reverse().take(k - i) =~= views(parents@).reverse().take(
                    k - i - 1,
                ).push(parents@[i as int]@));
            }
            assert(views(parents@).reverse().take(k as int) =~= views(parents@).reverse());
        },
        None => {
            assert(m.pending + parents(m.theme).reverse() =~= m.pending);
        },
    }
    assert(views(search.pending@) == stack);
    match search.pending.pop() {
        Some(name) => {
            assert(views(search.pending@) =~= stack.drop_last());
            SearchAction::LoadTheme(index_path(&search.dir_list, name))
        },
        None => {
            search.next_stage()
        },
    }
}

/// Takes the next step of `search` on what the caller reports (see `advance_model`).
pub fn find_icon_helper(search: &mut IconSearch, event: SearchEvent) -> (a: SearchAction)
    ensures
        (final(search).model(), step_of(a)) == advance_model(old(search).model(), report_of(event)),
{
    match search.stage {
        Stage::Finished => SearchAction::Finished(None),
        Stage::Fallback => {
            match event {
                SearchEvent::Looked(Some(p)) => {
                    search.stage = Stage::Finished;
                    SearchAction::Finished(Some(p))
                },
                _ => {
                    let len = search.icons.len();
                    if search.next_icon < usize::MAX && search.next_icon + 1 < len {
                        search.next_icon = search.next_icon + 1;
                        SearchAction::LookupFallback(search.icons[search.next_icon].clone())
                    } else {
                        search.stage = Stage::Finished;
                        SearchAction::Finished(None)
                    }
                },
            }
        },
        _ => {
            match event {
                SearchEvent::Looked(Some(p)) => {
                    search.stage = Stage::Finished;
                    SearchAction::Finished(Some(p))
                },
                SearchEvent::Looked(None) => {
                    if search.next_icon < search.icons.len() {
                        search.next_icon = search.next_icon + 1;
                    }
                    find_best_icon_helper(search)
                },
                SearchEvent::ThemeLoaded(t) => {
                    search.theme = t;
                    search.next_icon = 0;
                    find_best_icon_helper(search)
                },
            }
        },
    }
}

/// Starts the search for `icon` at `size` and `scale` in the user's theme, or
/// in an empty theme when the user has none; returns the search and its first
/// action. Every theme search then looks `icon` up in each theme, the user's
/// theme and its ancestors first, then `hicolor` and its ancestors, and last
/// among the un-themed icons.
pub fn find_icon(
    icon: String,
    size: i32,
    scale: i32,
    dir_list_vector: Vec<DirList>,
    user_theme: Option<IconTheme>,
) -> (r: (IconSearch, SearchAction))
    ensures
        ({
            let theme = match user_theme {
                Some(t) => t,
                None => IconTheme { name: None, inherits: None, directories: None },
            };
            (r.0.model(), step_of(r.1)) == visit_theme(
                start_model(seq![icon@], dir_list_vector@, theme, size as int, scale as int),
            )
        }),
{
    let theme = match user_theme {
        Some(t) => t,
        None => IconTheme::empty(),
    };
    let mut icons: Vec<String> = Vec::new();
    icons.push(icon);
    let mut search = IconSearch {
        icons,
        dir_list: dir_list_vector,
        stage: Stage::UserTheme,
        pending: Vec::new(),
        next_icon: 0,
        theme,
        size,
        scale,
    };
    assert(search.model().icons =~= seq![icon@]);
    assert(search.model().pending =~= Seq::<Seq<char>>::empty());
    let a = find_best_icon_helper(&mut search);
    (search, a)
}

/// Starts the search for the first of `icon_list` that some theme has, at
/// `size` and `scale`: the
/// user's theme and its ancestors are searched for each name in order, then
/// `hicolor` and its ancestors, then the un-themed icons for each name in
/// order. Without a user theme there is nothing to search.
pub fn find_best_icon(
    icon_list: Vec<String>,
    size: i32,
    scale: i32,
    dir_list_vector: Vec<DirList>,
    user_theme: Option<IconTheme>,
) -> (r: (IconSearch, SearchAction))
    ensures
        user_theme is Some ==> (r.0.model(), step_of(r.1)) == visit_theme(
            start_model(
                views(icon_list@),
                dir_list_vector@,
                user_theme->0,
                size as int,
                scale as int,
            ),
        ),
        user_theme is None ==> r.0.model() == (SearchModel {
            stage: Stage::Finished,
            ..start_model(
                views(icon_list@),
                dir_list_vector@,
                (IconTheme { name: None, inherits: None, directories: None }),
                size as int,
                scale as int,
            )
        }) && step_of(r.1) == Step::Done(None),
{
    match user_theme {
        Some(theme) => {
            let mut search = IconSearch {
                icons: icon_list,
                dir_list: dir_list_vector,
                stage: Stage::UserTheme,
                pending: Vec::new(),
                next_icon: 0,
                theme,
                size,
                scale,
            };
            assert(search.model().pending =~= Seq::<Seq<char>>::empty());
            let a = find_best_icon_helper(&mut search);
            (search, a)
        },
        None => {
            let search = IconSearch {
                icons: icon_list,
                dir_list: dir_list_vector,
                stage: Stage::Finished,
                pending: Vec::new(),
                next_icon: 0,
                theme: IconTheme::empty(),
                size,
                scale,
            };
            assert(search.model().pending =~= Seq::<Seq<char>>::empty());
            (search, SearchAction::Finished(None))
        },
    }
}

/// As soon as a lookup finds an icon, the search ends with that icon.
pub proof fn found_icon_ends_search(m: SearchModel, p: Seq<char>)
    requires
        m.stage != Stage::Finished,
    ensures
        advance_model(m, Report::Looked(Some(p))) == (
            SearchModel { stage: Stage::Finished, ..m },
            Step::Done(Some(p)),
        ),
{
}

/// A finished search stays finished and asks for nothing more.
pub proof fn finished_search_stays_finished(m: SearchModel, r: Report)
    requires
        m.stage == Stage::Finished,
    ensures
        advance_model(m, r) == (m, Step::Done(None)),
{
}

/// Once every icon name has been looked up in a theme, the first theme it
/// inherits from is visited next, and the others it inherits from are visited
/// after that one and before any theme that was pending earlier.
pub proof fn parents_are_visited_in_order(m: SearchModel)
    requires
        m.next_icon >= m.icons.len(),
        parents(m.theme).len() > 0,
    ensures
        visit_theme(m) == (
            SearchModel {
                pending: m.pending + parents(m.theme).drop_first().reverse(),
                ..m
            },
            Step::Load(index_or_empty(m.dirs, parents(m.theme)[0])),
        ),
{
    let ps = parents(m.theme);
    let stack = m.pending + ps.reverse();
    assert(stack.last() == ps[0]);
    assert(stack.drop_last() =~= m.pending + ps.drop_first().reverse());
}

/// The default theme is loaded only once every icon name has been looked up
/// in the user's theme and in every theme it inherits from, directly or not:
/// when the user stage ends, no theme is pending, the theme just searched
/// inherits from none, and its lookups are all done.
pub proof fn default_theme_comes_last(m: SearchModel, r: Report)
    requires
        m.stage == Stage::UserTheme,
        m.next_icon >= 0,
        advance_model(m, r).0.stage == Stage::Hicolor,
    ensures
        step_is_load_of_default(advance_model(m, r).1, m.dirs),
        m.pending.len() == 0,
        r matches Report::Loaded(t) ==> parents(t).len() == 0 && m.icons.len() == 0,
        r matches Report::Looked(None) ==> parents(m.theme).len() == 0 && m.next_icon + 1
            >= m.icons.len(),
{
}

/// The step loads the default theme.
pub open spec fn step_is_load_of_default(s: Step, dirs: Seq<DirList>) -> bool {
    s == Step::Load(index_or_empty(dirs, hicolor()))
}

/// The un-themed lookup begins only once the default theme and every theme it
/// inherits from have been searched.
pub proof fn fallback_comes_after_default_theme(m: SearchModel, r: Report)
    requires
        m.stage == Stage::Hicolor,
        m.next_icon >= 0,
        advance_model(m, r).0.stage == Stage::Fallback,
    ensures
        advance_model(m, r).1 == Step::Fallback(m.icons[0]),
        m.pending.len() == 0,
        r matches Report::Loaded(t) ==> parents(t).len() == 0 && m.icons.len() == 0,
        r matches Report::Looked(None) ==> parents(m.theme).len() == 0 && m.next_icon + 1
            >= m.icons.len(),
{
}

} // verus!
