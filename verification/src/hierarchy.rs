//! The search state machine does what the recursive icon lookup of the icon
//! theme specification does: driven by the same answers, it ends with the
//! icon that the recursion returns.
use vstd::prelude::*;
use crate::config::hicolor;
use crate::search::{
    advance_model, index_or_empty, next_stage, parents, start_model, visit_theme, Report,
    SearchModel, Stage, Step,
};
use crate::lookup::{dir_is_named, first_dir_named};
use crate::path::joined;
use crate::theme::{index_file_name, DirList, IconTheme};

verus! {

/// What the caller answers: the theme an index file describes, what looking
/// an icon up in a theme finds, and what the un-themed lookup of an icon finds.
pub struct Oracle {
    pub loads: spec_fn(Seq<char>) -> IconTheme,
    pub looks: spec_fn(IconTheme, Seq<char>) -> Option<Seq<char>>,
    pub falls: spec_fn(Seq<char>) -> Option<Seq<char>>,
}

/// A search at some point: its state and the action it asks for.
pub type Config = (SearchModel, Step);

/// The caller does what the search asks, as the oracle answers, and the
/// search takes its next step; a finished search stays as it is.
pub open spec fn respond(o: Oracle, c: Config) -> Config {
    match c.1 {
        Step::Load(p) => advance_model(c.0, Report::Loaded((o.loads)(p))),
        Step::Lookup(i) => advance_model(c.0, Report::Looked((o.looks)(c.0.theme, i))),
        Step::Fallback(i) => advance_model(c.0, Report::Looked((o.falls)(i))),
        Step::Done(_) => c,
    }
}

/// What the search ends with within `n` responses, if it ends.
pub open spec fn outcome(o: Oracle, c: Config, n: nat) -> Option<Option<Seq<char>>>
    decreases n,
{
    match c.1 {
        Step::Done(r) => Some(r),
        _ => if n == 0 {
            None
        } else {
            outcome(o, respond(o, c), (n - 1) as nat)
        },
    }
}

/// The first of the icon names from the `k`th on that theme `t` has.
pub open spec fn first_look(o: Oracle, t: IconTheme, icons: Seq<Seq<char>>, k: int) -> Option<
    Seq<char>,
>
    decreases icons.len() - k,
{
    if k < 0 || k >= icons.len() {
        None
    } else {
        match (o.looks)(t, icons[k]) {
            Some(p) => Some(p),
            None => first_look(o, t, icons, k + 1),
        }
    }
}

/// The first un-themed icon among the icon names from the `k`th on.
pub open spec fn first_fallback(o: Oracle, icons: Seq<Seq<char>>, k: int) -> Option<Seq<char>>
    decreases icons.len() - k,
{
    if k < 0 || k >= icons.len() {
        None
    } else {
        match (o.falls)(icons[k]) {
            Some(p) => Some(p),
            None => first_fallback(o, icons, k + 1),
        }
    }
}

/// The recursive lookup in theme `t`: the icon names in `t`, then each theme
/// it inherits from in order, recursively. `None` when the recursion is deeper
/// than `fuel`; `Some(None)` when nothing is found.
pub open spec fn theme_search(
    o: Oracle,
    icons: Seq<Seq<char>>,
    dirs: Seq<DirList>,
    t: IconTheme,
    fuel: nat,
) -> Option<Option<Seq<char>>>
    decreases fuel, 0nat,
{
    if fuel == 0 {
        None
    } else {
        match first_look(o, t, icons, 0) {
            Some(p) => Some(Some(p)),
            None => parents_search(o, icons, dirs, parents(t), (fuel - 1) as nat),
        }
    }
}

/// The recursive lookup in each of the themes `names`, in order.
pub open spec fn parents_search(
    o: Oracle,
    icons: Seq<Seq<char>>,
    dirs: Seq<DirList>,
    names: Seq<Seq<char>>,
    fuel: nat,
) -> Option<Option<Seq<char>>>
    decreases fuel, names.len() + 1,
{
    if names.len() == 0 {
        Some(None)
    } else {
        match theme_search(o, icons, dirs, (o.loads)(index_or_empty(dirs, names[0])), fuel) {
            Some(None) => parents_search(o, icons, dirs, names.drop_first(), fuel),
            r => r,
        }
    }
}

/// The whole lookup: in the user's theme and its ancestors, then in `hicolor`
/// and its ancestors, then among the un-themed icons.
pub open spec fn recursive_find(
    o: Oracle,
    icons: Seq<Seq<char>>,
    dirs: Seq<DirList>,
    user: IconTheme,
    fuel: nat,
) -> Option<Option<Seq<char>>> {
    match theme_search(o, icons, dirs, user, fuel) {
        Some(None) => match theme_search(
            o,
            icons,
            dirs,
            (o.loads)(index_or_empty(dirs, hicolor())),
            fuel,
        ) {
            Some(None) => Some(first_fallback(o, icons, 0)),
            r => r,
        },
        r => r,
    }
}

/// Where a search goes once the themes on top of its pending list are done:
/// the next pending theme is loaded, or the next stage begins.
pub open spec fn pop_config(m: SearchModel) -> Config {
    if m.pending.len() > 0 {
        (SearchModel { pending: m.pending.drop_last(), ..m }, Step::Load(index_or_empty(m.dirs, m.pending.last())))
    } else {
        next_stage(m)
    }
}

/// Two points of a search that go on alike: the same action, and the same
/// state but for the theme and, outside the un-themed stage, the icon index,
/// which the action does not read.
pub open spec fn agree(c1: Config, c2: Config) -> bool {
    &&& c1.1 == c2.1
    &&& c1.0.icons == c2.0.icons
    &&& c1.0.dirs == c2.0.dirs
    &&& c1.0.stage == c2.0.stage
    &&& c1.0.pending == c2.0.pending
    &&& c1.0.size == c2.0.size
    &&& c1.0.scale == c2.0.scale
    &&& (c1.0.stage == Stage::Fallback ==> c1.0.next_icon == c2.0.next_icon)
    &&& !(c1.1 is Lookup)
    &&& (c1.1 is Fallback ==> c1.0.stage == Stage::Fallback)
}

proof fn lemma_agree_respond(o: Oracle, c1: Config, c2: Config)
    requires
        agree(c1, c2),
    ensures
        respond(o, c1) == respond(o, c2) || agree(respond(o, c1), respond(o, c2)),
{
}

proof fn lemma_agree_outcome(o: Oracle, c1: Config, c2: Config, n: nat)
    requires
        c1 == c2 || agree(c1, c2),
    ensures
        outcome(o, c1, n) == outcome(o, c2, n),
    decreases n,
{
    if n > 0 && !(c1.1 is Done) {
        if c1 != c2 {
            lemma_agree_respond(o, c1, c2);
        }
        lemma_agree_outcome(o, respond(o, c1), respond(o, c2), (n - 1) as nat);
    }
}

/// The theme stages.
pub open spec fn theme_stage(s: Stage) -> bool {
    s == Stage::UserTheme || s == Stage::Hicolor
}

/// The search at the `k`th icon name of its current theme.
pub open spec fn at_icon(m: SearchModel, k: int) -> Config {
    visit_theme(SearchModel { next_icon: k, ..m })
}

/// From `c`, `j` responses lead to where `c2` leads.
pub open spec fn leads_on(o: Oracle, c: Config, j: nat, c2: Config) -> bool {
    forall|n: nat| #[trigger] outcome(o, c2, n) == outcome(o, c, j + n)
}

/// From `c`, the search ends with `r` within `j` responses.
pub open spec fn ends_with(o: Oracle, c: Config, j: nat, r: Option<Seq<char>>) -> bool {
    outcome(o, c, j) == Some(r)
}

proof fn lemma_step(o: Oracle, c: Config)
    requires
        !(c.1 is Done),
    ensures
        leads_on(o, c, 1, respond(o, c)),
{
    assert forall|n: nat| #[trigger] outcome(o, respond(o, c), n) == outcome(o, c, 1 + n) by {
        assert(((1 + n) - 1) as nat == n);
    }
}

proof fn lemma_leads_trans(o: Oracle, c1: Config, j1: nat, c2: Config, j2: nat, c3: Config)
    requires
        leads_on(o, c1, j1, c2),
        leads_on(o, c2, j2, c3),
    ensures
        leads_on(o, c1, j1 + j2, c3),
{
    assert forall|n: nat| #[trigger] outcome(o, c3, n) == outcome(o, c1, (j1 + j2) + n) by {
        assert(outcome(o, c3, n) == outcome(o, c2, j2 + n));
        assert(outcome(o, c2, j2 + n) == outcome(o, c1, j1 + (j2 + n)));
        assert(j1 + (j2 + n) == (j1 + j2) + n);
    }
}

proof fn lemma_leads_agree(o: Oracle, c1: Config, j: nat, c2: Config, c3: Config)
    requires
        leads_on(o, c1, j, c2),
        c2 == c3 || agree(c2, c3),
    ensures
        leads_on(o, c1, j, c3),
{
    assert forall|n: nat| #[trigger] outcome(o, c3, n) == outcome(o, c1, j + n) by {
        lemma_agree_outcome(o, c2, c3, n);
        assert(outcome(o, c2, n) == outcome(o, c1, j + n));
    }
}

proof fn lemma_leads_ends(o: Oracle, c1: Config, j1: nat, c2: Config, j2: nat, r: Option<Seq<char>>)
    requires
        leads_on(o, c1, j1, c2),
        ends_with(o, c2, j2, r),
    ensures
        ends_with(o, c1, j1 + j2, r),
{
    assert(outcome(o, c2, j2) == outcome(o, c1, j1 + j2));
}

proof fn lemma_stay(o: Oracle, c: Config)
    ensures
        leads_on(o, c, 0, c),
{
    assert forall|n: nat| #[trigger] outcome(o, c, n) == outcome(o, c, 0 + n) by {
        assert(0 + n == n);
    }
}

proof fn lemma_icons(o: Oracle, m: SearchModel, k: int) -> (j: nat)
    requires
        theme_stage(m.stage),
        0 <= k <= m.icons.len(),
    ensures
        first_look(o, m.theme, m.icons, k) matches Some(p) ==> ends_with(o, at_icon(m, k), j, Some(p)),
        first_look(o, m.theme, m.icons, k) is None ==> leads_on(
            o,
            at_icon(m, k),
            j,
            at_icon(m, m.icons.len() as int),
        ),
    decreases m.icons.len() - k,
{
    if k < m.icons.len() {
        let c = at_icon(m, k);
        assert(c.1 == Step::Lookup(m.icons[k]));
        lemma_step(o, c);
        match (o.looks)(m.theme, m.icons[k]) {
            Some(p) => {
                assert(respond(o, c).1 == Step::Done(Some(p)));
                assert(ends_with(o, respond(o, c), 0, Some(p)));
                lemma_leads_ends(o, c, 1, respond(o, c), 0, Some(p));
                1
            },
            None => {
                assert(respond(o, c) == at_icon(m, k + 1));
                let j = lemma_icons(o, m, k + 1);
                match first_look(o, m.theme, m.icons, k + 1) {
                    Some(p) => {
                        lemma_leads_ends(o, c, 1, at_icon(m, k + 1), j, Some(p));
                    },
                    None => {
                        lemma_leads_trans(o, c, 1, at_icon(m, k + 1), j, at_icon(m, m.icons.len() as int));
                    },
                }
                1 + j
            },
        }
    } else {
        lemma_stay(o, at_icon(m, k));
        0
    }
}

proof fn lemma_theme(o: Oracle, m: SearchModel, fuel: nat) -> (j: nat)
    requires
        theme_stage(m.stage),
        theme_search(o, m.icons, m.dirs, m.theme, fuel) is Some,
    ensures
        theme_search(o, m.icons, m.dirs, m.theme, fuel) matches Some(Some(x)) ==> ends_with(
            o,
            at_icon(m, 0),
            j,
            Some(x),
        ),
        theme_search(o, m.icons, m.dirs, m.theme, fuel) == Some(None::<Seq<char>>) ==> leads_on(
            o,
            at_icon(m, 0),
            j,
            pop_config(m),
        ),
    decreases fuel, 0nat,
{
    let len = m.icons.len();
    let j1 = lemma_icons(o, m, 0);
    match first_look(o, m.theme, m.icons, 0) {
        Some(p) => j1,
        None => {
            let stack = m.pending + parents(m.theme).reverse();
            let mp = SearchModel { pending: stack, next_icon: len as int, ..m };
            assert(at_icon(m, len as int) == pop_config(mp));
            let j2 = lemma_parents(o, mp, m.pending, parents(m.theme), (fuel - 1) as nat);
            match parents_search(o, m.icons, m.dirs, parents(m.theme), (fuel - 1) as nat) {
                Some(Some(x)) => {
                    lemma_leads_ends(o, at_icon(m, 0), j1, pop_config(mp), j2, Some(x));
                },
                Some(None) => {
                    let back = SearchModel { pending: m.pending, ..mp };
                    lemma_leads_trans(o, at_icon(m, 0), j1, pop_config(mp), j2, pop_config(back));
                    lemma_leads_agree(o, at_icon(m, 0), j1 + j2, pop_config(back), pop_config(m));
                },
                None => {},
            }
            j1 + j2
        },
    }
}

proof fn lemma_parents(
    o: Oracle,
    m: SearchModel,
    base: Seq<Seq<char>>,
    names: Seq<Seq<char>>,
    fuel: nat,
) -> (j: nat)
    requires
        theme_stage(m.stage),
        m.pending == base + names.reverse(),
        parents_search(o, m.icons, m.dirs, names, fuel) is Some,
    ensures
        parents_search(o, m.icons, m.dirs, names, fuel) matches Some(Some(x)) ==> ends_with(
            o,
            pop_config(m),
            j,
            Some(x),
        ),
        parents_search(o, m.icons, m.dirs, names, fuel) == Some(None::<Seq<char>>) ==> leads_on(
            o,
            pop_config(m),
            j,
            pop_config(SearchModel { pending: base, ..m }),
        ),
    decreases fuel, names.len() + 1,
{
    if names.len() == 0 {
        assert(m.pending =~= base);
        assert(SearchModel { pending: base, ..m } == m);
        lemma_stay(o, pop_config(m));
        0
    } else {
        let rest = names.drop_first();
        assert(names.reverse() =~= rest.reverse().push(names[0]));
        assert(m.pending =~= (base + rest.reverse()).push(names[0]));
        assert(m.pending.last() == names[0]);
        assert(m.pending.drop_last() =~= base + rest.reverse());
        let c = pop_config(m);
        let t0 = (o.loads)(index_or_empty(m.dirs, names[0]));
        let mr = SearchModel { pending: base + rest.reverse(), ..m };
        let m0 = SearchModel { theme: t0, next_icon: 0, ..mr };
        assert(c == (mr, Step::Load(index_or_empty(m.dirs, names[0]))));
        assert(respond(o, c) == at_icon(m0, 0));
        lemma_step(o, c);
        let j1 = lemma_theme(o, m0, fuel);
        match theme_search(o, m.icons, m.dirs, t0, fuel) {
            Some(Some(x)) => {
                lemma_leads_ends(o, c, 1, at_icon(m0, 0), j1, Some(x));
                1 + j1
            },
            Some(None) => {
                lemma_leads_trans(o, c, 1, at_icon(m0, 0), j1, pop_config(m0));
                lemma_leads_agree(o, c, 1 + j1, pop_config(m0), pop_config(mr));
                let j2 = lemma_parents(o, mr, base, rest, fuel);
                match parents_search(o, m.icons, m.dirs, rest, fuel) {
                    Some(Some(x)) => {
                        lemma_leads_ends(o, c, 1 + j1, pop_config(mr), j2, Some(x));
                    },
                    Some(None) => {
                        lemma_leads_trans(
                            o,
                            c,
                            1 + j1,
                            pop_config(mr),
                            j2,
                            pop_config(SearchModel { pending: base, ..mr }),
                        );
                        assert(SearchModel { pending: base, ..mr } == SearchModel { pending: base, ..m });
                    },
                    None => {},
                }
                1 + j1 + j2
            },
            None => 0,
        }
    }
}

proof fn lemma_fallback(o: Oracle, m: SearchModel, k: int) -> (j: nat)
    requires
        m.stage == Stage::Fallback,
        0 <= k < m.icons.len(),
        m.next_icon == k,
    ensures
        ends_with(o, (m, Step::Fallback(m.icons[k])), j, first_fallback(o, m.icons, k)),
    decreases m.icons.len() - k,
{
    let c = (m, Step::Fallback(m.icons[k]));
    lemma_step(o, c);
    match (o.falls)(m.icons[k]) {
        Some(p) => {
            assert(ends_with(o, respond(o, c), 0, Some(p)));
            lemma_leads_ends(o, c, 1, respond(o, c), 0, Some(p));
            1
        },
        None => {
            if k + 1 < m.icons.len() {
                let m1 = SearchModel { next_icon: k + 1, ..m };
                assert(respond(o, c) == (m1, Step::Fallback(m.icons[k + 1])));
                let j = lemma_fallback(o, m1, k + 1);
                lemma_leads_ends(o, c, 1, respond(o, c), j, first_fallback(o, m.icons, k + 1));
                1 + j
            } else {
                assert(first_fallback(o, m.icons, k + 1) == None::<Seq<char>>);
                assert(ends_with(o, respond(o, c), 0, None));
                lemma_leads_ends(o, c, 1, respond(o, c), 0, None);
                1
            }
        },
    }
}

/// Searching one theme, as `find_best_icon_helper` starts it and
/// `find_icon_helper` carries it on, does what the recursive helper of the icon
/// theme specification does with that theme: the icon names in order in the
/// theme, then each theme it inherits from in order, depth first. Where the
/// recursion finds an icon, the search ends with it; where it finds none, the
/// search goes on where it stood before the theme (`pop_config`).
pub proof fn theme_search_follows_the_recursive_helper(o: Oracle, m: SearchModel, fuel: nat)
    requires
        theme_stage(m.stage),
        theme_search(o, m.icons, m.dirs, m.theme, fuel) is Some,
    ensures
        theme_search(o, m.icons, m.dirs, m.theme, fuel) matches Some(Some(x)) ==> exists|j: nat|
            #[trigger] ends_with(o, at_icon(m, 0), j, Some(x)),
        theme_search(o, m.icons, m.dirs, m.theme, fuel) == Some(None::<Seq<char>>) ==> exists|
            j: nat,
        | #[trigger] leads_on(o, at_icon(m, 0), j, pop_config(m)),
{
    let j = lemma_theme(o, m, fuel);
    if let Some(Some(x)) = theme_search(o, m.icons, m.dirs, m.theme, fuel) {
        assert(ends_with(o, at_icon(m, 0), j, Some(x)));
    } else {
        assert(theme_search(o, m.icons, m.dirs, m.theme, fuel) == Some(None::<Seq<char>>) ==> leads_on(o, at_icon(m, 0), j, pop_config(m)));
    }
}

/// The central law of the search: whenever the recursive lookup of the icon
/// theme specification ends with a result (the user's theme and its ancestors,
/// depth first and in order, then `hicolor` and its ancestors, then the
/// un-themed icons), the search that `find_icon` or `find_best_icon` starts,
/// driven by the same answers, ends with the same result.
pub proof fn search_follows_the_theme_hierarchy(
    o: Oracle,
    icons: Seq<Seq<char>>,
    dirs: Seq<DirList>,
    user: IconTheme,
    size: int,
    scale: int,
    fuel: nat,
)
    requires
        recursive_find(o, icons, dirs, user, fuel) is Some,
    ensures
        exists|n: nat|
            #[trigger] outcome(o, visit_theme(start_model(icons, dirs, user, size, scale)), n) == recursive_find(
                o,
                icons,
                dirs,
                user,
                fuel,
            ),
{
    let m = start_model(icons, dirs, user, size, scale);
    let c = at_icon(m, 0);
    assert(SearchModel { next_icon: 0, ..m } == m);
    assert(visit_theme(m) == c);
    let j = lemma_theme(o, m, fuel);
    match theme_search(o, icons, dirs, user, fuel) {
        Some(Some(x)) => {
            assert(outcome(o, c, j) == Some(Some(x)));
        },
        Some(None) => {
            let th = (o.loads)(index_or_empty(dirs, hicolor()));
            let mh = SearchModel { stage: Stage::Hicolor, theme: th, next_icon: 0, ..m };
            assert(pop_config(m) == (
                SearchModel { stage: Stage::Hicolor, ..m },
                Step::Load(index_or_empty(dirs, hicolor())),
            ));
            assert(respond(o, pop_config(m)) == at_icon(mh, 0));
            lemma_step(o, pop_config(m));
            lemma_leads_trans(o, c, j, pop_config(m), 1, at_icon(mh, 0));
            let j2 = lemma_theme(o, mh, fuel);
            match theme_search(o, icons, dirs, th, fuel) {
                Some(Some(x)) => {
                    lemma_leads_ends(o, c, j + 1, at_icon(mh, 0), j2, Some(x));
                    assert(outcome(o, c, (j + 1) + j2) == Some(Some(x)));
                },
                Some(None) => {
                    lemma_leads_trans(o, c, j + 1, at_icon(mh, 0), j2, pop_config(mh));
                    if icons.len() > 0 {
                        let mf = SearchModel { stage: Stage::Fallback, next_icon: 0, ..mh };
                        assert(pop_config(mh) == (mf, Step::Fallback(icons[0])));
                        let j3 = lemma_fallback(o, mf, 0);
                        lemma_leads_ends(
                            o,
                            c,
                            (j + 1) + j2,
                            pop_config(mh),
                            j3,
                            first_fallback(o, icons, 0),
                        );
                        assert(outcome(o, c, ((j + 1) + j2) + j3) == Some(first_fallback(o, icons, 0)));
                    } else {
                        assert(pop_config(mh).1 == Step::Done(None));
                        assert(ends_with(o, pop_config(mh), 0, None));
                        lemma_leads_ends(o, c, (j + 1) + j2, pop_config(mh), 0, None);
                        assert(first_fallback(o, icons, 0) == None::<Seq<char>>);
                        assert(outcome(o, c, ((j + 1) + j2) + 0) == Some(None::<Seq<char>>));
                    }
                },
                None => {},
            }
        },
        None => {},
    }
}

/// Theme `u` is one that theme `t` inherits from, as the oracle loads it.
pub open spec fn inherits_from(o: Oracle, dirs: Seq<DirList>, t: IconTheme, u: IconTheme) -> bool {
    exists|j: int|
        0 <= j < parents(t).len() && #[trigger] (o.loads)(index_or_empty(dirs, parents(t)[j])) == u
}

/// Each theme of `c` after the first is one that the theme before it inherits from.
pub open spec fn inheritance_chain(o: Oracle, dirs: Seq<DirList>, c: Seq<IconTheme>) -> bool {
    forall|i: int| #![trigger c[i]] 0 < i < c.len() ==> inherits_from(o, dirs, c[i - 1], c[i])
}

/// No theme recurs on an inheritance chain that starts at `t`: among the
/// themes reachable from `t`, none inherits from itself, directly or not.
pub open spec fn acyclic_from(o: Oracle, dirs: Seq<DirList>, t: IconTheme) -> bool {
    forall|c: Seq<IconTheme>|
        #[trigger] inheritance_chain(o, dirs, c) && c.len() > 0 && c[0] == t ==> c.no_duplicates()
}

/// The index files a theme can be loaded from: the empty path, and the index
/// file of each theme directory.
pub open spec fn index_paths(dirs: Seq<DirList>) -> Seq<Seq<char>> {
    seq![Seq::<char>::empty()] + dirs.map_values(|d: DirList| joined(d.dir@, index_file_name()))
}

proof fn lemma_first_dir_among(dirs: Seq<DirList>, name: Seq<char>)
    ensures
        first_dir_named(dirs, name) matches Some(d) ==> exists|i: int|
            0 <= i < dirs.len() && #[trigger] dirs[i] == d,
    decreases dirs.len(),
{
    if dirs.len() > 0 && !dir_is_named(dirs[0].dir@, name) {
        lemma_first_dir_among(dirs.drop_first(), name);
        if let Some(d) = first_dir_named(dirs.drop_first(), name) {
            let i = choose|i: int| 0 <= i < dirs.drop_first().len() && #[trigger] dirs.drop_first()[i] == d;
            assert(dirs[i + 1] == d);
        }
    }
}

proof fn lemma_index_among(dirs: Seq<DirList>, name: Seq<char>)
    ensures
        index_paths(dirs).contains(index_or_empty(dirs, name)),
{
    let ps = index_paths(dirs);
    lemma_first_dir_among(dirs, name);
    match first_dir_named(dirs, name) {
        Some(d) => {
            let i = choose|i: int| 0 <= i < dirs.len() && #[trigger] dirs[i] == d;
            assert(ps[i + 1] == joined(d.dir@, index_file_name()));
        },
        None => {
            assert(ps[0] == index_or_empty(dirs, name));
        },
    }
}

/// An inheritance chain without repeats is at most two longer than the list of
/// theme directories: after its first theme, each is loaded from one of
/// `index_paths`.
proof fn lemma_chain_bound(o: Oracle, dirs: Seq<DirList>, c: Seq<IconTheme>)
    requires
        inheritance_chain(o, dirs, c),
        c.no_duplicates(),
        c.len() > 0,
    ensures
        c.len() <= dirs.len() + 2,
{
    let ps = index_paths(dirs);
    let loaded = ps.map_values(|p: Seq<char>| (o.loads)(p));
    let tail = c.drop_first();
    assert(tail.no_duplicates());
    tail.unique_seq_to_set();
    assert forall|x: IconTheme| tail.to_set().contains(x) implies loaded.to_set().contains(x) by {
        let k = choose|k: int| 0 <= k < tail.len() && tail[k] == x;
        assert(c[k + 1] == x);
        assert(inherits_from(o, dirs, c[k], c[k + 1]));
        let j = choose|j: int|
            0 <= j < parents(c[k]).len() && #[trigger] (o.loads)(
                index_or_empty(dirs, parents(c[k])[j]),
            ) == c[k + 1];
        let p = index_or_empty(dirs, parents(c[k])[j]);
        lemma_index_among(dirs, parents(c[k])[j]);
        let m = choose|m: int| 0 <= m < ps.len() && ps[m] == p;
        assert(loaded[m] == x);
    }
    vstd::seq_lib::seq_to_set_is_finite(loaded);
    vstd::set_lib::lemma_len_subset(tail.to_set(), loaded.to_set());
    loaded.lemma_cardinality_of_set();
}

proof fn lemma_theme_ends(
    o: Oracle,
    icons: Seq<Seq<char>>,
    dirs: Seq<DirList>,
    c: Seq<IconTheme>,
    fuel: nat,
)
    requires
        c.len() > 0,
        acyclic_from(o, dirs, c[0]),
        inheritance_chain(o, dirs, c),
        fuel + c.len() > dirs.len() + 2,
    ensures
        theme_search(o, icons, dirs, c.last(), fuel) is Some,
    decreases fuel, 0nat,
{
    assert(c.no_duplicates());
    lemma_chain_bound(o, dirs, c);
    let t = c.last();
    if first_look(o, t, icons, 0) is None {
        let ps = parents(t);
        assert forall|i: int| 0 <= i < ps.len() implies inherits_from(
            o,
            dirs,
            c.last(),
            #[trigger] (o.loads)(index_or_empty(dirs, ps[i])),
        ) by {}
        lemma_parents_end(o, icons, dirs, c, ps, (fuel - 1) as nat);
    }
}

proof fn lemma_parents_end(
    o: Oracle,
    icons: Seq<Seq<char>>,
    dirs: Seq<DirList>,
    c: Seq<IconTheme>,
    names: Seq<Seq<char>>,
    fuel: nat,
)
    requires
        c.len() > 0,
        acyclic_from(o, dirs, c[0]),
        inheritance_chain(o, dirs, c),
        forall|i: int|
            0 <= i < names.len() ==> inherits_from(
                o,
                dirs,
                c.last(),
                #[trigger] (o.loads)(index_or_empty(dirs, names[i])),
            ),
        fuel + c.len() >= dirs.len() + 2,
    ensures
        parents_search(o, icons, dirs, names, fuel) is Some,
    decreases fuel, names.len() + 1,
{
    if names.len() > 0 {
        let t0 = (o.loads)(index_or_empty(dirs, names[0]));
        let c2 = c.push(t0);
        assert(inherits_from(o, dirs, c.last(), t0));
        assert forall|i: int| #![trigger c2[i]] 0 < i < c2.len() implies inherits_from(
            o,
            dirs,
            c2[i - 1],
            c2[i],
        ) by {
            if i < c.len() {
                assert(c2[i] == c[i]);
                assert(inherits_from(o, dirs, c[i - 1], c[i]));
            }
        }
        assert(c2[0] == c[0]);
        assert(c2.last() == t0);
        lemma_theme_ends(o, icons, dirs, c2, fuel);
        let rest = names.drop_first();
        assert forall|i: int| 0 <= i < rest.len() implies inherits_from(
            o,
            dirs,
            c.last(),
            #[trigger] (o.loads)(index_or_empty(dirs, rest[i])),
        ) by {
            assert(rest[i] == names[i + 1]);
            assert(inherits_from(o, dirs, c.last(), (o.loads)(index_or_empty(dirs, names[i + 1]))));
        }
        lemma_parents_end(o, icons, dirs, c, rest, fuel);
    }
}

/// Where no theme reachable from the user's theme, nor from the default
/// `hicolor` theme, inherits from itself, directly or not, the search that
/// `find_icon` or `find_best_icon` starts ends, whatever the lookups answer,
/// and it ends with what the recursive lookup of the icon theme specification
/// gives.
pub proof fn search_ends_without_inheritance_cycles(
    o: Oracle,
    icons: Seq<Seq<char>>,
    dirs: Seq<DirList>,
    user: IconTheme,
    size: int,
    scale: int,
)
    requires
        acyclic_from(o, dirs, user),
        acyclic_from(o, dirs, (o.loads)(index_or_empty(dirs, hicolor()))),
    ensures
        exists|n: nat, fuel: nat|
            #![trigger outcome(o, visit_theme(start_model(icons, dirs, user, size, scale)), n), recursive_find(o, icons, dirs, user, fuel)]
            recursive_find(o, icons, dirs, user, fuel) is Some && outcome(
                o,
                visit_theme(start_model(icons, dirs, user, size, scale)),
                n,
            ) == recursive_find(o, icons, dirs, user, fuel),
{
    let h = (o.loads)(index_or_empty(dirs, hicolor()));
    let fuel: nat = dirs.len() + 2;
    let cu = seq![user];
    let ch = seq![h];
    assert(inheritance_chain(o, dirs, cu));
    assert(inheritance_chain(o, dirs, ch));
    assert(cu.last() == user && cu[0] == user);
    assert(ch.last() == h && ch[0] == h);
    lemma_theme_ends(o, icons, dirs, cu, fuel);
    lemma_theme_ends(o, icons, dirs, ch, fuel);
    assert(recursive_find(o, icons, dirs, user, fuel) is Some);
    search_follows_the_theme_hierarchy(o, icons, dirs, user, size, scale, fuel);
    let c = visit_theme(start_model(icons, dirs, user, size, scale));
    let n = choose|n: nat| #[trigger] outcome(o, c, n) == recursive_find(o, icons, dirs, user, fuel);
    assert(outcome(o, c, n) == recursive_find(o, icons, dirs, user, fuel));
}

} // verus!
