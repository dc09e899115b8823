//! Unix paths held as strings, and what the icon lookup needs of them:
//! their components, their final file name, and joining one onto another.
use vstd::prelude::*;

verus! {

/// The pieces of `s` between slashes, in order (`"a//b/"` gives `a`, ``, `b`, ``).
pub open spec fn split_slash(s: Seq<char>) -> Seq<Seq<char>>
    decreases s.len(),
{
    if s.len() == 0 {
        seq![Seq::<char>::empty()]
    } else {
        let r = split_slash(s.drop_last());
        if s.last() == '/' {
            r.push(Seq::<char>::empty())
        } else {
            r.update(r.len() - 1, r.last().push(s.last()))
        }
    }
}

/// A piece between slashes that names something: not empty, and not `.`.
pub open spec fn is_normal_part(seg: Seq<char>) -> bool {
    seg.len() > 0 && seg != seq!['.']
}

/// The pieces of `segs` that name something, in order.
pub open spec fn keep_normal(segs: Seq<Seq<char>>) -> Seq<Seq<char>>
    decreases segs.len(),
{
    if segs.len() == 0 {
        Seq::<Seq<char>>::empty()
    } else {
        let r = keep_normal(segs.drop_last());
        if is_normal_part(segs.last()) {
            r.push(segs.last())
        } else {
            r
        }
    }
}

/// The named parts of a path: repeated slashes, a trailing slash and `.` parts drop out.
pub open spec fn normal_parts(s: Seq<char>) -> Seq<Seq<char>> {
    keep_normal(split_slash(s))
}

/// An absolute path starts with the root component `/`.
pub open spec fn has_root(s: Seq<char>) -> bool {
    s.len() > 0 && s[0] == '/'
}

/// A relative path that begins with `.` alone keeps that `.` as its first component.
pub open spec fn starts_with_cur_dir(s: Seq<char>) -> bool {
    !has_root(s) && s.len() > 0 && s[0] == '.' && (s.len() == 1 || s[1] == '/')
}

/// The components of a path, each as the text that names it: the root `/` of an
/// absolute path, a leading `.` of a relative one, then the named parts in order.
pub open spec fn components(s: Seq<char>) -> Seq<Seq<char>> {
    (if has_root(s) {
        seq![seq!['/']]
    } else if starts_with_cur_dir(s) {
        seq![seq!['.']]
    } else {
        Seq::<Seq<char>>::empty()
    }) + normal_parts(s)
}

/// The final component of a path when it names something other than `..`.
pub open spec fn file_name(s: Seq<char>) -> Option<Seq<char>> {
    let parts = normal_parts(s);
    if parts.len() > 0 && parts.last() != seq!['.', '.'] {
        Some(parts.last())
    } else {
        None
    }
}

/// `base` with `p` appended as a further component: an absolute `p` replaces
/// `base`, and a separator goes between them unless `base` is empty or already
/// ends with one.
pub open spec fn joined(base: Seq<char>, p: Seq<char>) -> Seq<char> {
    if has_root(p) {
        p
    } else if base.len() > 0 && base.last() != '/' {
        base + seq!['/'] + p
    } else {
        base + p
    }
}

/// The views of a sequence of strings.
pub open spec fn views(v: Seq<String>) -> Seq<Seq<char>> {
    v.map_values(|x: String| x@)
}

proof fn lemma_split_nonempty(s: Seq<char>)
    ensures
        split_slash(s).len() >= 1,
    decreases s.len(),
{
    if s.len() > 0 {
        lemma_split_nonempty(s.drop_last());
    }
}

/// One more character: a slash closes the last piece, another character extends it.
proof fn lemma_split_push(t: Seq<char>, c: char)
    ensures
        split_slash(t).len() >= 1,
        c == '/' ==> split_slash(t.push(c)) == split_slash(t).push(Seq::<char>::empty()),
        c != '/' ==> split_slash(t.push(c)).drop_last() == split_slash(t).drop_last(),
        c != '/' ==> split_slash(t.push(c)).last() == split_slash(t).last().push(c),
        split_slash(t.push(c)).len() >= 1,
{
    lemma_split_nonempty(t);
    assert(t.push(c).drop_last() =~= t);
    let r = split_slash(t);
    if c != '/' {
        assert(r.update(r.len() - 1, r.last().push(c)).drop_last() =~= r.drop_last());
    }
}

proof fn lemma_keep_normal_split(segs: Seq<Seq<char>>)
    requires
        segs.len() >= 1,
    ensures
        keep_normal(segs) == keep_normal(segs.drop_last()) + (if is_normal_part(segs.last()) {
            seq![segs.last()]
        } else {
            Seq::<Seq<char>>::empty()
        }),
{
    if is_normal_part(segs.last()) {
        assert(keep_normal(segs.drop_last()).push(segs.last()) =~= keep_normal(segs.drop_last())
            + seq![segs.last()]);
    } else {
        assert(keep_normal(segs.drop_last()) =~= keep_normal(segs.drop_last())
            + Seq::<Seq<char>>::empty());
    }
}

/// Whether a piece between slashes names something.
fn part_is_normal(seg: &str) -> (b: bool)
    ensures
        b == is_normal_part(seg@),
{
    let n = seg.unicode_len();
    if n == 0 {
        false
    } else if n == 1 && seg.get_char(0) == '.' {
        assert(seg@ =~= seq!['.']);
        false
    } else {
        assert(seg@.len() != 1 ==> seg@ != seq!['.']);
        assert(seg@.len() == 1 ==> seg@[0] != '.');
        true
    }
}

/// The named parts of `path`, in order.
pub fn path_normal_parts(path: &str) -> (r: Vec<String>)
    ensures
        views(r@) == normal_parts(path@),
{
    let n = path.unicode_len();
    let mut out: Vec<String> = Vec::new();
    let mut start: usize = 0;
    let mut i: usize = 0;
    proof {
        assert(path@.take(0) =~= Seq::<char>::empty());
        assert(split_slash(Seq::<char>::empty()).drop_last() =~= Seq::<Seq<char>>::empty());
        assert(views(out@) =~= Seq::<Seq<char>>::empty());
        assert(path@.subrange(0, 0) =~= Seq::<char>::empty());
    }
    while i < n
        invariant
            n == path@.len(),
            0 <= start <= i <= n,
            views(out@) == keep_normal(split_slash(path@.take(i as int)).drop_last()),
            split_slash(path@.take(i as int)).len() >= 1,
            split_slash(path@.take(i as int)).last() == path@.subrange(start as int, i as int),
        decreases n - i,
    {
        let c = path.get_char(i);
        let ghost t = path@.take(i as int);
        proof {
            assert(path@.take(i + 1) =~= t.push(c));
            lemma_split_push(t, c);
        }
        if c == '/' {
            let seg = path.substring_char(start, i);
            proof {
                lemma_keep_normal_split(split_slash(t));
                assert(split_slash(t.push(c)).drop_last() =~= split_slash(t));
            }
            if part_is_normal(seg) {
                let owned = seg.to_owned();
                out.push(owned);
                proof {
                    assert(views(out@) =~= keep_normal(split_slash(t).drop_last()) + seq![seg@]);
                }
            } else {
                assert(views(out@) =~= keep_normal(split_slash(t).drop_last())
                    + Seq::<Seq<char>>::empty());
            }
            start = i + 1;
            proof {
                assert(path@.subrange(start as int, i + 1) =~= Seq::<char>::empty());
            }
        } else {
            proof {
                assert(path@.subrange(start as int, i + 1) =~= path@.subrange(
                    start as int,
                    i as int,
                ).push(c));
            }
        }
        i = i + 1;
    }
    let seg = path.substring_char(start, n);
    proof {
        assert(path@.take(n as int) =~= path@);
        lemma_keep_normal_split(split_slash(path@));
    }
    if part_is_normal(seg) {
        let owned = seg.to_owned();
        out.push(owned);
        assert(views(out@) =~= keep_normal(split_slash(path@).drop_last()) + seq![seg@]);
    } else {
        assert(views(out@) =~= keep_normal(split_slash(path@).drop_last())
            + Seq::<Seq<char>>::empty());
    }
    out
}

/// The components of `path`, each as the text that names it, in order.
pub fn path_components(path: &str) -> (r: Vec<String>)
    ensures
        views(r@) == components(path@),
{
    let n = path.unicode_len();
    let mut out: Vec<String> = Vec::new();
    if n > 0 && path.get_char(0) == '/' {
        let root = "/";
        proof {
            reveal_strlit("/");
        }
        out.push(root.to_owned());
        assert(views(out@) =~~= seq![seq!['/']]);
    } else if n > 0 && path.get_char(0) == '.' && (n == 1 || path.get_char(1) == '/') {
        let cur = ".";
        proof {
            reveal_strlit(".");
        }
        out.push(cur.to_owned());
        assert(views(out@) =~~= seq![seq!['.']]);
    } else {
        assert(!has_root(path@) && !starts_with_cur_dir(path@));
        assert(views(out@) =~= Seq::<Seq<char>>::empty());
    }
    let ghost prefix = views(out@);
    assert(prefix =~= (if has_root(path@) {
        seq![seq!['/']]
    } else if starts_with_cur_dir(path@) {
        seq![seq!['.']]
    } else {
        Seq::<Seq<char>>::empty()
    }));
    let mut rest = path_normal_parts(path);
    out.append(&mut rest);
    assert(views(out@) =~= prefix + normal_parts(path@));
    out
}

/// The final component of `path`, when it names something other than `..`.
pub fn path_file_name(path: &str) -> (r: Option<String>)
    ensures
        match r {
            Some(f) => file_name(path@) == Some(f@),
            None => file_name(path@) is None,
        },
{
    let mut parts = path_normal_parts(path);
    let k = parts.len();
    if k == 0 {
        return None;
    }
    let last = parts.pop().unwrap();
    proof {
        assert(views(parts@.push(last)).last() == last@);
    }
    let m = last.as_str().unicode_len();
    if m == 2 && last.as_str().get_char(0) == '.' && last.as_str().get_char(1) == '.' {
        assert(last@ =~= seq!['.', '.']);
        None
    } else {
        assert(last@.len() == 2 ==> last@ != seq!['.', '.'] || (last@[0] == '.' && last@[1] == '.'));
        Some(last)
    }
}

/// `base` with `p` appended as a further component, as `PathBuf::push` does it.
pub fn path_join(base: &str, p: &str) -> (r: String)
    ensures
        r@ == joined(base@, p@),
{
    let pn = p.unicode_len();
    if pn > 0 && p.get_char(0) == '/' {
        return p.to_owned();
    }
    let bn = base.unicode_len();
    let mut r = base.to_owned();
    if bn > 0 && base.get_char(bn - 1) != '/' {
        let sep = "/";
        proof {
            reveal_strlit("/");
        }
        r.append(sep);
    }
    r.append(p);
    r
}

proof fn lemma_split_concat(a: Seq<char>, b: Seq<char>)
    ensures
        split_slash(a + seq!['/'] + b) == split_slash(a) + split_slash(b),
    decreases b.len(),
{
    lemma_split_nonempty(a);
    lemma_split_nonempty(b);
    if b.len() == 0 {
        assert(a + seq!['/'] + b =~= a.push('/'));
        lemma_split_push(a, '/');
        assert(split_slash(b) =~= seq![Seq::<char>::empty()]);
        assert(split_slash(a).push(Seq::<char>::empty()) =~= split_slash(a) + split_slash(b));
    } else {
        let c = b.last();
        let b0 = b.drop_last();
        lemma_split_concat(a, b0);
        assert(a + seq!['/'] + b =~= (a + seq!['/'] + b0).push(c));
        assert(b =~= b0.push(c));
        lemma_split_push(a + seq!['/'] + b0, c);
        lemma_split_push(b0, c);
        lemma_split_nonempty(b0);
        if c == '/' {
            assert((split_slash(a) + split_slash(b0)).push(Seq::<char>::empty()) =~= split_slash(a)
                + split_slash(b0).push(Seq::<char>::empty()));
        } else {
            let x = split_slash(a) + split_slash(b0);
            let y = split_slash(a + seq!['/'] + b);
            let z = split_slash(a) + split_slash(b);
            assert(y.drop_last() =~= x.drop_last());
            assert(z.drop_last() =~= split_slash(a) + split_slash(b0).drop_last());
            assert(x.drop_last() =~= split_slash(a) + split_slash(b0).drop_last());
            assert(y.len() == z.len());
            assert(y.last() == z.last());
            assert(y =~= z) by {
                assert forall|i: int| 0 <= i < y.len() implies y[i] == z[i] by {
                    if i < y.len() - 1 {
                        assert(y[i] == y.drop_last()[i]);
                        assert(z[i] == z.drop_last()[i]);
                    }
                }
            }
        }
    }
}

proof fn lemma_keep_normal_concat(x: Seq<Seq<char>>, y: Seq<Seq<char>>)
    ensures
        keep_normal(x + y) == keep_normal(x) + keep_normal(y),
    decreases y.len(),
{
    if y.len() == 0 {
        assert(x + y =~= x);
        assert(keep_normal(x) + keep_normal(y) =~= keep_normal(x));
    } else {
        lemma_keep_normal_concat(x, y.drop_last());
        assert((x + y).drop_last() =~= x + y.drop_last());
        assert((x + y).last() == y.last());
        if is_normal_part(y.last()) {
            assert(keep_normal(x) + keep_normal(y.drop_last()).push(y.last()) =~= (keep_normal(x)
                + keep_normal(y.drop_last())).push(y.last()));
        }
    }
}

proof fn lemma_no_slash(s: Seq<char>)
    requires
        forall|i: int| 0 <= i < s.len() ==> s[i] != '/',
    ensures
        split_slash(s) == seq![s],
    decreases s.len(),
{
    if s.len() > 0 {
        lemma_no_slash(s.drop_last());
        assert(s.last() != '/');
        assert(s.drop_last().push(s.last()) =~= s);
        assert(seq![s.drop_last()].update(0, s.drop_last().push(s.last())) =~= seq![s]);
    } else {
        assert(s =~= Seq::<char>::empty());
    }
}

proof fn lemma_normal_parts_empty()
    ensures
        normal_parts(Seq::<char>::empty()) == Seq::<Seq<char>>::empty(),
{
    let e = seq![Seq::<char>::empty()];
    assert(split_slash(Seq::<char>::empty()) == e);
    assert(e.drop_last() =~= Seq::<Seq<char>>::empty());
    assert(!is_normal_part(e.last()));
    assert(keep_normal(e) == keep_normal(e.drop_last()));
}

/// Appending a relative path to `base`, as `path_join` does, gives a path whose
/// named parts are those of `base` followed by those of the appended path.
pub proof fn joining_relative_path_appends_parts(base: Seq<char>, p: Seq<char>)
    requires
        !has_root(p),
    ensures
        normal_parts(joined(base, p)) == normal_parts(base) + normal_parts(p),
{
    lemma_normal_parts_empty();
    if base.len() > 0 && base.last() != '/' {
        lemma_split_concat(base, p);
        lemma_keep_normal_concat(split_slash(base), split_slash(p));
    } else if base.len() == 0 {
        assert(base + p =~= p);
        assert(normal_parts(base) + normal_parts(p) =~= normal_parts(p));
    } else {
        let b0 = base.drop_last();
        assert(base =~= b0 + seq!['/'] + Seq::<char>::empty());
        assert(base + p =~= b0 + seq!['/'] + p);
        lemma_split_concat(b0, p);
        lemma_split_concat(b0, Seq::<char>::empty());
        lemma_keep_normal_concat(split_slash(b0), split_slash(p));
        lemma_keep_normal_concat(split_slash(b0), split_slash(Seq::<char>::empty()));
        assert(keep_normal(split_slash(b0)) + keep_normal(split_slash(Seq::<char>::empty()))
            =~= keep_normal(split_slash(b0)));
    }
}

/// Appending a relative path that names something gives a path with the same
/// final name as the appended path.
pub proof fn joined_path_keeps_file_name(base: Seq<char>, p: Seq<char>)
    requires
        !has_root(p),
        normal_parts(p).len() > 0,
    ensures
        file_name(joined(base, p)) == file_name(p),
{
    joining_relative_path_appends_parts(base, p);
    assert((normal_parts(base) + normal_parts(p)).last() == normal_parts(p).last());
}

/// A path without slashes that is neither empty nor `.` is one named part.
pub proof fn single_name_is_one_part(s: Seq<char>)
    requires
        forall|i: int| 0 <= i < s.len() ==> s[i] != '/',
        is_normal_part(s),
    ensures
        normal_parts(s) == seq![s],
{
    lemma_no_slash(s);
    assert(seq![s].drop_last() =~= Seq::<Seq<char>>::empty());
    assert(keep_normal(Seq::<Seq<char>>::empty()) == Seq::<Seq<char>>::empty());
    assert(keep_normal(seq![s]) == keep_normal(Seq::<Seq<char>>::empty()).push(s));
    assert(keep_normal(seq![s]) =~= seq![s]);
}

} // verus!
