//! The data the lookup works on: theme base directories, icon-theme
//! descriptions and their sub-directories.
use vstd::prelude::*;
use crate::path::{file_name, joined, normal_parts, path_join};

verus! {

/// How the icons of a theme sub-directory may be scaled.
#[derive(Clone, Copy, Debug, PartialEq, Eq, Structural)]
pub enum DirectoryType {
    /// Icons are used at exactly their size.
    Fixed,
    /// Icons can be scaled between a minimum and a maximum size.
    Scalable,
    /// Icons can be used when the wanted size is within a threshold of theirs.
    Threshold,
}

/// One sub-directory of an icon theme, as its `index.theme` describes it.
#[derive(Debug)]
pub struct Directory {
    /// The sub-directory's path relative to the theme directory.
    pub name: Option<String>,
    /// The nominal size of the icons in it.
    pub size: Option<i32>,
    /// The scale its icons are meant for (1 when absent).
    pub scale: Option<i32>,
    /// The smallest size a scalable icon can take (the nominal size when absent).
    pub min_size: Option<i32>,
    /// The largest size a scalable icon can take (the nominal size when absent).
    pub max_size: Option<i32>,
    /// How far a threshold icon's size may be from the wanted one (2 when absent).
    pub threshold: Option<i32>,
    /// How its icons may be scaled (threshold when absent).
    pub xdg_type: Option<DirectoryType>,
}

impl Clone for Directory {
    fn clone(&self) -> (r: Self)
        ensures
            r == *self,
    {
        let name = match &self.name {
            Some(n) => Some(n.clone()),
            None => None,
        };
        Directory {
            name,
            size: self.size,
            scale: self.scale,
            min_size: self.min_size,
            max_size: self.max_size,
            threshold: self.threshold,
            xdg_type: self.xdg_type,
        }
    }
}

/// An icon theme, as its `index.theme` describes it.
#[derive(Clone, Debug)]
pub struct IconTheme {
    /// The theme's name.
    pub name: Option<String>,
    /// The names of the themes it inherits from, in order.
    pub inherits: Option<Vec<String>>,
    /// Its sub-directories, in order.
    pub directories: Option<Vec<Directory>>,
}

impl IconTheme {
    /// A theme with nothing in it: no name, no parents and no directories.
    pub fn empty() -> (t: IconTheme)
        ensures
            t.name is None,
            t.inherits is None,
            t.directories is None,
    {
        IconTheme { name: None, inherits: None, directories: None }
    }
}

/// A theme directory together with the name of the theme it holds.
///
/// The directory's name and the theme's name need not be the same.
#[derive(Debug)]
pub struct DirList {
    /// The theme directory.
    pub dir: String,
    /// The name of the theme.
    pub theme: String,
}

/// The file in every theme directory that describes the theme.
pub open spec fn index_file_name() -> Seq<char> {
    seq!['i', 'n', 'd', 'e', 'x', '.', 't', 'h', 'e', 'm', 'e']
}

impl Clone for DirList {
    fn clone(&self) -> (r: Self)
        ensures
            r == *self,
    {
        DirList { dir: self.dir.clone(), theme: self.theme.clone() }
    }
}

impl DirList {
    /// A `DirList` for directory `dir` holding theme `theme`.
    pub fn new(dir: String, theme: String) -> (d: DirList)
        ensures
            d.dir@ == dir@,
            d.theme@ == theme@,
    {
        DirList { dir: dir, theme: theme }
    }

    /// The path of the theme's `index.theme` file inside its directory.
    pub fn index(&self) -> (p: String)
        ensures
            p@ == joined(self.dir@, index_file_name()),
    {
        let file = "index.theme";
        proof {
            reveal_strlit("index.theme");
        }
        assert(file@ =~= index_file_name());
        path_join(self.dir.as_str(), file)
    }
}

/// The index file of a theme directory is the file `index.theme` inside it:
/// its named parts are those of the directory followed by `index.theme`.
pub proof fn index_file_is_inside_the_directory(dir: Seq<char>)
    ensures
        normal_parts(joined(dir, index_file_name())) == normal_parts(dir).push(index_file_name()),
        file_name(joined(dir, index_file_name())) == Some(index_file_name()),
{
    crate::path::single_name_is_one_part(index_file_name());
    crate::path::joining_relative_path_appends_parts(dir, index_file_name());
    assert(normal_parts(dir) + seq![index_file_name()] =~= normal_parts(dir).push(
        index_file_name(),
    ));
    assert(index_file_name() != seq!['.', '.']);
}

/// The index file that a theme directory found on disk is checked for: the
/// directory's path, a slash, and `index.theme`.
pub open spec fn entry_index_path(entry: Seq<char>) -> Seq<char> {
    entry + seq!['/'] + index_file_name()
}

/// The index file that a theme directory found on disk is checked for.
pub fn theme_index_path(entry: &str) -> (r: String)
    ensures
        r@ == entry_index_path(entry@),
{
    let mut r = entry.to_owned();
    let sep = "/";
    let file = "index.theme";
    proof {
        reveal_strlit("/");
        reveal_strlit("index.theme");
        assert(file@ =~= index_file_name());
    }
    r.append(sep);
    r.append(file);
    r
}

/// The theme directories, with their themes' names, among the directories
/// found on disk with the themes their index files describe: those whose theme
/// has a name, in order.
pub open spec fn named_dirs(entries: Seq<(String, IconTheme)>) -> Seq<(Seq<char>, Seq<char>)>
    decreases entries.len(),
{
    if entries.len() == 0 {
        Seq::<(Seq<char>, Seq<char>)>::empty()
    } else {
        let rest = named_dirs(entries.drop_last());
        match entries.last().1.name {
            Some(n) => rest.push((entries.last().0@, n@)),
            None => rest,
        }
    }
}

/// A list of theme directories as plain values.
pub open spec fn dir_pairs(v: Seq<DirList>) -> Seq<(Seq<char>, Seq<char>)> {
    v.map_values(|d: DirList| (d.dir@, d.theme@))
}

/// The list of theme directories from the directories found on disk that have
/// an index file, each with the theme its index file describes: a directory
/// whose theme has no name is left out.
pub fn generate_dir_list(entries: Vec<(String, IconTheme)>) -> (r: Vec<DirList>)
    ensures
        dir_pairs(r@) == named_dirs(entries@),
{
    let mut out: Vec<DirList> = Vec::new();
    let n = entries.len();
    let mut i: usize = 0;
    assert(entries@.take(0) =~= Seq::<(String, IconTheme)>::empty());
    while i < n
        invariant
            n == entries@.len(),
            i <= n,
            dir_pairs(out@) == named_dirs(entries@.take(i as int)),
        decreases n - i,
    {
        let entry = &entries[i];
        assert(entries@.take(i + 1).drop_last() =~= entries@.take(i as int));
        match &entry.1.name {
            Some(name) => {
                let ghost before = dir_pairs(out@);
                out.push(DirList { dir: entry.0.clone(), theme: name.clone() });
                assert(dir_pairs(out@) =~= before.push((entry.0@, name@)));
            },
            None => {},
        }
        i = i + 1;
    }
    assert(entries@.take(n as int) =~= entries@);
    out
}

/// The list of theme directories keeps the order in which they were found:
/// the list of two runs of entries, one after the other, is the list of the
/// first run followed by the list of the second.
pub proof fn dir_list_keeps_the_order_found(
    a: Seq<(String, IconTheme)>,
    b: Seq<(String, IconTheme)>,
)
    ensures
        named_dirs(a + b) == named_dirs(a) + named_dirs(b),
    decreases b.len(),
{
    if b.len() == 0 {
        assert(a + b =~= a);
        assert(named_dirs(a) + named_dirs(b) =~= named_dirs(a));
    } else {
        dir_list_keeps_the_order_found(a, b.drop_last());
        assert((a + b).drop_last() =~= a + b.drop_last());
        assert((a + b).last() == b.last());
        match b.last().1.name {
            Some(n) => {
                assert(named_dirs(a) + named_dirs(b.drop_last()).push((b.last().0@, n@)) =~= (
                named_dirs(a) + named_dirs(b.drop_last())).push((b.last().0@, n@)));
            },
            None => {},
        }
    }
}

/// A single entry gives its directory with its theme's name where the theme
/// has a name, and nothing where it has none.
pub proof fn dir_list_of_one_entry(e: (String, IconTheme))
    ensures
        named_dirs(seq![e]) == match e.1.name {
            Some(n) => seq![(e.0@, n@)],
            None => Seq::<(Seq<char>, Seq<char>)>::empty(),
        },
{
    assert(seq![e].drop_last() =~= Seq::<(String, IconTheme)>::empty());
    assert(named_dirs(seq![e].drop_last()) =~= Seq::<(Seq<char>, Seq<char>)>::empty());
    assert(seq![e].last() == e);
    match e.1.name {
        Some(n) => {
            assert(Seq::<(Seq<char>, Seq<char>)>::empty().push((e.0@, n@)) =~= seq![(e.0@, n@)]);
        },
        None => {},
    }
}

} // verus!
