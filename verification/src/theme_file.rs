//! Reading a theme's `index.theme` text into an `IconTheme`, as the icon
//! theme specification lays the file out: the `[Icon Theme]` section names the
//! theme, the themes it inherits from and its sub-directories, and a section
//! per sub-directory gives its size, scale, limits and type.
use vstd::prelude::*;
use crate::config::{ini_document, ini_from_string, ini_get, ini_get_list, ini_list_items, opt_view};
use crate::path::views;
use crate::theme::{Directory, DirectoryType, IconTheme};

verus! {

/// The value of the decimal digits `s`.
pub open spec fn digits_value(s: Seq<char>) -> int
    decreases s.len(),
{
    if s.len() == 0 {
        0
    } else {
        10 * digits_value(s.drop_last()) + (s.last() as int - '0' as int)
    }
}

/// Every character of `s` is an ASCII decimal digit.
pub open spec fn all_digits(s: Seq<char>) -> bool {
    forall|i: int| 0 <= i < s.len() ==> '0' <= #[trigger] s[i] <= '9'
}

/// What `i32::from_str` makes of `s`: an optional `+` or `-` sign followed by
/// at least one decimal digit and nothing else, whose value fits an `i32`.
pub open spec fn decimal_i32(s: Seq<char>) -> Option<i32> {
    let signed = s.len() > 0 && (s[0] == '+' || s[0] == '-');
    let digits = if signed {
        s.skip(1)
    } else {
        s
    };
    let value = if signed && s[0] == '-' {
        -digits_value(digits)
    } else {
        digits_value(digits)
    };
    if digits.len() > 0 && all_digits(digits) && i32::MIN <= value <= i32::MAX {
        Some(value as i32)
    } else {
        None
    }
}

proof fn lemma_digits_value_grows(s: Seq<char>, n: int)
    requires
        all_digits(s),
        0 <= n <= s.len(),
    ensures
        0 <= digits_value(s.take(n)) <= digits_value(s),
    decreases s.len() - n,
{
    if n < s.len() {
        lemma_digits_value_grows(s.drop_last(), if n < s.len() { n } else { n - 1 });
        assert(s.drop_last().take(n) =~= s.take(n));
        assert('0' <= s[s.len() - 1] <= '9');
        assert(all_digits(s.drop_last()));
    } else {
        assert(s.take(n) =~= s);
        lemma_digits_value_nonneg(s);
    }
}

proof fn lemma_digits_value_nonneg(s: Seq<char>)
    requires
        all_digits(s),
    ensures
        digits_value(s) >= 0,
    decreases s.len(),
{
    if s.len() > 0 {
        assert(all_digits(s.drop_last()));
        assert('0' <= s[s.len() - 1] <= '9');
        lemma_digits_value_nonneg(s.drop_last());
    }
}

/// The `i32` that `s` writes in decimal, as `i32::from_str` reads it.
pub fn parse_i32(s: &str) -> (r: Option<i32>)
    ensures
        r == decimal_i32(s@),
{
    let n = s.unicode_len();
    if n == 0 {
        return None;
    }
    let first = s.get_char(0);
    let signed = first == '+' || first == '-';
    let negative = first == '-';
    let start: usize = if signed {
        1
    } else {
        0
    };
    let ghost digits = s@.skip(start as int);
    assert(s@.skip(0) =~= s@);
    assert(digits == (if signed { s@.skip(1) } else { s@ }));
    if start >= n {
        assert(digits.len() == 0);
        return None;
    }
    let mut acc: i64 = 0;
    let mut i: usize = start;
    assert(digits.take(0) =~= Seq::<char>::empty());
    while i < n
        invariant
            n == s@.len(),
            n > 0,
            first == s@[0],
            signed == (first == '+' || first == '-'),
            negative == (first == '-'),
            start == (if signed { 1usize } else { 0usize }),
            start <= i <= n,
            digits == s@.skip(start as int),
            digits.len() == n - start,
            all_digits(digits.take(i - start)),
            acc as int == digits_value(digits.take(i - start)),
            digits == (if signed { s@.skip(1) } else { s@ }),
            0 <= acc <= 2147483648,
        decreases n - i,
    {
        let c = s.get_char(i);
        assert(digits[i - start] == c);
        assert(digits.take(i - start + 1).drop_last() =~= digits.take(i - start));
        if c < '0' || c > '9' {
            assert(!('0' <= digits[i - start] <= '9'));
            assert(!all_digits(digits));
            return None;
        }
        let d: i64 = (c as u32 - '0' as u32) as i64;
        acc = acc * 10 + d;
        if acc > 2147483648 {
            proof {
                assert(all_digits(digits.take(i - start + 1)));
                if all_digits(digits) {
                    assert(digits.take(i - start + 1) =~= digits.take(i - start + 1));
                    lemma_digits_value_grows(digits, i - start + 1);
                }
            }
            return None;
        }
        i = i + 1;
    }
    assert(digits.take(n - start) =~= digits);
    assert(all_digits(digits));
    assert(digits.len() > 0);
    if negative {
        let v: i64 = -acc;
        Some(v as i32)
    } else {
        if acc > 2147483647 {
            return None;
        }
        Some(acc as i32)
    }
}

/// The value stored under `key` in `section` of a parsed document.
pub open spec fn entry(
    doc: Map<(Seq<char>, Seq<char>), Seq<char>>,
    section: Seq<char>,
    key: Seq<char>,
) -> Option<Seq<char>> {
    if doc.contains_key((section, key)) {
        Some(doc[(section, key)])
    } else {
        None
    }
}

/// The list stored under `key` in `section` of a parsed document.
pub open spec fn list_entry(
    doc: Map<(Seq<char>, Seq<char>), Seq<char>>,
    section: Seq<char>,
    key: Seq<char>,
) -> Option<Seq<Seq<char>>> {
    match entry(doc, section, key) {
        Some(v) => Some(ini_list_items(v)),
        None => None,
    }
}

/// The number stored under `key` in `section`, where it is a decimal `i32`.
pub open spec fn int_entry(
    doc: Map<(Seq<char>, Seq<char>), Seq<char>>,
    section: Seq<char>,
    key: Seq<char>,
) -> Option<i32> {
    match entry(doc, section, key) {
        Some(v) => decimal_i32(v),
        None => None,
    }
}

/// The directory type that `v` names: `Fixed`, `Scalable` or `Threshold`.
pub open spec fn type_named(v: Seq<char>) -> Option<DirectoryType> {
    if v == seq!['F', 'i', 'x', 'e', 'd'] {
        Some(DirectoryType::Fixed)
    } else if v == seq!['S', 'c', 'a', 'l', 'a', 'b', 'l', 'e'] {
        Some(DirectoryType::Scalable)
    } else if v == seq!['T', 'h', 'r', 'e', 's', 'h', 'o', 'l', 'd'] {
        Some(DirectoryType::Threshold)
    } else {
        None
    }
}

/// The keys of an index file.
pub open spec fn theme_section() -> Seq<char> {
    seq!['I', 'c', 'o', 'n', ' ', 'T', 'h', 'e', 'm', 'e']
}

/// `d` is sub-directory `name` as the document describes it.
pub open spec fn describes_directory(
    doc: Map<(Seq<char>, Seq<char>), Seq<char>>,
    name: Seq<char>,
    d: Directory,
) -> bool {
    &&& opt_view(d.name) == Some(name)
    &&& d.size == int_entry(doc, name, "Size"@)
    &&& d.scale == int_entry(doc, name, "Scale"@)
    &&& d.min_size == int_entry(doc, name, "MinSize"@)
    &&& d.max_size == int_entry(doc, name, "MaxSize"@)
    &&& d.threshold == int_entry(doc, name, "Threshold"@)
    &&& d.xdg_type == match entry(doc, name, "Type"@) {
        Some(v) => type_named(v),
        None => None,
    }
}

/// The list of strings as plain values, where there is one.
pub open spec fn opt_views(v: Option<Vec<String>>) -> Option<Seq<Seq<char>>> {
    match v {
        Some(x) => Some(views(x@)),
        None => None,
    }
}

/// `t` is the theme that the index text `text` describes. Text that does not
/// parse describes an empty theme. Otherwise its `[Icon Theme]` section gives
/// the name (`Name`), the themes inherited from (`Inherits`) and the
/// sub-directories (`Directories`), each described by its own section.
pub open spec fn describes_theme(text: Seq<char>, t: IconTheme) -> bool {
    match ini_document(text) {
        None => t.name is None && t.inherits is None && t.directories is None,
        Some(doc) => {
            &&& opt_view(t.name) == entry(doc, theme_section(), "Name"@)
            &&& opt_views(t.inherits) == list_entry(doc, theme_section(), "Inherits"@)
            &&& match list_entry(doc, theme_section(), "Directories"@) {
                None => t.directories is None,
                Some(names) => t.directories is Some && t.directories->0@.len() == names.len()
                    && forall|i: int|
                    0 <= i < names.len() ==> describes_directory(
                        doc,
                        names[i],
                        #[trigger] t.directories->0@[i],
                    ),
            }
        },
    }
}

fn int_value(ini: &tini::Ini, section: &str, k: &str) -> (r: Option<i32>)
    ensures
        r == int_entry(crate::config::ini_entries(*ini), section@, k@),
{
    match ini_get(ini, section, k) {
        Some(v) => parse_i32(v.as_str()),
        None => None,
    }
}

fn type_value(ini: &tini::Ini, section: &str) -> (r: Option<DirectoryType>)
    ensures
        r == match entry(crate::config::ini_entries(*ini), section@, "Type"@) {
            Some(v) => type_named(v),
            None => None,
        },
{
    let k = "Type";
    let fixed = "Fixed";
    let scalable = "Scalable";
    let threshold = "Threshold";
    proof {
        reveal_strlit("Fixed");
        reveal_strlit("Scalable");
        reveal_strlit("Threshold");
        assert(fixed@ =~= seq!['F', 'i', 'x', 'e', 'd']);
        assert(scalable@ =~= seq!['S', 'c', 'a', 'l', 'a', 'b', 'l', 'e']);
        assert(threshold@ =~= seq!['T', 'h', 'r', 'e', 's', 'h', 'o', 'l', 'd']);
    }
    match ini_get(ini, section, k) {
        Some(v) => {
            if crate::text::same_text(v.as_str(), fixed) {
                Some(DirectoryType::Fixed)
            } else if crate::text::same_text(v.as_str(), scalable) {
                Some(DirectoryType::Scalable)
            } else if crate::text::same_text(v.as_str(), threshold) {
                Some(DirectoryType::Threshold)
            } else {
                None
            }
        },
        None => None,
    }
}

impl IconTheme {
    /// The theme that the text of an `index.theme` file describes (see
    /// `describes_theme`).
    pub fn from_index(text: &str) -> (t: IconTheme)
        ensures
            describes_theme(text@, t),
    {
        let parsed = ini_from_string(text);
        let ini = match parsed {
            Ok(ini) => ini,
            Err(_) => return IconTheme::empty(),
        };
        let ghost doc = crate::config::ini_entries(ini);
        let section = "Icon Theme";
        proof {
            reveal_strlit("Icon Theme");
            assert(section@ =~= theme_section());
        }
        let name = ini_get(&ini, section, "Name");
        let inherits = ini_get_list(&ini, section, "Inherits");
        let directories = match ini_get_list(&ini, section, "Directories") {
            None => None,
            Some(names) => {
                let mut dirs: Vec<Directory> = Vec::new();
                let n = names.len();
                let mut i: usize = 0;
                while i < n
                    invariant
                        n == names@.len(),
                        i <= n,
                        dirs@.len() == i,
                        doc == crate::config::ini_entries(ini),
                        forall|j: int|
                            0 <= j < i ==> describes_directory(
                                doc,
                                names@[j]@,
                                #[trigger] dirs@[j],
                            ),
                    decreases n - i,
                {
                    let dname = names[i].as_str();
                    let d = Directory {
                        name: Some(names[i].clone()),
                        size: int_value(&ini, dname, "Size"),
                        scale: int_value(&ini, dname, "Scale"),
                        min_size: int_value(&ini, dname, "MinSize"),
                        max_size: int_value(&ini, dname, "MaxSize"),
                        threshold: int_value(&ini, dname, "Threshold"),
                        xdg_type: type_value(&ini, dname),
                    };
                    dirs.push(d);
                    i = i + 1;
                }
                assert(forall|j: int| 0 <= j < n ==> views(names@)[j] == names@[j]@);
                Some(dirs)
            },
        };
        IconTheme { name, inherits, directories }
    }
}

} // verus!
