//! Building the local catalog from the files of a source tree.
//!
//! The caller walks the tree and hands over each file as its path relative
//! to the source root, with `/` between directories, and its text. Files
//! that cannot be read as text are left out by the caller; they never reach
//! the catalog.
use vstd::prelude::*;
use vstd::string::*;
use crate::catalog::Catalog;

verus! {

/// A file of the source tree: its path below the root and its text.
pub struct SourceFile {
    pub path: String,
    pub content: String,
}

impl View for SourceFile {
    type V = (Seq<char>, Seq<char>);

    open spec fn view(&self) -> (Seq<char>, Seq<char>) {
        (self.path@, self.content@)
    }
}

/// Index of the last `.` in the last segment of `p[0..n)`, or -1 when that
/// segment holds none.
pub open spec fn last_dot(p: Seq<char>, n: int) -> int
    decreases n,
{
    if n <= 0 {
        -1
    } else if p[n - 1] == '/' {
        -1
    } else if p[n - 1] == '.' {
        n - 1
    } else {
        last_dot(p, n - 1)
    }
}

/// Length of `p` without its extension. The extension starts at the last
/// `.` of the file name, unless that `.` opens the file name.
pub open spec fn stem_len(p: Seq<char>) -> int {
    let d = last_dot(p, p.len() as int);
    if d > 0 && p[d - 1] != '/' {
        d
    } else {
        p.len() as int
    }
}

/// Directory separators become the namespace separator `.`.
pub open spec fn namespaced(c: char) -> char {
    if c == '/' {
        '.'
    } else {
        c
    }
}

/// The component name of a file: its relative path without the extension,
/// with `.` between the directories (`a/b.jsx` is named `a.b`).
pub open spec fn component_name(p: Seq<char>) -> Seq<char> {
    p.subrange(0, stem_len(p)).map_values(|c: char| namespaced(c))
}

/// The catalog of a list of files: each file in turn is added under its
/// component name, and a later file replaces an earlier one of the same name.
pub open spec fn catalog_of_files(files: Seq<(Seq<char>, Seq<char>)>) -> Map<Seq<char>, Seq<char>>
    decreases files.len(),
{
    if files.len() == 0 {
        Map::empty()
    } else {
        catalog_of_files(files.drop_last()).insert(
            component_name(files.last().0),
            files.last().1,
        )
    }
}

/// The component name of the file at `path`.
pub fn component_name_of(path: &str) -> (r: String)
    ensures
        r@ == component_name(path@),
{
    let n: usize = path.unicode_len();
    let mut i: usize = n;
    let mut stop = false;
    while !stop && i > 0
        invariant
            n == path@.len(),
            i <= n,
            last_dot(path@, n as int) == last_dot(path@, i as int),
            stop ==> i > 0 && (path@[i - 1] == '/' || path@[i - 1] == '.'),
        decreases i + (if stop { 0int } else { 1int }),
    {
        let c = path.get_char(i - 1);
        if c == '/' || c == '.' {
            stop = true;
        } else {
            i = i - 1;
        }
    }
    let mut stem: usize = n;
    if stop && i >= 2 {
        if path.get_char(i - 1) == '.' && path.get_char(i - 2) != '/' {
            stem = i - 1;
        }
    }
    assert(stem == stem_len(path@));
    let mut r = String::new();
    let mut j: usize = 0;
    while j < stem
        invariant
            n == path@.len(),
            stem <= n,
            j <= stem,
            r@ == path@.subrange(0, j as int).map_values(|c: char| namespaced(c)),
        decreases stem - j,
    {
        let c = path.get_char(j);
        let ghost before = r@;
        if c == '/' {
            proof {
                reveal_strlit(".");
            }
            r.append(".");
        } else {
            r.append(path.substring_char(j, j + 1));
        }
        assert(r@ =~= before.push(namespaced(c)));
        assert(path@.subrange(0, j as int + 1) =~= path@.subrange(0, j as int).push(c));
        j = j + 1;
    }
    r
}

/// The local catalog of a source tree, from its files.
pub fn catalog_from_files(files: &Vec<SourceFile>) -> (r: Catalog)
    ensures
        r.wf(),
        r@ == catalog_of_files(files@.map_values(|f: SourceFile| f@)),
{
    let ghost fs = files@.map_values(|f: SourceFile| f@);
    let mut cat = Catalog::new();
    let mut i: usize = 0;
    while i < files.len()
        invariant
            fs == files@.map_values(|f: SourceFile| f@),
            i <= files@.len(),
            cat.wf(),
            cat@ == catalog_of_files(fs.subrange(0, i as int)),
        decreases files@.len() - i,
    {
        let f = &files[i];
        let name = component_name_of(f.path.as_str());
        cat.insert(name, f.content.clone());
        assert(fs.subrange(0, i as int + 1).drop_last() =~= fs.subrange(0, i as int));
        i = i + 1;
    }
    assert(fs.subrange(0, files@.len() as int) =~= fs);
    cat
}

} // verus!
