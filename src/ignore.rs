//! Ignore resolution for commit-message generation: entries read from the
//! ignore files, taken literally, and a path test by exact match or by
//! containment of the path's parent directory.

use vstd::prelude::*;

use crate::text::{
    chars_of, contains_string, dedup, lines, split, split_chars, split_lines, trim, trim_chars,
};

verus! {

/// A piece of a `/`-split path that stands as a component: not empty, and `.`
/// only at the very start of the path.
pub open spec fn keeps_piece(piece: Seq<char>, j: int) -> bool {
    piece.len() > 0 && !(piece == seq!['.'] && j > 0)
}

/// The pieces that stand as components, in order.
pub open spec fn kept_pieces(ps: Seq<Seq<char>>) -> Seq<Seq<char>>
    decreases ps.len(),
{
    if ps.len() == 0 {
        Seq::empty()
    } else {
        let prev = kept_pieces(ps.drop_last());
        if keeps_piece(ps.last(), ps.len() - 1) {
            prev.push(ps.last())
        } else {
            prev
        }
    }
}

/// The root component of an absolute path.
pub open spec fn root_component() -> Seq<char> {
    seq!['/']
}

/// The components of a path as `Path::components` yields them for `/`-separated
/// text: the root first for an absolute path, then the non-empty pieces, with
/// `.` kept only at the start.
pub open spec fn components(p: Seq<char>) -> Seq<Seq<char>> {
    let root = if p.len() > 0 && p[0] == '/' {
        seq![root_component()]
    } else {
        Seq::empty()
    };
    root + kept_pieces(split(p, '/'))
}

/// The components of the parent directory, as `Path::parent` gives it: `None`
/// for an empty path and for the root alone.
pub open spec fn parent_components(p: Seq<char>) -> Option<Seq<Seq<char>>> {
    let cs = components(p);
    if cs.len() > 0 && cs.last() != root_component() {
        Some(cs.drop_last())
    } else {
        None
    }
}

/// `a` is a prefix of `b`.
pub open spec fn is_prefix_of(a: Seq<Seq<char>>, b: Seq<Seq<char>>) -> bool {
    a.len() <= b.len() && b.subrange(0, a.len() as int) == a
}

/// Whether `file` lies within `folder`: its parent directory starts, component
/// by component, with `folder`.
pub open spec fn in_folder(file: Seq<char>, folder: Seq<char>) -> bool {
    match parent_components(file) {
        Some(pc) => is_prefix_of(components(folder), pc),
        None => false,
    }
}

/// Why a path containment test could not be made.
#[derive(Debug, Clone, Copy, PartialEq, Eq, Structural)]
pub enum PathCheckError {
    EmptyFile,
    EmptyFolder,
    /// The file path has no parent directory.
    NoParent,
}

/// The components of `p`, as `components` states.
pub fn path_components(p: &str) -> (r: Vec<String>)
    ensures
        r.deep_view() == components(p@),
{
    let v = chars_of(p);
    let pieces = split_chars(&v, '/');
    let mut r: Vec<String> = Vec::new();
    if v.len() > 0 && v[0] == '/' {
        let root = String::from_str("/");
        proof {
            reveal_strlit("/");
        }
        assert(root@ =~= root_component());
        r.push(root);
    }
    let ghost root_part = r.deep_view();
    assert(root_part =~= if v@.len() > 0 && v@[0] == '/' {
        seq![root_component()]
    } else {
        Seq::empty()
    });
    let ghost pv = pieces.deep_view();
    let mut j: usize = 0;
    while j < pieces.len()
        invariant
            j <= pieces@.len(),
            pv == pieces.deep_view(),
            r.deep_view() == root_part + kept_pieces(pv.take(j as int)),
        decreases pieces.len() - j,
    {
        let piece = &pieces[j];
        let pc = chars_of(piece.as_str());
        assert(pv.take(j + 1).drop_last() =~= pv.take(j as int));
        assert(pv.take(j + 1).last() == pc@);
        let is_dot = pc.len() == 1 && pc[0] == '.';
        proof {
            if pc@.len() == 1 && pc@[0] == '.' {
                assert(pc@ =~= seq!['.']);
            }
        }
        if pc.len() > 0 && !(is_dot && j > 0) {
            let ghost before = r.deep_view();
            r.push(piece.clone());
            assert(r.deep_view() =~= before.push(pc@));
            assert(root_part + kept_pieces(pv.take(j + 1)) =~= (root_part + kept_pieces(
                pv.take(j as int),
            )).push(pc@));
        }
        j = j + 1;
    }
    assert(pv.take(j as int) =~= pv);
    r
}

/// `a` is a component-wise prefix of `b`.
fn components_prefix(a: &Vec<String>, b: &Vec<String>, b_len: usize) -> (r: bool)
    requires
        b_len <= b@.len(),
    ensures
        r == is_prefix_of(a.deep_view(), b.deep_view().take(b_len as int)),
{
    let ghost bt = b.deep_view().take(b_len as int);
    if a.len() > b_len {
        return false;
    }
    let mut i: usize = 0;
    while i < a.len()
        invariant
            a@.len() <= b_len <= b@.len(),
            bt == b.deep_view().take(b_len as int),
            i <= a@.len(),
            forall|k: int| 0 <= k < i ==> bt[k] == a.deep_view()[k],
        decreases a.len() - i,
    {
        if a[i] != b[i] {
            assert(bt.subrange(0, a@.len() as int)[i as int] != a.deep_view()[i as int]);
            return false;
        }
        i = i + 1;
    }
    assert(bt.subrange(0, a@.len() as int) =~= a.deep_view());
    true
}

/// Whether the file lies within the folder (its parent directory starts with
/// the folder, component by component). Fails for an empty file path, an empty
/// folder path, or a file path without a parent directory.
pub fn check_for_file_in_folder(file_path: &str, folder_path: &str) -> (r: Result<
    bool,
    PathCheckError,
>)
    ensures
        file_path@.len() == 0 ==> r == Err::<bool, PathCheckError>(PathCheckError::EmptyFile),
        file_path@.len() > 0 && folder_path@.len() == 0 ==> r == Err::<bool, PathCheckError>(
            PathCheckError::EmptyFolder,
        ),
        file_path@.len() > 0 && folder_path@.len() > 0 && parent_components(file_path@) is None
            ==> r == Err::<bool, PathCheckError>(PathCheckError::NoParent),
        file_path@.len() > 0 && folder_path@.len() > 0 && parent_components(file_path@) is Some
            ==> r == Ok::<bool, PathCheckError>(in_folder(file_path@, folder_path@)),
{
    if file_path.is_empty() {
        return Err(PathCheckError::EmptyFile);
    }
    if folder_path.is_empty() {
        return Err(PathCheckError::EmptyFolder);
    }
    let fc = path_components(file_path);
    let n = fc.len();
    if n == 0 {
        return Err(PathCheckError::NoParent);
    }
    let last = chars_of(fc[n - 1].as_str());
    assert(last@ == fc.deep_view().last());
    if last.len() == 1 && last[0] == '/' {
        assert(last@ =~= root_component());
        return Err(PathCheckError::NoParent);
    }
    assert(fc.deep_view().take(n - 1) =~= fc.deep_view().drop_last());
    let folder = path_components(folder_path);
    Ok(components_prefix(&folder, &fc, n - 1))
}

/// Whether `file` is ignored by `entries`: it equals an entry, or its parent
/// directory lies within a (non-empty) entry taken as a directory.
pub open spec fn is_ignored(file: Seq<char>, entries: Seq<Seq<char>>) -> bool {
    entries.contains(file) || exists|i: int|
        0 <= i < entries.len() && entries[i].len() > 0 && file.len() > 0 && in_folder(
            file,
            #[trigger] entries[i],
        )
}

/// Decides whether a file is left out of the commit message: an exact match
/// with an ignore entry, or a parent directory within an entry. Entries are
/// literal paths, never globs.
pub fn should_ignore_file(file: &str, ignore_patterns: &Vec<String>) -> (r: bool)
    ensures
        r == is_ignored(file@, ignore_patterns.deep_view()),
{
    let ghost ev = ignore_patterns.deep_view();
    let f = String::from_str(file);
    if contains_string(ignore_patterns, &f) {
        return true;
    }
    let mut i: usize = 0;
    while i < ignore_patterns.len()
        invariant
            i <= ignore_patterns@.len(),
            ev == ignore_patterns.deep_view(),
            forall|k: int|
                0 <= k < i ==> !(ev[k].len() > 0 && file@.len() > 0 && in_folder(
                    file@,
                    #[trigger] ev[k],
                )),
        decreases ignore_patterns.len() - i,
    {
        let entry = ignore_patterns[i].as_str();
        assert(entry@ == ev[i as int]);
        match check_for_file_in_folder(file, entry) {
            Ok(true) => {
                return true;
            },
            _ => {},
        }
        i = i + 1;
    }
    false
}

/// The entry an ignore-file line holds: the line itself, taken literally,
/// unless it is blank or starts with `#`.
pub open spec fn ignore_entry(l: Seq<char>) -> Option<Seq<char>> {
    if trim(l).len() > 0 && !(l.len() > 0 && l[0] == '#') {
        Some(l)
    } else {
        None
    }
}

/// The entries of an ignore file, in line order.
pub open spec fn ignore_entries(contents: Seq<char>) -> Seq<Seq<char>> {
    lines(contents).filter_map(|l: Seq<char>| ignore_entry(l))
}

fn ignore_entry_exec(l: &String) -> (r: bool)
    ensures
        r == (ignore_entry(l@) is Some),
{
    let v = chars_of(l.as_str());
    let t = trim_chars(&v);
    !t.as_str().is_empty() && !(v.len() > 0 && v[0] == '#')
}

/// The entries of one ignore file's contents: blank lines and `#` comments
/// skipped, no glob expansion.
pub fn process_gitignore_file(contents: &str) -> (r: Vec<String>)
    ensures
        r.deep_view() == ignore_entries(contents@),
{
    let ls = split_lines(contents);
    let ghost lv = ls.deep_view();
    let mut r: Vec<String> = Vec::new();
    let mut i: usize = 0;
    while i < ls.len()
        invariant
            i <= ls@.len(),
            lv == ls.deep_view(),
            lv == lines(contents@),
            r.deep_view() == lv.take(i as int).filter_map(|l: Seq<char>| ignore_entry(l)),
        decreases ls.len() - i,
    {
        assert(lv.take(i + 1).drop_last() =~= lv.take(i as int));
        assert(lv.take(i + 1).last() == ls@[i as int]@);
        if ignore_entry_exec(&ls[i]) {
            let ghost before = r.deep_view();
            r.push(ls[i].clone());
            assert(r.deep_view() =~= before + seq![ls@[i as int]@]);
        }
        i = i + 1;
    }
    assert(lv.take(i as int) =~= lv);
    r
}

/// The ignore entries of the commit-ignore file followed by those of the
/// version-control ignore file, each distinct string once (a later identical
/// entry adds nothing). Without a commit-ignore file (`None`) nothing is
/// ignored.
pub fn get_ignore_patterns(commitignore: Option<&str>, gitignore: &str) -> (r: Vec<String>)
    ensures
        commitignore is None ==> r@.len() == 0,
        commitignore matches Some(c) ==> r.deep_view() == dedup(
            ignore_entries(c@) + ignore_entries(gitignore@),
        ),
{
    match commitignore {
        Some(c) => merge_ignore_files(c, gitignore),
        None => Vec::new(),
    }
}

/// The entries of both ignore files, the commit-ignore file first, each
/// distinct string once.
pub fn merge_ignore_files(commitignore: &str, gitignore: &str) -> (r: Vec<String>)
    ensures
        r.deep_view() == dedup(ignore_entries(commitignore@) + ignore_entries(gitignore@)),
{
    let mut all = process_gitignore_file(commitignore);
    let mut more = process_gitignore_file(gitignore);
    all.append(&mut more);
    let ghost av = all.deep_view();
    assert(av =~= ignore_entries(commitignore@) + ignore_entries(gitignore@));
    let mut r: Vec<String> = Vec::new();
    let mut i: usize = 0;
    while i < all.len()
        invariant
            i <= all@.len(),
            av == all.deep_view(),
            r.deep_view() == dedup(av.take(i as int)),
        decreases all.len() - i,
    {
        assert(av.take(i + 1).drop_last() =~= av.take(i as int));
        assert(av.take(i + 1).last() == all@[i as int]@);
        if !contains_string(&r, &all[i]) {
            let ghost before = r.deep_view();
            r.push(all[i].clone());
            assert(r.deep_view() =~= before.push(all@[i as int]@));
        }
        i = i + 1;
    }
    assert(av.take(i as int) =~= av);
    r
}

} // verus!
