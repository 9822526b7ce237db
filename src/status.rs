//! Classification of `git status --porcelain` lines and the path lists that
//! staging and commit-message generation draw from them.
//!
//! A line is `XY<sep>path` or `XY<sep>old -> new`, where `X` is the index code,
//! `Y` the working-tree code and `<sep>` a space or a tab.

use vstd::prelude::*;

use crate::errors::GitError;
use crate::text::{chars_of, is_ws, is_ws_char, lines, split_from, split_lines, string_of};

verus! {

/// The codes a porcelain status line may carry in its first two columns.
pub open spec fn in_alphabet(c: char) -> bool {
    c == 'M' || c == 'A' || c == 'D' || c == 'R' || c == 'C' || c == 'U' || c == '?' || c
        == 'T' || c == '!' || c == ' '
}

/// Codes that mark a change to stage.
pub open spec fn is_change_code(c: char) -> bool {
    c == 'M' || c == 'T' || c == 'A' || c == 'R' || c == 'C' || c == 'U' || c == '?'
}

/// Index codes of a change that is already staged.
pub open spec fn is_staged_code(c: char) -> bool {
    c == 'M' || c == 'T' || c == 'A' || c == 'R' || c == 'C' || c == 'U'
}

/// The separator between the codes and the path.
pub open spec fn is_sep(c: char) -> bool {
    c == ' ' || c == '\t'
}

/// Deleted in the working tree, the deletion not yet staged (`" D"`, `"MD"`, `"AD"`).
pub open spec fn is_unstaged_deletion(x: char, y: char) -> bool {
    y == 'D' && x != 'D'
}

/// Deletion already staged (`"D "`, `"DD"`).
pub open spec fn is_staged_deletion(x: char, y: char) -> bool {
    x == 'D'
}

/// A change to stage: neither kind of deletion, and one code marks a change.
pub open spec fn is_change(x: char, y: char) -> bool {
    !is_unstaged_deletion(x, y) && !is_staged_deletion(x, y) && (is_change_code(x)
        || is_change_code(y))
}

/// The category of each entry, in the order the rules are tried.
#[derive(Debug, Clone, Copy, PartialEq, Eq, Structural)]
pub enum FileCategory {
    UnstagedDeletion,
    StagedDeletion,
    Renamed,
    Untracked,
    Modified,
}

/// One classified status line.
#[derive(Debug)]
pub struct StatusEntry {
    pub index_code: char,
    pub worktree_code: char,
    /// The path named on the line (the old path of a rename).
    pub path: String,
    /// The new path, present exactly when the line records a rename.
    pub renamed_to: Option<String>,
}

/// A status entry as plain values.
pub ghost struct EntryView {
    pub index_code: char,
    pub worktree_code: char,
    pub path: Seq<char>,
    pub renamed_to: Option<Seq<char>>,
}

impl View for StatusEntry {
    type V = EntryView;

    open spec fn view(&self) -> EntryView {
        EntryView {
            index_code: self.index_code,
            worktree_code: self.worktree_code,
            path: self.path@,
            renamed_to: match self.renamed_to {
                Some(n) => Some(n@),
                None => None,
            },
        }
    }
}

/// The category an entry falls in, by the rules in their order.
pub open spec fn category_of(e: EntryView) -> FileCategory {
    if is_unstaged_deletion(e.index_code, e.worktree_code) {
        FileCategory::UnstagedDeletion
    } else if is_staged_deletion(e.index_code, e.worktree_code) {
        FileCategory::StagedDeletion
    } else if e.renamed_to is Some {
        FileCategory::Renamed
    } else if e.index_code == '?' && e.worktree_code == '?' {
        FileCategory::Untracked
    } else {
        FileCategory::Modified
    }
}

/// The path an entry stands for downstream: the new path of a rename, else its path.
pub open spec fn resolved_path(e: EntryView) -> Seq<char> {
    match e.renamed_to {
        Some(n) => n,
        None => e.path,
    }
}

/// `" -> "` starts at `k` in `rest`, with text before it and after it.
pub open spec fn arrow_at(rest: Seq<char>, k: int) -> bool {
    &&& 1 <= k
    &&& k + 4 < rest.len()
    &&& rest[k] == ' '
    &&& rest[k + 1] == '-'
    &&& rest[k + 2] == '>'
    &&& rest[k + 3] == ' '
}

/// The first position at or after `k` where an arrow stands.
pub open spec fn first_arrow(rest: Seq<char>, k: int) -> Option<int>
    decreases rest.len() - k,
{
    if k < 1 || k + 4 >= rest.len() {
        None
    } else if arrow_at(rest, k) {
        Some(k)
    } else {
        first_arrow(rest, k + 1)
    }
}

/// The entry a status line encodes, or `None` for a line that matches no known
/// code combination (such a line is skipped).
pub open spec fn parse_line(l: Seq<char>) -> Option<EntryView> {
    if l.len() >= 4 && in_alphabet(l[0]) && in_alphabet(l[1]) && is_sep(l[2]) && (
    is_unstaged_deletion(l[0], l[1]) || is_staged_deletion(l[0], l[1]) || is_change(
        l[0],
        l[1],
    )) {
        let rest = l.subrange(3, l.len() as int);
        match first_arrow(rest, 1) {
            Some(k) => Some(
                EntryView {
                    index_code: l[0],
                    worktree_code: l[1],
                    path: rest.subrange(0, k),
                    renamed_to: Some(rest.subrange(k + 4, rest.len() as int)),
                },
            ),
            None => Some(
                EntryView {
                    index_code: l[0],
                    worktree_code: l[1],
                    path: rest,
                    renamed_to: None,
                },
            ),
        }
    } else {
        None
    }
}

/// The entries of a status text, in line order.
pub open spec fn entries(text: Seq<char>) -> Seq<EntryView> {
    parsed(lines(text))
}

/// The entries of a list of lines.
pub open spec fn parsed(ls: Seq<Seq<char>>) -> Seq<EntryView> {
    ls.filter_map(|l: Seq<char>| parse_line(l))
}

/// Which entries a path list draws from.
#[derive(Debug, Clone, Copy, PartialEq, Eq, Structural)]
pub enum Selection {
    /// Every change to stage: modified, added, untracked, renamed (new path).
    Stageable,
    /// Deletions in the working tree that are not yet staged.
    ToStageDeletions,
    /// Deletions already staged.
    StagedDeletions,
    /// Changes whose index column shows them already staged.
    StagedChanges,
}

/// Whether an entry belongs to the list `sel` names.
pub open spec fn selects(sel: Selection, e: EntryView) -> bool {
    let x = e.index_code;
    let y = e.worktree_code;
    match sel {
        Selection::Stageable => is_change(x, y),
        Selection::ToStageDeletions => is_unstaged_deletion(x, y),
        Selection::StagedDeletions => is_staged_deletion(x, y),
        Selection::StagedChanges => is_change(x, y) && is_staged_code(x),
    }
}

/// The resolved paths of the selected entries, first occurrence kept, no repeats.
pub open spec fn unique_paths(es: Seq<EntryView>, sel: Selection) -> Seq<Seq<char>>
    decreases es.len(),
{
    if es.len() == 0 {
        Seq::empty()
    } else {
        let prev = unique_paths(es.drop_last(), sel);
        let e = es.last();
        if selects(sel, e) && !prev.contains(resolved_path(e)) {
            prev.push(resolved_path(e))
        } else {
            prev
        }
    }
}

/// The paths that `sel` draws from a status text.
pub open spec fn paths_of(text: Seq<char>, sel: Selection) -> Seq<Seq<char>> {
    unique_paths(entries(text), sel)
}

/// Number of lines whose first two characters are `"R "` or `"R\t"`.
pub open spec fn count_renames(ls: Seq<Seq<char>>) -> nat
    decreases ls.len(),
{
    if ls.len() == 0 {
        0
    } else {
        let l = ls.last();
        count_renames(ls.drop_last()) + if l.len() >= 2 && l[0] == 'R' && (l[1] == ' ' || l[1]
            == '\t') {
            1nat
        } else {
            0nat
        }
    }
}

fn in_alphabet_char(c: char) -> (r: bool)
    ensures
        r == in_alphabet(c),
{
    c == 'M' || c == 'A' || c == 'D' || c == 'R' || c == 'C' || c == 'U' || c == '?' || c == 'T'
        || c == '!' || c == ' '
}

fn is_change_code_char(c: char) -> (r: bool)
    ensures
        r == is_change_code(c),
{
    c == 'M' || c == 'T' || c == 'A' || c == 'R' || c == 'C' || c == 'U' || c == '?'
}

fn is_change_char(x: char, y: char) -> (r: bool)
    ensures
        r == is_change(x, y),
{
    !(y == 'D' && x != 'D') && x != 'D' && (is_change_code_char(x) || is_change_code_char(y))
}

fn selects_entry(sel: Selection, e: &StatusEntry) -> (r: bool)
    ensures
        r == selects(sel, e@),
{
    let x = e.index_code;
    let y = e.worktree_code;
    match sel {
        Selection::Stageable => is_change_char(x, y),
        Selection::ToStageDeletions => y == 'D' && x != 'D',
        Selection::StagedDeletions => x == 'D',
        Selection::StagedChanges => is_change_char(x, y) && (x == 'M' || x == 'T' || x == 'A'
            || x == 'R' || x == 'C' || x == 'U'),
    }
}

/// Position of the first arrow in `l[3..]`, counted within `l[3..]`.
fn find_arrow(l: &Vec<char>) -> (r: Option<usize>)
    requires
        l@.len() >= 3,
    ensures
        r matches Some(k) ==> first_arrow(l@.subrange(3, l@.len() as int), 1) == Some(k as int)
            && 1 <= k && k + 4 < l@.len() - 3,
        r is None ==> first_arrow(l@.subrange(3, l@.len() as int), 1) is None,
{
    let ghost rest = l@.subrange(3, l@.len() as int);
    let n = l.len() - 3;
    let mut k: usize = 1;
    while k < n && k + 4 < n
        invariant
            n == rest.len(),
            n + 3 == l@.len(),
            l@.len() <= usize::MAX,
            rest == l@.subrange(3, l@.len() as int),
            1 <= k <= n + 1,
            first_arrow(rest, k as int) == first_arrow(rest, 1),
        decreases n - k,
    {
        if l[k + 3] == ' ' && l[k + 4] == '-' && l[k + 5] == '>' && l[k + 6] == ' ' {
            assert(arrow_at(rest, k as int));
            return Some(k);
        }
        k = k + 1;
    }
    None
}

/// Classifies one status line; `None` for a line that matches no known code
/// combination.
pub fn parse_status_line(line: &str) -> (r: Option<StatusEntry>)
    ensures
        match r {
            Some(e) => parse_line(line@) == Some(e@),
            None => parse_line(line@) is None,
        },
{
    let l = chars_of(line);
    if l.len() < 4 {
        return None;
    }
    let x = l[0];
    let y = l[1];
    if !(in_alphabet_char(x) && in_alphabet_char(y) && (l[2] == ' ' || l[2] == '\t')) {
        return None;
    }
    if !((y == 'D' && x != 'D') || x == 'D' || is_change_char(x, y)) {
        return None;
    }
    let ghost rest = l@.subrange(3, l@.len() as int);
    match find_arrow(&l) {
        Some(k) => {
            let path = string_of(&l, 3, 3 + k);
            let new_path = string_of(&l, 3 + k + 4, l.len());
            assert(path@ =~= rest.subrange(0, k as int));
            assert(new_path@ =~= rest.subrange(k + 4, rest.len() as int));
            Some(
                StatusEntry {
                    index_code: x,
                    worktree_code: y,
                    path,
                    renamed_to: Some(new_path),
                },
            )
        },
        None => {
            let path = string_of(&l, 3, l.len());
            Some(StatusEntry { index_code: x, worktree_code: y, path, renamed_to: None })
        },
    }
}

/// Classifies every line of a status text; lines that match no known code
/// combination are left out.
pub fn parse_status(text: &str) -> (r: Vec<StatusEntry>)
    ensures
        r@.map_values(|e: StatusEntry| e@) == entries(text@),
{
    let ls = split_lines(text);
    let ghost lv = ls.deep_view();
    let mut r: Vec<StatusEntry> = Vec::new();
    let mut i: usize = 0;
    while i < ls.len()
        invariant
            i <= ls@.len(),
            lv == ls.deep_view(),
            lv == lines(text@),
            r@.map_values(|e: StatusEntry| e@) == lv.take(i as int).filter_map(
                |l: Seq<char>| parse_line(l),
            ),
        decreases ls.len() - i,
    {
        let ghost before = r@.map_values(|e: StatusEntry| e@);
        assert(lv.take(i + 1).drop_last() =~= lv.take(i as int));
        assert(lv.take(i + 1).last() == ls@[i as int]@);
        match parse_status_line(ls[i].as_str()) {
            Some(e) => {
                r.push(e);
                assert(r@.map_values(|e: StatusEntry| e@) =~= before + seq![e@]);
            },
            None => {},
        }
        i = i + 1;
    }
    assert(lv.take(i as int) =~= lv);
    r
}

proof fn lemma_unique_paths_contains(es: Seq<EntryView>, sel: Selection, p: Seq<char>)
    ensures
        unique_paths(es, sel).contains(p) <==> exists|i: int|
            0 <= i < es.len() && selects(sel, #[trigger] es[i]) && resolved_path(es[i]) == p,
    decreases es.len(),
{
    if es.len() > 0 {
        let prev = es.drop_last();
        lemma_unique_paths_contains(prev, sel, p);
        if unique_paths(es, sel).contains(p) {
            if unique_paths(prev, sel).contains(p) {
                let i = choose|i: int|
                    0 <= i < prev.len() && selects(sel, #[trigger] prev[i]) && resolved_path(
                        prev[i],
                    ) == p;
                assert(es[i] == prev[i]);
            } else {
                assert(es[es.len() - 1] == es.last());
            }
        } else {
            let up = unique_paths(prev, sel);
            if up.contains(p) {
                let k = choose|k: int| 0 <= k < up.len() && up[k] == p;
                assert(unique_paths(es, sel)[k] == p);
                assert(false);
            }
            assert forall|i: int|
                0 <= i < es.len() && selects(sel, #[trigger] es[i]) implies resolved_path(es[i])
                != p by {
                if i < es.len() - 1 {
                    assert(es[i] == prev[i]);
                } else {
                    assert(es[i] == es.last());
                    let up = unique_paths(prev, sel);
                    if resolved_path(es[i]) == p {
                        if up.contains(p) {
                            assert(unique_paths(es, sel) == up);
                            assert(false);
                        } else {
                            assert(unique_paths(es, sel) == up.push(p));
                            assert(unique_paths(es, sel)[up.len() as int] == p);
                            assert(unique_paths(es, sel).contains(p));
                            assert(false);
                        }
                    }
                }
            }
        }
    }
}

/// The selected paths of a list of entries, first occurrence kept, no repeats.
pub fn select_paths(es: &Vec<StatusEntry>, sel: Selection) -> (r: Vec<String>)
    ensures
        r.deep_view() == unique_paths(es@.map_values(|e: StatusEntry| e@), sel),
{
    let ghost ev = es@.map_values(|e: StatusEntry| e@);
    let mut r: Vec<String> = Vec::new();
    let mut i: usize = 0;
    while i < es.len()
        invariant
            i <= es@.len(),
            ev == es@.map_values(|e: StatusEntry| e@),
            r.deep_view() == unique_paths(ev.take(i as int), sel),
        decreases es.len() - i,
    {
        let e = &es[i];
        assert(ev.take(i + 1).drop_last() =~= ev.take(i as int));
        assert(ev.take(i + 1).last() == e@);
        if selects_entry(sel, e) {
            let p = match &e.renamed_to {
                Some(n) => n.clone(),
                None => e.path.clone(),
            };
            assert(p@ == resolved_path(e@));
            let mut seen = false;
            let mut j: usize = 0;
            while j < r.len()
                invariant
                    j <= r@.len(),
                    seen == exists|k: int| 0 <= k < j && r.deep_view()[k] == p@,
                decreases r.len() - j,
            {
                if r[j] == p {
                    seen = true;
                }
                proof {
                    if r.deep_view()[j as int] == p@ {
                        assert(0 <= j < j + 1 && r.deep_view()[j as int] == p@);
                    }
                }
                j = j + 1;
            }
            assert(seen == r.deep_view().contains(p@));
            if !seen {
                let ghost before = r.deep_view();
                r.push(p);
                assert(r.deep_view() =~= before.push(p@));
            }
        }
        i = i + 1;
    }
    assert(ev.take(i as int) =~= ev);
    r
}

/// The paths to stage: every change except deletions, renames by their new path,
/// each path once.
pub fn get_status_files(status: &str) -> (r: Vec<String>)
    ensures
        r.deep_view() == paths_of(status@, Selection::Stageable),
{
    let es = parse_status(status);
    select_paths(&es, Selection::Stageable)
}

/// Deletions in the working tree that still have to be staged (`" D"`, `"MD"`, `"AD"`).
pub fn process_deleted_files_for_staging(message: &str) -> (r: Result<Vec<String>, GitError>)
    ensures
        r matches Ok(v) && v.deep_view() == paths_of(message@, Selection::ToStageDeletions),
{
    let es = parse_status(message);
    Ok(select_paths(&es, Selection::ToStageDeletions))
}

/// Deletions already staged (`"D "`, `"DD"`), as the commit message lists them.
pub fn process_deleted_files_for_commit_message(message: &str) -> (r: Result<
    Vec<String>,
    GitError,
>)
    ensures
        r matches Ok(v) && v.deep_view() == paths_of(message@, Selection::StagedDeletions),
{
    let es = parse_status(message);
    Ok(select_paths(&es, Selection::StagedDeletions))
}

/// Changes already staged in the index, renames by their new path.
pub fn process_git_status(message: &str) -> (r: Result<Vec<String>, GitError>)
    ensures
        r matches Ok(v) && v.deep_view() == paths_of(message@, Selection::StagedChanges),
{
    let es = parse_status(message);
    Ok(select_paths(&es, Selection::StagedChanges))
}

/// Number of rename lines (`"R "` or `"R\t"` at the start), which the staged
/// diff reports twice.
pub fn count_renamed_files(message: &str) -> (r: usize)
    ensures
        r == count_renames(lines(message@)),
{
    let ls = split_lines(message);
    let ghost lv = ls.deep_view();
    let mut n: usize = 0;
    let mut i: usize = 0;
    while i < ls.len()
        invariant
            i <= ls@.len(),
            lv == ls.deep_view(),
            n == count_renames(lv.take(i as int)),
            n <= i,
        decreases ls.len() - i,
    {
        let l = chars_of(ls[i].as_str());
        assert(lv.take(i + 1).drop_last() =~= lv.take(i as int));
        assert(lv.take(i + 1).last() == l@);
        if l.len() >= 2 && l[0] == 'R' && (l[1] == ' ' || l[1] == '\t') {
            n = n + 1;
        }
        i = i + 1;
    }
    assert(lv.take(i as int) =~= lv);
    n
}

/// Characters a path may hold in the plain deletion listing.
pub open spec fn is_name_char(c: char) -> bool {
    ('a' <= c && c <= 'z') || ('A' <= c && c <= 'Z') || ('0' <= c && c <= '9') || c == '/' || c
        == '_' || c == '-' || c == '.'
}

/// Start of the longest run of name characters that ends at `j`.
pub open spec fn name_start(l: Seq<char>, j: int) -> int
    decreases j,
{
    if j <= 0 {
        0
    } else if is_name_char(l[j - 1]) {
        name_start(l, j - 1)
    } else {
        j
    }
}

/// Every character of `l[a..b]` is whitespace.
pub open spec fn all_ws(l: Seq<char>, a: int, b: int) -> bool {
    forall|i: int| a <= i < b ==> is_ws(#[trigger] l[i])
}

/// The path the plain deletion listing takes from a line: a line of whitespace
/// and a path, or `" D"` / an upper-case letter and `D`, then whitespace and a
/// path made of name characters.
pub open spec fn plain_deleted_name(l: Seq<char>) -> Option<Seq<char>> {
    let k = name_start(l, l.len() as int);
    if (k >= 1 && all_ws(l, 0, k)) || (k >= 3 && l[1] == 'D' && (is_ws(l[0]) || ('A' <= l[0]
        && l[0] <= 'Z')) && all_ws(l, 2, k)) {
        Some(l.subrange(k, l.len() as int))
    } else {
        None
    }
}

fn is_name_char_exec(c: char) -> (r: bool)
    ensures
        r == is_name_char(c),
{
    ('a' <= c && c <= 'z') || ('A' <= c && c <= 'Z') || ('0' <= c && c <= '9') || c == '/' || c
        == '_' || c == '-' || c == '.'
}

fn all_ws_exec(l: &Vec<char>, a: usize, b: usize) -> (r: bool)
    requires
        a <= b <= l@.len(),
    ensures
        r == all_ws(l@, a as int, b as int),
{
    let mut i: usize = a;
    while i < b
        invariant
            a <= i <= b <= l@.len(),
            all_ws(l@, a as int, i as int),
        decreases b - i,
    {
        if !is_ws_char(l[i]) {
            return false;
        }
        i = i + 1;
    }
    true
}

fn plain_deleted_name_exec(l: &Vec<char>) -> (r: Option<String>)
    ensures
        match r {
            Some(n) => plain_deleted_name(l@) == Some(n@),
            None => plain_deleted_name(l@) is None,
        },
{
    let mut k: usize = l.len();
    while k > 0 && is_name_char_exec(l[k - 1])
        invariant
            k <= l@.len(),
            name_start(l@, k as int) == name_start(l@, l@.len() as int),
        decreases k,
    {
        k = k - 1;
    }
    let ok = (k >= 1 && all_ws_exec(l, 0, k)) || (k >= 3 && l[1] == 'D' && (is_ws_char(l[0]) || (
    'A' <= l[0] && l[0] <= 'Z')) && all_ws_exec(l, 2, k));
    if ok {
        Some(string_of(l, k, l.len()))
    } else {
        None
    }
}

/// The deletions of a status text as the plain listing reads them: `" D"` and
/// `"<letter>D"` lines (so `"AD"` and `"DD"`, not `"D "`) whose path holds only
/// letters, digits and `/_-.`, in line order.
pub fn process_deleted_files(message: &str) -> (r: Result<Vec<String>, GitError>)
    ensures
        r matches Ok(v) && v.deep_view() == lines(message@).filter_map(
            |l: Seq<char>| plain_deleted_name(l),
        ),
{
    let ls = split_lines(message);
    let ghost lv = ls.deep_view();
    let mut r: Vec<String> = Vec::new();
    let mut i: usize = 0;
    while i < ls.len()
        invariant
            i <= ls@.len(),
            lv == ls.deep_view(),
            lv == lines(message@),
            r.deep_view() == lv.take(i as int).filter_map(|l: Seq<char>| plain_deleted_name(l)),
        decreases ls.len() - i,
    {
        let l = chars_of(ls[i].as_str());
        assert(lv.take(i + 1).drop_last() =~= lv.take(i as int));
        assert(lv.take(i + 1).last() == l@);
        let ghost before = r.deep_view();
        match plain_deleted_name_exec(&l) {
            Some(n) => {
                r.push(n);
                assert(r.deep_view() =~= before + seq![n@]);
            },
            None => {},
        }
        i = i + 1;
    }
    assert(lv.take(i as int) =~= lv);
    Ok(r)
}

/// A line with codes `" D"`, `"MD"` or `"AD"`, a separator and a path is read
/// as a working-tree deletion that is not yet staged.
pub proof fn lemma_worktree_deletion_codes(l: Seq<char>)
    requires
        l.len() >= 4,
        l[0] == ' ' || l[0] == 'M' || l[0] == 'A',
        l[1] == 'D',
        is_sep(l[2]),
    ensures
        parse_line(l) matches Some(e) && category_of(e) == FileCategory::UnstagedDeletion,
{
}

/// A line with codes `"D "` or `"DD"`, a separator and a path is read as a
/// deletion already staged.
pub proof fn lemma_staged_deletion_codes(l: Seq<char>)
    requires
        l.len() >= 4,
        l[0] == 'D',
        l[1] == ' ' || l[1] == 'D',
        is_sep(l[2]),
    ensures
        parse_line(l) matches Some(e) && category_of(e) == FileCategory::StagedDeletion,
{
}

/// A path that the status text names only on working-tree deletion lines is
/// among the deletions to stage, and neither among the staged deletions nor
/// among the paths to stage.
pub proof fn lemma_worktree_deletion_placement(text: Seq<char>, p: Seq<char>)
    requires
        exists|i: int|
            0 <= i < entries(text).len() && resolved_path(#[trigger] entries(text)[i]) == p,
        forall|i: int|
            0 <= i < entries(text).len() && resolved_path(#[trigger] entries(text)[i]) == p
                ==> category_of(entries(text)[i]) == FileCategory::UnstagedDeletion,
    ensures
        paths_of(text, Selection::ToStageDeletions).contains(p),
        !paths_of(text, Selection::StagedDeletions).contains(p),
        !paths_of(text, Selection::Stageable).contains(p),
{
    let es = entries(text);
    lemma_unique_paths_contains(es, Selection::ToStageDeletions, p);
    lemma_unique_paths_contains(es, Selection::StagedDeletions, p);
    lemma_unique_paths_contains(es, Selection::Stageable, p);
    let i = choose|i: int| 0 <= i < es.len() && resolved_path(#[trigger] es[i]) == p;
    assert(selects(Selection::ToStageDeletions, es[i]));
}

/// A path that the status text names only on staged deletion lines is among
/// the staged deletions and in no other list.
pub proof fn lemma_staged_deletion_placement(text: Seq<char>, p: Seq<char>)
    requires
        exists|i: int|
            0 <= i < entries(text).len() && resolved_path(#[trigger] entries(text)[i]) == p,
        forall|i: int|
            0 <= i < entries(text).len() && resolved_path(#[trigger] entries(text)[i]) == p
                ==> category_of(entries(text)[i]) == FileCategory::StagedDeletion,
    ensures
        paths_of(text, Selection::StagedDeletions).contains(p),
        !paths_of(text, Selection::ToStageDeletions).contains(p),
        !paths_of(text, Selection::Stageable).contains(p),
        !paths_of(text, Selection::StagedChanges).contains(p),
{
    let es = entries(text);
    lemma_unique_paths_contains(es, Selection::ToStageDeletions, p);
    lemma_unique_paths_contains(es, Selection::StagedDeletions, p);
    lemma_unique_paths_contains(es, Selection::Stageable, p);
    lemma_unique_paths_contains(es, Selection::StagedChanges, p);
    let i = choose|i: int| 0 <= i < es.len() && resolved_path(#[trigger] es[i]) == p;
    assert(selects(Selection::StagedDeletions, es[i]));
}

/// Every parsed entry carries a recognised code combination.
proof fn lemma_parsed_recognized(ls: Seq<Seq<char>>)
    ensures
        forall|i: int|
            0 <= i < parsed(ls).len() ==> {
                let e = #[trigger] parsed(ls)[i];
                is_unstaged_deletion(e.index_code, e.worktree_code) || is_staged_deletion(
                    e.index_code,
                    e.worktree_code,
                ) || is_change(e.index_code, e.worktree_code)
            },
    decreases ls.len(),
{
    if ls.len() > 0 {
        lemma_parsed_recognized(ls.drop_last());
        assert forall|i: int| 0 <= i < parsed(ls).len() implies {
            let e = #[trigger] parsed(ls)[i];
            is_unstaged_deletion(e.index_code, e.worktree_code) || is_staged_deletion(
                e.index_code,
                e.worktree_code,
            ) || is_change(e.index_code, e.worktree_code)
        } by {
            let prev = parsed(ls.drop_last());
            if i < prev.len() {
                assert(parsed(ls)[i] == prev[i]);
            }
        }
    }
}

/// A rename among the changes contributes its new path to the paths to stage;
/// its old path is there only if some entry of the text stands for that path.
pub proof fn lemma_rename_contributes_new_path(text: Seq<char>, i: int)
    requires
        0 <= i < entries(text).len(),
        category_of(entries(text)[i]) == FileCategory::Renamed,
    ensures
        paths_of(text, Selection::Stageable).contains(entries(text)[i].renamed_to->Some_0),
        paths_of(text, Selection::Stageable).contains(entries(text)[i].path) ==> exists|j: int|
            0 <= j < entries(text).len() && resolved_path(#[trigger] entries(text)[j])
                == entries(text)[i].path,
{
    let es = entries(text);
    lemma_parsed_recognized(lines(text));
    lemma_unique_paths_contains(es, Selection::Stageable, es[i].renamed_to->Some_0);
    lemma_unique_paths_contains(es, Selection::Stageable, es[i].path);
    assert(selects(Selection::Stageable, es[i]));
}

/// Every entry lands in exactly the lists its category calls for: a path is in
/// a list if and only if some entry of that list's kind stands for it.
pub proof fn lemma_paths_of_members(text: Seq<char>, sel: Selection, p: Seq<char>)
    ensures
        paths_of(text, sel).contains(p) <==> exists|i: int|
            0 <= i < entries(text).len() && selects(sel, #[trigger] entries(text)[i])
                && resolved_path(entries(text)[i]) == p,
{
    lemma_unique_paths_contains(entries(text), sel, p);
}

proof fn lemma_unique_paths_distinct(es: Seq<EntryView>, sel: Selection)
    ensures
        unique_paths(es, sel).no_duplicates(),
    decreases es.len(),
{
    if es.len() > 0 {
        lemma_unique_paths_distinct(es.drop_last(), sel);
        let prev = unique_paths(es.drop_last(), sel);
        let e = es.last();
        if selects(sel, e) && !prev.contains(resolved_path(e)) {
            let r = prev.push(resolved_path(e));
            assert forall|i: int, j: int| 0 <= i < r.len() && 0 <= j < r.len() && i != j implies r[i]
                != r[j] by {
                if i < prev.len() && j < prev.len() {
                    assert(r[i] == prev[i] && r[j] == prev[j]);
                } else if i < prev.len() {
                    assert(r[i] == prev[i]);
                } else {
                    assert(r[j] == prev[j]);
                }
            }
        }
    }
}

/// Every path list drawn from a status text names each path at most once.
pub proof fn lemma_paths_distinct(text: Seq<char>, sel: Selection)
    ensures
        paths_of(text, sel).no_duplicates(),
{
    lemma_unique_paths_distinct(entries(text), sel);
}

proof fn lemma_split_without_separator(s: Seq<char>, sep: char, i: int)
    requires
        0 <= i <= s.len(),
        s.len() > 0,
        forall|k: int| i <= k < s.len() ==> s[k] != sep,
    ensures
        split_from(s, sep, 0, i) == seq![s],
    decreases s.len() - i,
{
    if i >= s.len() {
        assert(s.subrange(0, s.len() as int) =~= s);
    } else {
        lemma_split_without_separator(s, sep, i + 1);
    }
}

/// A non-empty text without a newline is one line.
proof fn lemma_one_line(s: Seq<char>)
    requires
        s.len() > 0,
        forall|k: int| 0 <= k < s.len() ==> s[k] != '\n',
    ensures
        lines(s) == seq![s],
{
    lemma_split_without_separator(s, '\n', 0);
    assert(lines(s) =~= seq![s]);
}

/// The lists drawn from a one-line text hold that line's path exactly when the
/// line's entry belongs to them.
proof fn lemma_one_line_paths(l: Seq<char>, e: EntryView, sel: Selection)
    requires
        l.len() > 0,
        forall|k: int| 0 <= k < l.len() ==> l[k] != '\n',
        parse_line(l) == Some(e),
    ensures
        paths_of(l, sel) == if selects(sel, e) {
            seq![resolved_path(e)]
        } else {
            Seq::empty()
        },
{
    lemma_one_line(l);
    let ls = seq![l];
    assert(ls.drop_last() =~= Seq::<Seq<char>>::empty());
    assert(ls.last() == l);
    assert(parsed(Seq::empty()) =~= Seq::<EntryView>::empty());
    assert(parsed(ls) == parsed(ls.drop_last()) + seq![e]);
    assert(entries(l) =~= seq![e]);
    let es = seq![e];
    assert(es.drop_last() =~= Seq::<EntryView>::empty());
    assert(es.last() == e);
    assert(unique_paths(Seq::<EntryView>::empty(), sel) =~= Seq::<Seq<char>>::empty());
    if selects(sel, e) {
        assert(unique_paths(es, sel) =~= seq![resolved_path(e)]);
    } else {
        assert(unique_paths(es, sel) =~= Seq::<Seq<char>>::empty());
    }
}

/// A status line `" D p"`, `"MD p"` or `"AD p"` (the path holding no arrow)
/// puts `p` among the deletions to stage and in no other list.
pub proof fn lemma_worktree_deletion_line(x: char, p: Seq<char>)
    requires
        x == ' ' || x == 'M' || x == 'A',
        p.len() > 0,
        forall|k: int| 0 <= k < p.len() ==> p[k] != '\n',
        first_arrow(p, 1) is None,
    ensures
        paths_of(seq![x, 'D', ' '] + p, Selection::ToStageDeletions) == seq![p],
        paths_of(seq![x, 'D', ' '] + p, Selection::StagedDeletions).len() == 0,
        paths_of(seq![x, 'D', ' '] + p, Selection::Stageable).len() == 0,
{
    let l = seq![x, 'D', ' '] + p;
    assert(l.subrange(3, l.len() as int) =~= p);
    let e = EntryView { index_code: x, worktree_code: 'D', path: p, renamed_to: None };
    assert(parse_line(l) == Some(e));
    assert forall|k: int| 0 <= k < l.len() implies l[k] != '\n' by {
        if k >= 3 {
            assert(l[k] == p[k - 3]);
        }
    }
    lemma_one_line_paths(l, e, Selection::ToStageDeletions);
    lemma_one_line_paths(l, e, Selection::StagedDeletions);
    lemma_one_line_paths(l, e, Selection::Stageable);
}

/// A status line `"D  p"` or `"DD p"` (the path holding no arrow) puts `p`
/// among the staged deletions and in no other list.
pub proof fn lemma_staged_deletion_line(y: char, p: Seq<char>)
    requires
        y == ' ' || y == 'D',
        p.len() > 0,
        forall|k: int| 0 <= k < p.len() ==> p[k] != '\n',
        first_arrow(p, 1) is None,
    ensures
        paths_of(seq!['D', y, ' '] + p, Selection::StagedDeletions) == seq![p],
        paths_of(seq!['D', y, ' '] + p, Selection::ToStageDeletions).len() == 0,
        paths_of(seq!['D', y, ' '] + p, Selection::Stageable).len() == 0,
        paths_of(seq!['D', y, ' '] + p, Selection::StagedChanges).len() == 0,
{
    let l = seq!['D', y, ' '] + p;
    assert(l.subrange(3, l.len() as int) =~= p);
    let e = EntryView { index_code: 'D', worktree_code: y, path: p, renamed_to: None };
    assert(parse_line(l) == Some(e));
    assert forall|k: int| 0 <= k < l.len() implies l[k] != '\n' by {
        if k >= 3 {
            assert(l[k] == p[k - 3]);
        }
    }
    lemma_one_line_paths(l, e, Selection::StagedDeletions);
    lemma_one_line_paths(l, e, Selection::ToStageDeletions);
    lemma_one_line_paths(l, e, Selection::Stageable);
    lemma_one_line_paths(l, e, Selection::StagedChanges);
}

proof fn lemma_first_arrow_at(rest: Seq<char>, k: int, target: int)
    requires
        1 <= k <= target,
        arrow_at(rest, target),
        forall|j: int| k <= j < target ==> rest[j] != ' ',
    ensures
        first_arrow(rest, k) == Some(target),
    decreases target - k,
{
    if k < target {
        lemma_first_arrow_at(rest, k + 1, target);
    }
}

/// A rename line `"R  old -> new"` (paths without spaces or newlines) puts
/// `new`, and never `old`, among the paths to stage, and counts as one rename.
pub proof fn lemma_rename_line(old: Seq<char>, new: Seq<char>)
    requires
        old.len() > 0,
        new.len() > 0,
        old != new,
        forall|k: int| 0 <= k < old.len() ==> old[k] != ' ' && old[k] != '\n',
        forall|k: int| 0 <= k < new.len() ==> new[k] != ' ' && new[k] != '\n',
    ensures
        paths_of(seq!['R', ' ', ' '] + old + seq![' ', '-', '>', ' '] + new, Selection::Stageable)
            == seq![new],
        !paths_of(
            seq!['R', ' ', ' '] + old + seq![' ', '-', '>', ' '] + new,
            Selection::Stageable,
        ).contains(old),
        count_renames(lines(seq!['R', ' ', ' '] + old + seq![' ', '-', '>', ' '] + new)) == 1,
{
    let l = seq!['R', ' ', ' '] + old + seq![' ', '-', '>', ' '] + new;
    let rest = l.subrange(3, l.len() as int);
    assert(rest =~= old + seq![' ', '-', '>', ' '] + new);
    let n = old.len() as int;
    assert(rest[n] == ' ' && rest[n + 1] == '-' && rest[n + 2] == '>' && rest[n + 3] == ' ');
    assert forall|j: int| 1 <= j < n implies rest[j] != ' ' by {
        assert(rest[j] == old[j]);
    }
    lemma_first_arrow_at(rest, 1, n);
    assert(rest.subrange(0, n) =~= old);
    assert(rest.subrange(n + 4, rest.len() as int) =~= new);
    let e = EntryView { index_code: 'R', worktree_code: ' ', path: old, renamed_to: Some(new) };
    assert(parse_line(l) == Some(e));
    assert forall|k: int| 0 <= k < l.len() implies l[k] != '\n' by {
        if 3 <= k < 3 + n {
            assert(l[k] == old[k - 3]);
        } else if k >= 7 + n {
            assert(l[k] == new[k - 7 - n]);
        }
    }
    lemma_one_line_paths(l, e, Selection::Stageable);
    assert(seq![new][0] == new);
    if seq![new].contains(old) {
        assert(seq![new][0] == old);
    }
    lemma_one_line(l);
    assert(seq![l].drop_last() =~= Seq::<Seq<char>>::empty());
    assert(seq![l].last() == l);
    assert(l[0] == 'R' && l[1] == ' ');
    assert(count_renames(Seq::<Seq<char>>::empty()) == 0);
}

} // verus!
