//! Updates to the repository's local exclude file (`.git/info/exclude`): which
//! paths still need a line, and the text appended for them.

use vstd::prelude::*;

use crate::text::{chars_of, contains_string, lines, split_lines, trim, trim_chars};

verus! {

/// The marker line written before the first paths this tool adds.
pub open spec fn marker() -> Seq<char> {
    "# Added by git-commit-rust"@
}

/// `needle` occurs in `hay` starting at `i`.
pub open spec fn occurs_at(hay: Seq<char>, needle: Seq<char>, i: int) -> bool {
    0 <= i && i + needle.len() <= hay.len() && hay.subrange(i, i + needle.len()) == needle
}

/// `needle` occurs somewhere in `hay`.
pub open spec fn occurs_in(hay: Seq<char>, needle: Seq<char>) -> bool {
    exists|i: int| occurs_at(hay, needle, i)
}

/// The lines of the exclude file that name a path: not a comment, not blank.
pub open spec fn is_path_line(l: Seq<char>) -> bool {
    !(l.len() > 0 && l[0] == '#') && trim(l).len() > 0
}

/// The exclude file lists `p` on a path line of its own.
pub open spec fn listed(content: Seq<char>, p: Seq<char>) -> bool {
    exists|i: int|
        0 <= i < lines(content).len() && is_path_line(#[trigger] lines(content)[i])
            && lines(content)[i] == p
}

/// The paths not yet listed, in order (a path given twice is kept twice).
pub open spec fn missing_paths(content: Seq<char>, paths: Seq<Seq<char>>) -> Seq<Seq<char>>
    decreases paths.len(),
{
    if paths.len() == 0 {
        Seq::empty()
    } else {
        let prev = missing_paths(content, paths.drop_last());
        if listed(content, paths.last()) {
            prev
        } else {
            prev.push(paths.last())
        }
    }
}

/// Each path on a line of its own.
pub open spec fn path_lines(paths: Seq<Seq<char>>) -> Seq<char>
    decreases paths.len(),
{
    if paths.len() == 0 {
        Seq::empty()
    } else {
        path_lines(paths.drop_last()) + paths.last() + "\n"@
    }
}

/// The text to append to an exclude file holding `content` so that it lists
/// every path: nothing when all are listed; else the marker line (after a line
/// break when the file is not empty) unless the file already holds it, then
/// one line per missing path.
pub open spec fn exclude_addition(content: Seq<char>, paths: Seq<Seq<char>>) -> Seq<char> {
    let missing = missing_paths(content, paths);
    if missing.len() == 0 {
        Seq::empty()
    } else {
        let head = if occurs_in(content, marker()) {
            Seq::empty()
        } else if content.len() > 0 {
            "\n"@ + marker() + "\n"@
        } else {
            marker() + "\n"@
        };
        head + path_lines(missing)
    }
}

fn occurs_in_exec(hay: &Vec<char>, needle: &Vec<char>) -> (r: bool)
    ensures
        r == occurs_in(hay@, needle@),
{
    if needle.len() > hay.len() {
        assert forall|i: int| !occurs_at(hay@, needle@, i) by {}
        return false;
    }
    let last = hay.len() - needle.len();
    let mut i: usize = 0;
    while i <= last
        invariant
            last + needle@.len() == hay@.len(),
            hay@.len() <= usize::MAX,
            forall|k: int| 0 <= k < i ==> !occurs_at(hay@, needle@, k),
        decreases last + 1 - i,
    {
        let mut j: usize = 0;
        let mut same = true;
        while j < needle.len()
            invariant
                j <= needle@.len(),
                i <= last,
                last + needle@.len() == hay@.len(),
                hay@.len() <= usize::MAX,
                same == forall|m: int| 0 <= m < j ==> hay@[i + m] == needle@[m],
            decreases needle.len() - j,
        {
            if hay[i + j] != needle[j] {
                same = false;
            }
            j = j + 1;
        }
        if same {
            assert(hay@.subrange(i as int, i + needle@.len()) =~= needle@);
            assert(occurs_at(hay@, needle@, i as int));
            return true;
        }
        assert(!occurs_at(hay@, needle@, i as int)) by {
            if hay@.subrange(i as int, i + needle@.len()) == needle@ {
                assert forall|m: int| 0 <= m < j implies hay@[i + m] == needle@[m] by {
                    assert(hay@.subrange(i as int, i + needle@.len())[m] == hay@[i + m]);
                }
            }
        }
        if i == last {
            assert forall|k: int| !occurs_at(hay@, needle@, k) by {
                if 0 <= k < i {
                } else if k == i {
                } else {
                }
            }
            return false;
        }
        i = i + 1;
    }
    false
}

/// The text to append to the exclude file, as `exclude_addition` states.
pub fn exclude_file_addition(content: &str, paths: &Vec<String>) -> (r: String)
    ensures
        r@ == exclude_addition(content@, paths.deep_view()),
{
    let ls = split_lines(content);
    let ghost lv = ls.deep_view();
    let mut listed_lines: Vec<String> = Vec::new();
    let mut i: usize = 0;
    while i < ls.len()
        invariant
            i <= ls@.len(),
            lv == ls.deep_view(),
            lv == lines(content@),
            forall|p: Seq<char>|
                listed_lines.deep_view().contains(p) <==> exists|k: int|
                    0 <= k < i && is_path_line(#[trigger] lv[k]) && lv[k] == p,
        decreases ls.len() - i,
    {
        let l = chars_of(ls[i].as_str());
        assert(l@ == lv[i as int]);
        let t = trim_chars(&l);
        let comment = l.len() > 0 && l[0] == '#';
        let ghost before = listed_lines.deep_view();
        if !comment && !t.as_str().is_empty() {
            listed_lines.push(ls[i].clone());
            assert(listed_lines.deep_view() =~= before.push(l@));
        }
        assert forall|p: Seq<char>|
            listed_lines.deep_view().contains(p) <==> exists|k: int|
                0 <= k < i + 1 && is_path_line(#[trigger] lv[k]) && lv[k] == p by {
            if listed_lines.deep_view().contains(p) {
                if before.contains(p) {
                } else {
                    assert(is_path_line(lv[i as int]) && lv[i as int] == p);
                }
            }
            if exists|k: int| 0 <= k < i + 1 && is_path_line(#[trigger] lv[k]) && lv[k] == p {
                let k = choose|k: int| 0 <= k < i + 1 && is_path_line(#[trigger] lv[k]) && lv[k] == p;
                if k < i {
                    assert(before.contains(p));
                    let m = choose|m: int| 0 <= m < before.len() && before[m] == p;
                    assert(listed_lines.deep_view()[m] == p);
                } else {
                    assert(listed_lines.deep_view().last() == p);
                }
            }
        }
        i = i + 1;
    }
    let ghost pv = paths.deep_view();
    let mut missing: Vec<String> = Vec::new();
    let mut j: usize = 0;
    while j < paths.len()
        invariant
            j <= paths@.len(),
            pv == paths.deep_view(),
            lv == lines(content@),
            forall|p: Seq<char>|
                listed_lines.deep_view().contains(p) <==> exists|k: int|
                    0 <= k < lv.len() && is_path_line(#[trigger] lv[k]) && lv[k] == p,
            missing.deep_view() == missing_paths(content@, pv.take(j as int)),
        decreases paths.len() - j,
    {
        assert(pv.take(j + 1).drop_last() =~= pv.take(j as int));
        assert(pv.take(j + 1).last() == paths@[j as int]@);
        if !contains_string(&listed_lines, &paths[j]) {
            let ghost before = missing.deep_view();
            missing.push(paths[j].clone());
            assert(missing.deep_view() =~= before.push(paths@[j as int]@));
        }
        j = j + 1;
    }
    assert(pv.take(j as int) =~= pv);
    let mut out = String::new();
    if missing.len() == 0 {
        return out;
    }
    let c = chars_of(content);
    let m = chars_of("# Added by git-commit-rust");
    if !occurs_in_exec(&c, &m) {
        if c.len() > 0 {
            out.append("\n");
        }
        out.append("# Added by git-commit-rust");
        out.append("\n");
    }
    let ghost head = out@;
    let ghost mv = missing.deep_view();
    let mut k: usize = 0;
    while k < missing.len()
        invariant
            k <= missing@.len(),
            mv == missing.deep_view(),
            out@ == head + path_lines(mv.take(k as int)),
        decreases missing.len() - k,
    {
        assert(mv.take(k + 1).drop_last() =~= mv.take(k as int));
        assert(mv.take(k + 1).last() == missing@[k as int]@);
        out.append(missing[k].as_str());
        out.append("\n");
        assert(out@ =~= head + path_lines(mv.take(k + 1)));
        k = k + 1;
    }
    assert(mv.take(k as int) =~= mv);
    assert(out@ =~= exclude_addition(content@, paths.deep_view()));
    out
}

} // verus!
