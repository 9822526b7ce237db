//! The commit message: its header, a placeholder line for each changed file
//! that is not ignored, and a line for each staged deletion.

use vstd::prelude::*;

use crate::branch::{COMMIT_TYPES, format_branch_name, strip_type_prefix, types_view};
use crate::ignore::{is_ignored, should_ignore_file};
use crate::status::{Selection, parse_status, paths_of, select_paths};
use crate::text::{chars_of, has_prefix, push_char, starts_with_chars, trim, trim_chars};

verus! {

/// The file the commit message is written to.
pub const COMMIT_MESSAGE_FILE_PATH: &'static str = "commit_message.md";

/// The character of the decimal digit `d`.
pub open spec fn digit_char(d: nat) -> char {
    seq!['0', '1', '2', '3', '4', '5', '6', '7', '8', '9'][d as int]
}

/// The decimal digits of `n`, most significant first.
pub open spec fn decimal(n: nat) -> Seq<char>
    decreases n,
{
    if n < 10 {
        seq![digit_char(n)]
    } else {
        decimal(n / 10).push(digit_char(n % 10))
    }
}

fn push_decimal(s: &mut String, n: u64)
    ensures
        final(s)@ == old(s)@ + decimal(n as nat),
    decreases n,
{
    let digits: [char; 10] = ['0', '1', '2', '3', '4', '5', '6', '7', '8', '9'];
    assert(digits@ =~= seq!['0', '1', '2', '3', '4', '5', '6', '7', '8', '9']);
    if n >= 10 {
        push_decimal(s, n / 10);
    }
    push_char(s, digits[(n % 10) as usize]);
    assert(s@ =~= old(s)@ + decimal(n as nat));
}

/// `n` written in decimal.
pub fn decimal_string(n: u64) -> (r: String)
    ensures
        r@ == decimal(n as nat),
{
    let mut s = String::new();
    push_decimal(&mut s, n);
    assert(s@ =~= decimal(n as nat));
    s
}

/// `"[N] (<type> on <branch>)"`, or `"(<type> on <branch>)"` without a number.
pub open spec fn header_of(commit_type: Seq<char>, branch: Seq<char>, number: Option<nat>) -> Seq<
    char,
> {
    let num = match number {
        Some(n) => "["@ + decimal(n) + "] "@,
        None => Seq::empty(),
    };
    num + "("@ + commit_type + " on "@ + branch + ")"@
}

/// The placeholder line inviting a description of one file.
pub open spec fn file_entry(f: Seq<char>) -> Seq<char> {
    "- `"@ + f + "`:\n\n\t\n\n"@
}

/// The line recording one deletion.
pub open spec fn deleted_entry(f: Seq<char>) -> Seq<char> {
    "- `"@ + f + "`: deleted\n\n"@
}

/// The placeholder lines of the files that the ignore entries do not cover.
pub open spec fn file_entries(files: Seq<Seq<char>>, ignore: Seq<Seq<char>>) -> Seq<char>
    decreases files.len(),
{
    if files.len() == 0 {
        Seq::empty()
    } else {
        file_entries(files.drop_last(), ignore) + if is_ignored(files.last(), ignore) {
            Seq::empty()
        } else {
            file_entry(files.last())
        }
    }
}

/// The lines of the deletions; deletions are never filtered.
pub open spec fn deleted_entries(files: Seq<Seq<char>>) -> Seq<char>
    decreases files.len(),
{
    if files.len() == 0 {
        Seq::empty()
    } else {
        deleted_entries(files.drop_last()) + deleted_entry(files.last())
    }
}

/// The whole message: header, a blank gap, the file lines, the deletion lines.
pub open spec fn message_of(
    header: Seq<char>,
    files: Seq<Seq<char>>,
    deleted: Seq<Seq<char>>,
    ignore: Seq<Seq<char>>,
) -> Seq<char> {
    header + "\n\n\n"@ + file_entries(files, ignore) + deleted_entries(deleted)
}

/// The commit number a header shows: the commit count plus one, or none when
/// numbering is suppressed.
pub open spec fn header_number(commit_count: u32, no_commit_number: bool) -> Option<nat> {
    if no_commit_number {
        None
    } else {
        Some((commit_count + 1) as nat)
    }
}

/// The header line: `"[N] (<type> on <branch>)"`, the number left out when
/// `commit_number` is `None`.
pub fn commit_header(commit_type: &str, branch: &str, commit_number: Option<u64>) -> (r: String)
    ensures
        r@ == header_of(
            commit_type@,
            branch@,
            match commit_number {
                Some(n) => Some(n as nat),
                None => None,
            },
        ),
{
    let mut s = String::new();
    match commit_number {
        Some(n) => {
            s.append("[");
            push_decimal(&mut s, n);
            s.append("] ");
        },
        None => {},
    }
    s.append("(");
    s.append(commit_type);
    s.append(" on ");
    s.append(branch);
    s.append(")");
    assert(s@ =~= header_of(
        commit_type@,
        branch@,
        match commit_number {
            Some(n) => Some(n as nat),
            None => None,
        },
    ));
    s
}

/// Assembles the commit message from the repository state: the header for the
/// commit type and the branch (its type prefix removed), numbered with the
/// commit count plus one unless `no_commit_number`; then a placeholder line
/// for each path to stage that the ignore entries do not cover; then a line
/// for each staged deletion. The message never carries anything from an
/// earlier one.
pub fn generate_commit_message(
    commit_type: &str,
    branch: &str,
    commit_count: u32,
    no_commit_number: bool,
    status: &str,
    ignore_patterns: &Vec<String>,
) -> (r: String)
    ensures
        r@ == message_of(
            header_of(
                commit_type@,
                strip_type_prefix(types_view(&COMMIT_TYPES), branch@),
                header_number(commit_count, no_commit_number),
            ),
            paths_of(status@, Selection::Stageable),
            paths_of(status@, Selection::StagedDeletions),
            ignore_patterns.deep_view(),
        ),
{
    let shown_branch = format_branch_name(&COMMIT_TYPES, branch);
    let number: Option<u64> = if no_commit_number {
        None
    } else {
        Some(commit_count as u64 + 1)
    };
    let mut s = commit_header(commit_type, shown_branch.as_str(), number);
    let ghost header = s@;
    s.append("\n\n\n");
    let entries = parse_status(status);
    let files = select_paths(&entries, Selection::Stageable);
    let deleted = select_paths(&entries, Selection::StagedDeletions);
    let ghost fv = files.deep_view();
    let ghost iv = ignore_patterns.deep_view();
    let mut i: usize = 0;
    while i < files.len()
        invariant
            i <= files@.len(),
            fv == files.deep_view(),
            iv == ignore_patterns.deep_view(),
            s@ == header + "\n\n\n"@ + file_entries(fv.take(i as int), iv),
        decreases files.len() - i,
    {
        assert(fv.take(i + 1).drop_last() =~= fv.take(i as int));
        assert(fv.take(i + 1).last() == files@[i as int]@);
        if !should_ignore_file(files[i].as_str(), ignore_patterns) {
            s.append("- `");
            s.append(files[i].as_str());
            s.append("`:\n\n\t\n\n");
        }
        assert(s@ =~= header + "\n\n\n"@ + file_entries(fv.take(i + 1), iv));
        i = i + 1;
    }
    assert(fv.take(i as int) =~= fv);
    let ghost dv = deleted.deep_view();
    let ghost before_deleted = s@;
    let mut j: usize = 0;
    while j < deleted.len()
        invariant
            j <= deleted@.len(),
            dv == deleted.deep_view(),
            s@ == before_deleted + deleted_entries(dv.take(j as int)),
        decreases deleted.len() - j,
    {
        assert(dv.take(j + 1).drop_last() =~= dv.take(j as int));
        assert(dv.take(j + 1).last() == deleted@[j as int]@);
        s.append("- `");
        s.append(deleted[j].as_str());
        s.append("`: deleted\n\n");
        assert(s@ =~= before_deleted + deleted_entries(dv.take(j + 1)));
        j = j + 1;
    }
    assert(dv.take(j as int) =~= dv);
    assert(s@ =~= message_of(
        header,
        fv,
        dv,
        iv,
    ));
    s
}

/// The value of a run of decimal digits.
pub open spec fn digits_value(d: Seq<char>) -> nat
    decreases d.len(),
{
    if d.len() == 0 {
        0
    } else {
        digits_value(d.drop_last()) * 10 + (d.last() as u32 - '0' as u32) as nat
    }
}

/// Every character of `d` is a decimal digit.
pub open spec fn all_digits(d: Seq<char>) -> bool {
    forall|i: int| 0 <= i < d.len() ==> '0' <= #[trigger] d[i] && d[i] <= '9'
}

/// The commit count that git printed, read as `u32::from_str` reads the trimmed
/// text: an optional `+`, then at least one digit, the value fitting in `u32`.
pub open spec fn count_of(output: Seq<char>) -> Option<nat> {
    let t = trim(output);
    let d = if t.len() > 0 && t[0] == '+' {
        t.subrange(1, t.len() as int)
    } else {
        t
    };
    if d.len() > 0 && all_digits(d) && digits_value(d) <= u32::MAX {
        Some(digits_value(d))
    } else {
        None
    }
}

proof fn lemma_digits_value_grows(d: Seq<char>, i: int)
    requires
        0 <= i <= d.len(),
        all_digits(d),
    ensures
        digits_value(d.take(i)) <= digits_value(d),
    decreases d.len(),
{
    if i < d.len() {
        let p = d.drop_last();
        assert(all_digits(p)) by {
            assert forall|k: int| 0 <= k < p.len() implies '0' <= #[trigger] p[k] && p[k] <= '9' by {
                assert(p[k] == d[k]);
            }
        }
        lemma_digits_value_grows(p, i);
        assert(p.take(i) =~= d.take(i));
    } else {
        assert(d.take(i) =~= d);
    }
}

/// Reads the commit count that git printed; `None` when the text is not a
/// number that fits in `u32`.
pub fn parse_commit_count(output: &str) -> (r: Option<u32>)
    ensures
        match r {
            Some(n) => count_of(output@) == Some(n as nat),
            None => count_of(output@) is None,
        },
{
    let raw = chars_of(output);
    let trimmed = trim_chars(&raw);
    let t = chars_of(trimmed.as_str());
    assert(t@ == trim(output@));
    let start: usize = if t.len() > 0 && t[0] == '+' {
        1
    } else {
        0
    };
    let ghost d = if t@.len() > 0 && t@[0] == '+' {
        t@.subrange(1, t@.len() as int)
    } else {
        t@
    };
    assert(d =~= t@.subrange(start as int, t@.len() as int));
    if start >= t.len() {
        return None;
    }
    let mut acc: u64 = 0;
    let mut i: usize = start;
    while i < t.len()
        invariant
            start <= i <= t@.len(),
            t@ == trim(output@),
            d == (if t@.len() > 0 && t@[0] == '+' {
                t@.subrange(1, t@.len() as int)
            } else {
                t@
            }),
            d == t@.subrange(start as int, t@.len() as int),
            acc as nat == digits_value(d.take(i - start)),
            acc <= u32::MAX,
            all_digits(d.take(i - start)),
        decreases t.len() - i,
    {
        let c = t[i];
        assert(d.take(i + 1 - start).drop_last() =~= d.take(i - start));
        assert(d.take(i + 1 - start).last() == c);
        if !('0' <= c && c <= '9') {
            assert(d[i - start] == c);
            return None;
        }
        acc = acc * 10 + (c as u32 - '0' as u32) as u64;
        assert(all_digits(d.take(i + 1 - start))) by {
            let q = d.take(i + 1 - start);
            assert forall|k: int| 0 <= k < q.len() implies '0' <= #[trigger] q[k] && q[k] <= '9' by {
                if k < q.len() - 1 {
                    assert(q[k] == d.take(i - start)[k]);
                }
            }
        }
        if acc > u32::MAX as u64 {
            proof {
                if all_digits(d) {
                    lemma_digits_value_grows(d, i + 1 - start);
                }
            }
            return None;
        }
        i = i + 1;
    }
    assert(d.take(i - start) =~= d);
    Some(acc as u32)
}

/// A git argument that would clash with the message (`-c...`, `--commit...`).
pub open spec fn clashes(arg: Seq<char>) -> bool {
    has_prefix(arg, "-c"@) || has_prefix(arg, "--commit"@)
}

/// The arguments that do not clash, in order.
pub open spec fn kept_args(args: Seq<Seq<char>>) -> Seq<Seq<char>>
    decreases args.len(),
{
    if args.len() == 0 {
        Seq::empty()
    } else {
        let prev = kept_args(args.drop_last());
        if clashes(args.last()) {
            prev
        } else {
            prev.push(args.last())
        }
    }
}

/// The extra commit arguments without those that clash with the message.
pub fn filter_commit_args(args: &Vec<String>) -> (r: Vec<String>)
    ensures
        r.deep_view() == kept_args(args.deep_view()),
{
    let short = chars_of("-c");
    let long = chars_of("--commit");
    let ghost av = args.deep_view();
    let mut r: Vec<String> = Vec::new();
    let mut i: usize = 0;
    while i < args.len()
        invariant
            i <= args@.len(),
            av == args.deep_view(),
            short@ == "-c"@,
            long@ == "--commit"@,
            r.deep_view() == kept_args(av.take(i as int)),
        decreases args.len() - i,
    {
        let a = chars_of(args[i].as_str());
        assert(av.take(i + 1).drop_last() =~= av.take(i as int));
        assert(av.take(i + 1).last() == a@);
        if !(starts_with_chars(&a, &short) || starts_with_chars(&a, &long)) {
            let ghost before = r.deep_view();
            r.push(args[i].clone());
            assert(r.deep_view() =~= before.push(a@));
        }
        i = i + 1;
    }
    assert(av.take(i as int) =~= av);
    r
}

/// The one-line message of interactive mode, `"[N] (<type> on <branch>) <text>"`
/// with the text trimmed; `None` when the text is blank.
pub fn interactive_commit_message(
    commit_type: &str,
    branch: &str,
    commit_count: u32,
    message: &str,
) -> (r: Option<String>)
    ensures
        trim(message@).len() == 0 ==> r is None,
        trim(message@).len() > 0 ==> (r matches Some(m) && m@ == header_of(
            commit_type@,
            strip_type_prefix(types_view(&COMMIT_TYPES), branch@),
            Some((commit_count + 1) as nat),
        ) + " "@ + trim(message@)),
{
    let m = chars_of(message);
    let text = trim_chars(&m);
    if text.as_str().is_empty() {
        return None;
    }
    let shown_branch = format_branch_name(&COMMIT_TYPES, branch);
    let mut s = commit_header(commit_type, shown_branch.as_str(), Some(commit_count as u64 + 1));
    s.append(" ");
    s.append(text.as_str());
    Some(s)
}

} // verus!
