//! Branch names as the commit header shows them.

use vstd::prelude::*;

use crate::text::{chars_of, has_prefix, starts_with_chars, string_of, trim, trim_chars};

verus! {

/// The commit types a commit message may carry.
pub const COMMIT_TYPES: [&'static str; 4] = ["chore", "feat", "fix", "test"];

/// The commit types as character sequences.
pub open spec fn types_view(commit_types: &[&str; 4]) -> Seq<Seq<char>> {
    commit_types@.map_values(|t: &str| t@)
}

/// `branch` without the first `"<type>/"` prefix that starts it, trying the
/// types in order; unchanged when no type prefixes it.
pub open spec fn strip_type_prefix(types: Seq<Seq<char>>, branch: Seq<char>) -> Seq<char>
    decreases types.len(),
{
    if types.len() == 0 {
        branch
    } else if has_prefix(branch, types[0].push('/')) {
        branch.subrange(types[0].len() + 1int, branch.len() as int)
    } else {
        strip_type_prefix(types.drop_first(), branch)
    }
}

/// Removes a leading `"<type>/"` from a branch name, once: `"feat/user-auth"`
/// becomes `"user-auth"`, `"feat/fix/complex"` becomes `"fix/complex"`, and a
/// branch such as `"main"` stays as it is.
pub fn format_branch_name(commit_types: &[&str; 4], branch: &str) -> (r: String)
    ensures
        r@ == strip_type_prefix(types_view(commit_types), branch@),
{
    let ghost tv = types_view(commit_types);
    let b = chars_of(branch);
    assert(tv.len() == 4);
    assert(tv.subrange(0, 4) =~= tv);
    let mut i: usize = 0;
    while i < 4
        invariant
            i <= 4,
            tv == types_view(commit_types),
            b@ == branch@,
            strip_type_prefix(tv.subrange(i as int, 4), branch@) == strip_type_prefix(
                tv,
                branch@,
            ),
        decreases 4 - i,
    {
        let mut prefix = chars_of(commit_types[i]);
        prefix.push('/');
        let ghost rest = tv.subrange(i as int, 4);
        assert(rest[0] == commit_types[i as int]@);
        assert(rest.drop_first() =~= tv.subrange(i + 1, 4));
        if starts_with_chars(&b, &prefix) {
            return string_of(&b, prefix.len(), b.len());
        }
        i = i + 1;
    }
    assert(tv.subrange(4, 4) =~= Seq::<Seq<char>>::empty());
    String::from_str(branch)
}

/// What to do after asking git for the current branch.
#[derive(Debug)]
pub enum BranchStep {
    /// The branch is known.
    Use(String),
    /// No branch yet (no commits, or an unknown count): take the configured
    /// default branch name instead.
    UseDefaultBranch,
    /// The lookup failed on a repository that has commits.
    Fail,
}

/// Decides on the current branch from the branch lookup's output (`None` when
/// the lookup failed) and, for a failed lookup, the commit count (`None` when
/// it is unknown). A fresh repository falls back to the default branch name.
pub fn resolve_branch(lookup: Option<&str>, commit_count: Option<u32>) -> (r: BranchStep)
    ensures
        lookup matches Some(out) ==> r matches BranchStep::Use(b) && b@ == trim(out@),
        lookup is None && (commit_count is None || commit_count == Some(0u32)) ==> r
            is UseDefaultBranch,
        lookup is None && (commit_count matches Some(n) && n > 0) ==> r is Fail,
{
    match lookup {
        Some(out) => {
            let v = chars_of(out);
            BranchStep::Use(trim_chars(&v))
        },
        None => match commit_count {
            Some(n) => {
                if n == 0 {
                    BranchStep::UseDefaultBranch
                } else {
                    BranchStep::Fail
                }
            },
            None => BranchStep::UseDefaultBranch,
        },
    }
}

} // verus!
