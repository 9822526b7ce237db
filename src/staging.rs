//! Staging selection: which paths a staging run adds, which deletions it
//! stages, and how many paths the exclude patterns kept out.

use vstd::prelude::*;

use crate::commit::{decimal, decimal_string};
use crate::errors::RonaError;
use crate::status::{Selection, parse_status, paths_of, select_paths};

verus! {

/// Whether a glob pattern compiles; the pattern text alone decides it.
pub uninterp spec fn glob_compiles(pattern: Seq<char>) -> bool;

/// Whether a compiled glob pattern matches a path, with the default match
/// options; the pattern text and the path alone decide it.
pub uninterp spec fn glob_match(pattern: Seq<char>, path: Seq<char>) -> bool;

/// Compiles `pattern` and matches `path` against it; `None` when the pattern
/// does not compile.
/// Relies on `glob::Pattern::new` (compiles the text or reports a syntax error)
/// and on `glob::Pattern::matches` (the match with default options).
#[verifier::external_body]
fn glob_matches(pattern: &str, path: &str) -> (r: Option<bool>)
    ensures
        r is Some == glob_compiles(pattern@),
        r matches Some(b) ==> b == glob_match(pattern@, path@),
{
    match glob::Pattern::new(pattern) {
        Ok(compiled) => Some(compiled.matches(path)),
        Err(_) => None,
    }
}

/// Some pattern matches the path (exclude is exclude: no precedence, no negation).
pub open spec fn is_excluded(patterns: Seq<Seq<char>>, path: Seq<char>) -> bool {
    exists|i: int| 0 <= i < patterns.len() && glob_match(#[trigger] patterns[i], path)
}

/// Every pattern compiles.
pub open spec fn all_compile(patterns: Seq<Seq<char>>) -> bool {
    forall|i: int| 0 <= i < patterns.len() ==> glob_compiles(#[trigger] patterns[i])
}

/// The paths that no pattern excludes, in their order.
pub open spec fn kept_paths(paths: Seq<Seq<char>>, patterns: Seq<Seq<char>>) -> Seq<Seq<char>>
    decreases paths.len(),
{
    if paths.len() == 0 {
        Seq::empty()
    } else {
        let prev = kept_paths(paths.drop_last(), patterns);
        if is_excluded(patterns, paths.last()) {
            prev
        } else {
            prev.push(paths.last())
        }
    }
}

/// What a selection keeps and how many paths it left out.
pub struct StagingSelection {
    pub included: Vec<String>,
    pub excluded_count: usize,
}

/// A selection as plain values.
pub ghost struct SelectionView {
    pub included: Seq<Seq<char>>,
    pub excluded_count: nat,
}

impl View for StagingSelection {
    type V = SelectionView;

    open spec fn view(&self) -> SelectionView {
        SelectionView {
            included: self.included.deep_view(),
            excluded_count: self.excluded_count as nat,
        }
    }
}

/// The selection that `stageable` and `patterns` give.
pub open spec fn selection_of(stageable: Seq<Seq<char>>, patterns: Seq<Seq<char>>) -> SelectionView {
    let kept = kept_paths(stageable, patterns);
    SelectionView { included: kept, excluded_count: (stageable.len() - kept.len()) as nat }
}

proof fn lemma_kept_len(paths: Seq<Seq<char>>, patterns: Seq<Seq<char>>)
    ensures
        kept_paths(paths, patterns).len() <= paths.len(),
    decreases paths.len(),
{
    if paths.len() > 0 {
        lemma_kept_len(paths.drop_last(), patterns);
    }
}

/// The first pattern of `patterns` that does not compile, if any.
fn first_invalid(patterns: &Vec<String>) -> (r: Option<usize>)
    ensures
        match r {
            Some(i) => i < patterns@.len() && !glob_compiles(patterns@[i as int]@),
            None => all_compile(patterns.deep_view()),
        },
{
    let mut i: usize = 0;
    while i < patterns.len()
        invariant
            i <= patterns@.len(),
            forall|j: int| 0 <= j < i ==> glob_compiles(#[trigger] patterns@[j]@),
        decreases patterns.len() - i,
    {
        if glob_matches(patterns[i].as_str(), "").is_none() {
            return Some(i);
        }
        i = i + 1;
    }
    assert forall|j: int| 0 <= j < patterns.deep_view().len() implies glob_compiles(
        #[trigger] patterns.deep_view()[j],
    ) by {
        assert(patterns.deep_view()[j] == patterns@[j]@);
    }
    None
}

/// Some pattern of `patterns`, all of which compile, matches `path`.
fn excluded_by(patterns: &Vec<String>, path: &String) -> (r: bool)
    requires
        all_compile(patterns.deep_view()),
    ensures
        r == is_excluded(patterns.deep_view(), path@),
{
    let ghost pv = patterns.deep_view();
    let mut i: usize = 0;
    while i < patterns.len()
        invariant
            i <= patterns@.len(),
            pv == patterns.deep_view(),
            all_compile(pv),
            forall|j: int| 0 <= j < i ==> !glob_match(#[trigger] pv[j], path@),
        decreases patterns.len() - i,
    {
        assert(pv[i as int] == patterns@[i as int]@);
        assert(glob_compiles(pv[i as int]));
        match glob_matches(patterns[i].as_str(), path.as_str()) {
            Some(true) => {
                return true;
            },
            _ => {},
        }
        i = i + 1;
    }
    false
}

/// Keeps the stageable paths that no exclude pattern matches (a glob match
/// against the whole relative path), and counts the others. Fails, naming the
/// pattern, when a pattern does not compile.
pub fn select_for_staging(stageable: &Vec<String>, patterns: &Vec<String>) -> (r: Result<
    StagingSelection,
    RonaError,
>)
    ensures
        r is Ok <==> all_compile(patterns.deep_view()),
        r matches Ok(s) ==> s@ == selection_of(stageable.deep_view(), patterns.deep_view()),
        r matches Err(e) ==> e matches RonaError::InvalidPattern(p) && patterns.deep_view().contains(
            p@,
        ) && !glob_compiles(p@),
{
    match first_invalid(patterns) {
        Some(i) => {
            let p = patterns[i].clone();
            assert(patterns.deep_view()[i as int] == p@);
            return Err(RonaError::InvalidPattern(p));
        },
        None => {},
    }
    let ghost sv = stageable.deep_view();
    let ghost pv = patterns.deep_view();
    let mut included: Vec<String> = Vec::new();
    let mut i: usize = 0;
    while i < stageable.len()
        invariant
            i <= stageable@.len(),
            sv == stageable.deep_view(),
            pv == patterns.deep_view(),
            all_compile(pv),
            included.deep_view() == kept_paths(sv.take(i as int), pv),
        decreases stageable.len() - i,
    {
        let p = &stageable[i];
        assert(sv.take(i + 1).drop_last() =~= sv.take(i as int));
        assert(sv.take(i + 1).last() == p@);
        if !excluded_by(patterns, p) {
            let ghost before = included.deep_view();
            included.push(p.clone());
            assert(included.deep_view() =~= before.push(p@));
        }
        i = i + 1;
    }
    assert(sv.take(i as int) =~= sv);
    proof {
        lemma_kept_len(sv, pv);
    }
    let excluded_count = stageable.len() - included.len();
    Ok(StagingSelection { included, excluded_count })
}

/// Selecting again from what a selection kept, with the same patterns, keeps
/// all of it and excludes nothing.
pub proof fn lemma_selection_idempotent(stageable: Seq<Seq<char>>, patterns: Seq<Seq<char>>)
    ensures
        selection_of(selection_of(stageable, patterns).included, patterns) == (SelectionView {
            included: selection_of(stageable, patterns).included,
            excluded_count: 0,
        }),
{
    lemma_kept_twice(stageable, patterns);
}

proof fn lemma_kept_twice(paths: Seq<Seq<char>>, patterns: Seq<Seq<char>>)
    ensures
        kept_paths(kept_paths(paths, patterns), patterns) == kept_paths(paths, patterns),
    decreases paths.len(),
{
    if paths.len() > 0 {
        let prev = kept_paths(paths.drop_last(), patterns);
        lemma_kept_twice(paths.drop_last(), patterns);
        if !is_excluded(patterns, paths.last()) {
            let k = prev.push(paths.last());
            assert(k.drop_last() =~= prev);
            assert(k.last() == paths.last());
        }
    }
}

/// Two selections made from the same stageable paths and patterns, with
/// nothing changed between them, are identical.
pub proof fn lemma_selection_deterministic(
    stageable: Seq<Seq<char>>,
    patterns: Seq<Seq<char>>,
    first: SelectionView,
    second: SelectionView,
)
    requires
        first == selection_of(stageable, patterns),
        second == selection_of(stageable, patterns),
    ensures
        first.included == second.included,
        first.excluded_count == second.excluded_count,
{
}

/// Everything a staging run decides before it changes anything.
pub struct StagingPlan {
    /// Changed paths to add, excluded ones left out.
    pub to_add: Vec<String>,
    /// Working-tree deletions to stage.
    pub to_delete: Vec<String>,
    /// How many changed paths the exclude patterns kept out.
    pub excluded_count: usize,
}

/// A plan as plain values.
pub ghost struct PlanView {
    pub to_add: Seq<Seq<char>>,
    pub to_delete: Seq<Seq<char>>,
    pub excluded_count: nat,
}

impl View for StagingPlan {
    type V = PlanView;

    open spec fn view(&self) -> PlanView {
        PlanView {
            to_add: self.to_add.deep_view(),
            to_delete: self.to_delete.deep_view(),
            excluded_count: self.excluded_count as nat,
        }
    }
}

/// The plan for a status text and exclude patterns.
pub open spec fn plan_of(status: Seq<char>, patterns: Seq<Seq<char>>) -> PlanView {
    let sel = selection_of(paths_of(status, Selection::Stageable), patterns);
    PlanView {
        to_add: sel.included,
        to_delete: paths_of(status, Selection::ToStageDeletions),
        excluded_count: sel.excluded_count,
    }
}

/// Plans a staging run from the status text: the changed paths that no exclude
/// pattern matches, the working-tree deletions, and the number excluded. Preview
/// and real runs both take their plan from here.
pub fn plan_staging(status: &str, patterns: &Vec<String>) -> (r: Result<StagingPlan, RonaError>)
    ensures
        r is Ok <==> all_compile(patterns.deep_view()),
        r matches Ok(p) ==> p@ == plan_of(status@, patterns.deep_view()),
        r matches Err(e) ==> e matches RonaError::InvalidPattern(p) && patterns.deep_view().contains(
            p@,
        ) && !glob_compiles(p@),
{
    let entries = parse_status(status);
    let stageable = select_paths(&entries, Selection::Stageable);
    let to_delete = select_paths(&entries, Selection::ToStageDeletions);
    let sel = select_for_staging(&stageable, patterns)?;
    Ok(StagingPlan { to_add: sel.included, to_delete, excluded_count: sel.excluded_count })
}

/// The text of the staging command.
pub open spec fn add_word() -> Seq<char> {
    seq!['a', 'd', 'd']
}

/// What a staging run does with its plan.
pub enum StagingAction {
    /// Nothing to add and nothing to delete: nothing is changed.
    NothingToDo,
    /// Preview mode: the plan is reported and nothing is changed.
    Preview(StagingPlan),
    /// Real mode: one `git` invocation with `args` stages the plan.
    Stage { args: Vec<String>, plan: StagingPlan },
}

/// An action as plain values.
pub ghost enum ActionView {
    NothingToDo,
    Preview(PlanView),
    Stage { args: Seq<Seq<char>>, plan: PlanView },
}

impl View for StagingAction {
    type V = ActionView;

    open spec fn view(&self) -> ActionView {
        match self {
            StagingAction::NothingToDo => ActionView::NothingToDo,
            StagingAction::Preview(p) => ActionView::Preview(p@),
            StagingAction::Stage { args, plan } => ActionView::Stage {
                args: args.deep_view(),
                plan: plan@,
            },
        }
    }
}

/// The action for a plan in preview (`dry_run`) or real mode.
pub open spec fn action_of(plan: PlanView, dry_run: bool) -> ActionView {
    if plan.to_add.len() == 0 && plan.to_delete.len() == 0 {
        ActionView::NothingToDo
    } else if dry_run {
        ActionView::Preview(plan)
    } else {
        ActionView::Stage { args: seq![add_word()] + plan.to_add + plan.to_delete, plan }
    }
}

/// The plan an action carries out or reports.
pub open spec fn planned(a: ActionView) -> Option<PlanView> {
    match a {
        ActionView::NothingToDo => None,
        ActionView::Preview(p) => Some(p),
        ActionView::Stage { args, plan } => Some(plan),
    }
}

/// Decides what a staging run does: nothing when there is nothing to add or
/// delete, a report in preview mode, else one batch `add` of the paths to add
/// followed by the deletions.
pub fn staging_action(plan: StagingPlan, dry_run: bool) -> (r: StagingAction)
    ensures
        r@ == action_of(plan@, dry_run),
{
    if plan.to_add.len() == 0 && plan.to_delete.len() == 0 {
        return StagingAction::NothingToDo;
    }
    if dry_run {
        return StagingAction::Preview(plan);
    }
    let mut args: Vec<String> = Vec::new();
    let add = String::from_str("add");
    proof {
        reveal_strlit("add");
    }
    assert(add@ =~= add_word());
    args.push(add);
    assert(args.deep_view() =~= seq![add_word()]);
    let mut i: usize = 0;
    while i < plan.to_add.len()
        invariant
            i <= plan.to_add@.len(),
            args.deep_view() =~= seq![add_word()] + plan.to_add.deep_view().take(i as int),
        decreases plan.to_add.len() - i,
    {
        let ghost before = args.deep_view();
        args.push(plan.to_add[i].clone());
        assert(args.deep_view() =~= before.push(plan.to_add@[i as int]@));
        assert(plan.to_add.deep_view().take(i + 1) =~= plan.to_add.deep_view().take(i as int).push(
            plan.to_add@[i as int]@,
        ));
        i = i + 1;
    }
    assert(plan.to_add.deep_view().take(i as int) =~= plan.to_add.deep_view());
    let mut j: usize = 0;
    while j < plan.to_delete.len()
        invariant
            j <= plan.to_delete@.len(),
            args.deep_view() =~= seq![add_word()] + plan.to_add.deep_view()
                + plan.to_delete.deep_view().take(j as int),
        decreases plan.to_delete.len() - j,
    {
        let ghost before = args.deep_view();
        args.push(plan.to_delete[j].clone());
        assert(args.deep_view() =~= before.push(plan.to_delete@[j as int]@));
        assert(plan.to_delete.deep_view().take(j + 1) =~= plan.to_delete.deep_view().take(
            j as int,
        ).push(plan.to_delete@[j as int]@));
        j = j + 1;
    }
    assert(plan.to_delete.deep_view().take(j as int) =~= plan.to_delete.deep_view());
    StagingAction::Stage { args, plan }
}

/// Preview and real mode, given the same plan, select the same paths to add,
/// the same deletions and the same excluded count; the real run stages exactly
/// those paths, and neither mode acts when there is nothing to do.
pub proof fn lemma_preview_matches_real(status: Seq<char>, patterns: Seq<Seq<char>>)
    ensures
        planned(action_of(plan_of(status, patterns), true)) == planned(
            action_of(plan_of(status, patterns), false),
        ),
        planned(action_of(plan_of(status, patterns), false)) matches Some(p) ==> p == plan_of(
            status,
            patterns,
        ),
        action_of(plan_of(status, patterns), false) matches ActionView::Stage { args, plan } ==> args
            == seq![add_word()] + plan.to_add + plan.to_delete,
{
}

/// The number of added files a staging run reports: the staged diff's line
/// count less the deletions staged and the renames it counts twice, never
/// below zero.
pub fn added_count(staged_lines: usize, deletions: usize, renames: usize) -> (r: usize)
    ensures
        r as int == if staged_lines >= deletions + renames {
            staged_lines - deletions - renames
        } else {
            0
        },
{
    let after_deletions = staged_lines.saturating_sub(deletions);
    after_deletions.saturating_sub(renames)
}

/// One line per path, each `prefix` then the path.
pub open spec fn listed_lines(prefix: Seq<char>, paths: Seq<Seq<char>>) -> Seq<char>
    decreases paths.len(),
{
    if paths.len() == 0 {
        Seq::empty()
    } else {
        listed_lines(prefix, paths.drop_last()) + prefix + paths.last() + "\n"@
    }
}

/// The preview of a plan: what would be added, deleted and excluded.
pub open spec fn preview_text(plan: PlanView) -> Seq<char> {
    "Would add "@ + decimal(plan.to_add.len()) + " files:\n"@ + listed_lines("  + "@, plan.to_add)
        + "Would delete "@ + decimal(plan.to_delete.len()) + " files:\n"@ + listed_lines(
        "  - "@,
        plan.to_delete,
    ) + "Would exclude "@ + decimal(plan.excluded_count) + " files"@
}

fn append_listed(out: &mut String, prefix: &str, paths: &Vec<String>)
    ensures
        final(out)@ == old(out)@ + listed_lines(prefix@, paths.deep_view()),
{
    let ghost start = out@;
    let ghost pv = paths.deep_view();
    let mut i: usize = 0;
    while i < paths.len()
        invariant
            i <= paths@.len(),
            pv == paths.deep_view(),
            out@ == start + listed_lines(prefix@, pv.take(i as int)),
        decreases paths.len() - i,
    {
        assert(pv.take(i + 1).drop_last() =~= pv.take(i as int));
        assert(pv.take(i + 1).last() == paths@[i as int]@);
        out.append(prefix);
        out.append(paths[i].as_str());
        out.append("\n");
        assert(out@ =~= start + listed_lines(prefix@, pv.take(i + 1)));
        i = i + 1;
    }
    assert(pv.take(i as int) =~= pv);
}

/// The report of a preview run, one path per line.
pub fn preview_report(plan: &StagingPlan) -> (r: String)
    ensures
        r@ == preview_text(plan@),
{
    let mut out = String::from_str("Would add ");
    out.append(decimal_string(plan.to_add.len() as u64).as_str());
    out.append(" files:\n");
    append_listed(&mut out, "  + ", &plan.to_add);
    out.append("Would delete ");
    out.append(decimal_string(plan.to_delete.len() as u64).as_str());
    out.append(" files:\n");
    append_listed(&mut out, "  - ", &plan.to_delete);
    out.append("Would exclude ");
    out.append(decimal_string(plan.excluded_count as u64).as_str());
    out.append(" files");
    assert(out@ =~= preview_text(plan@));
    out
}

/// The report of a real run.
pub open spec fn staged_text(added: nat, deleted: nat, excluded: nat) -> Seq<char> {
    "Added "@ + decimal(added) + " files, deleted "@ + decimal(deleted) + " and excluded "@
        + decimal(excluded) + " files for commit."@
}

/// The line a real staging run reports.
pub fn staged_report(added: usize, deleted: usize, excluded: usize) -> (r: String)
    ensures
        r@ == staged_text(added as nat, deleted as nat, excluded as nat),
{
    let mut out = String::from_str("Added ");
    out.append(decimal_string(added as u64).as_str());
    out.append(" files, deleted ");
    out.append(decimal_string(deleted as u64).as_str());
    out.append(" and excluded ");
    out.append(decimal_string(excluded as u64).as_str());
    out.append(" files for commit.");
    out
}

} // verus!
