//! Issues: the parser's errors and those of its warnings that the allow list
//! lets through, each warning marked as denied or not.
use crate::config::Config;
use crate::context::SourceContext;
use crate::findings::{ParseError, StoryResult, Warning};
use crate::sort::{
    ascending, lemma_sorted_holds_what_was_given, sort_stable, stably_sorted, Rank,
};
use vstd::prelude::*;

pub use crate::report::print_issue;

verus! {

/// One entry of the report.
#[derive(Debug, PartialEq, Eq)]
pub enum Issue {
    /// An error of the parser.
    Error(ParseError),
    /// A warning of the parser that was not allowed.
    Warning {
        /// The warning.
        warning: Warning,
        /// Whether the deny list makes it count as an error.
        denied: bool,
    },
}

/// Where the issue was found.
pub open spec fn context_of(issue: Issue) -> Option<SourceContext> {
    match issue {
        Issue::Error(error) => error.context,
        Issue::Warning { warning, .. } => warning.context,
    }
}

/// The earlier definition that the issue points back to. Errors have none.
pub open spec fn referent_of(issue: Issue) -> Option<SourceContext> {
    match issue {
        Issue::Error(_) => None,
        Issue::Warning { warning, .. } => warning.referent,
    }
}

/// The name of the issue's kind.
pub open spec fn name_of(issue: Issue) -> Seq<char> {
    match issue {
        Issue::Error(error) => error.name@,
        Issue::Warning { warning, .. } => warning.name@,
    }
}

/// What the issue says, without its place.
pub open spec fn message_of(issue: Issue) -> Seq<char> {
    match issue {
        Issue::Error(error) => error.message@,
        Issue::Warning { warning, .. } => warning.message@,
    }
}

/// The issue written out in one line, place included.
pub open spec fn text_of(issue: Issue) -> Seq<char> {
    match issue {
        Issue::Error(error) => error.text@,
        Issue::Warning { warning, .. } => warning.text@,
    }
}

/// Whether the issue makes the run fail: every error does, and every denied
/// warning.
pub open spec fn is_fatal(issue: Issue) -> bool {
    match issue {
        Issue::Error(_) => true,
        Issue::Warning { denied, .. } => denied,
    }
}

/// The sort key of an issue. Issues without a context come first, then those
/// whose context names no file, then the others by line and column.
pub open spec fn position_rank(issue: Issue) -> Rank {
    match context_of(issue) {
        None => (0, 0, 0),
        Some(context) => match context.file_name {
            None => (1, 0, 0),
            Some(_) => (2, context.line as int, context.column as int),
        },
    }
}

impl Issue {
    /// Where the issue was found.
    pub fn get_context(&self) -> (context: Option<&SourceContext>)
        ensures
            match context {
                Some(context) => context_of(*self) == Some(*context),
                None => context_of(*self) is None,
            },
    {
        match self {
            Issue::Error(error) => error.context.as_ref(),
            Issue::Warning { warning, .. } => warning.context.as_ref(),
        }
    }

    /// The earlier definition that the issue points back to.
    pub fn get_referent(&self) -> (referent: Option<&SourceContext>)
        ensures
            match referent {
                Some(referent) => referent_of(*self) == Some(*referent),
                None => referent_of(*self) is None,
            },
    {
        match self {
            Issue::Error(_) => None,
            Issue::Warning { warning, .. } => warning.referent.as_ref(),
        }
    }

    /// The name of the issue's kind.
    pub fn get_name(&self) -> (name: &String)
        ensures
            name@ == name_of(*self),
    {
        match self {
            Issue::Error(error) => &error.name,
            Issue::Warning { warning, .. } => &warning.name,
        }
    }

    /// What the issue says, without its place.
    pub fn get_message(&self) -> (message: String)
        ensures
            message@ == message_of(*self),
    {
        match self {
            Issue::Error(error) => error.message.clone(),
            Issue::Warning { warning, .. } => warning.message.clone(),
        }
    }
}

/// `name` stands in `list`.
pub open spec fn lists(list: Seq<String>, name: Seq<char>) -> bool {
    exists|i: int| 0 <= i < list.len() && (#[trigger] list[i])@ == name
}

/// The allow list covers `name`: it holds the name itself, or `all`.
pub open spec fn allows(allowed: Seq<String>, name: Seq<char>) -> bool {
    lists(allowed, "all"@) || lists(allowed, name)
}

/// The deny list covers `name`: it holds the name itself, or `all`.
pub open spec fn denies(denied: Seq<String>, name: Seq<char>) -> bool {
    lists(denied, "all"@) || lists(denied, name)
}

/// The test for a warning that the allow list lets through.
pub open spec fn kept(allowed: Seq<String>) -> spec_fn(Warning) -> bool {
    |warning: Warning| !allows(allowed, warning.name@)
}

/// The issue a warning becomes under the deny list.
pub open spec fn judged(denied: Seq<String>) -> spec_fn(Warning) -> Issue {
    |warning: Warning| Issue::Warning { warning, denied: denies(denied, warning.name@) }
}

/// The issue an error becomes.
pub open spec fn raised() -> spec_fn(ParseError) -> Issue {
    |error: ParseError| Issue::Error(error)
}

/// The warnings that are not allowed, in their order, each marked as denied
/// or not. Allowing wins over denying.
pub open spec fn classified(warnings: Seq<Warning>, allowed: Seq<String>, denied: Seq<String>) -> Seq<
    Issue,
> {
    warnings.filter(kept(allowed)).map_values(judged(denied))
}

/// The errors of a failed parse, in their order; none for a story that
/// parsed.
pub open spec fn errors_of<S>(story_result: StoryResult<S>) -> Seq<Issue> {
    match story_result {
        Ok(_) => Seq::empty(),
        Err(failed) => failed.errors@.map_values(raised()),
    }
}

/// The issues of a run before they are sorted: the classified warnings, then
/// the errors.
pub open spec fn collected<S>(
    story_result: StoryResult<S>,
    warnings: Seq<Warning>,
    allowed: Seq<String>,
    denied: Seq<String>,
) -> Seq<Issue> {
    classified(warnings, allowed, denied) + errors_of(story_result)
}

/// Some issue makes the run fail.
pub open spec fn has_fatal(issues: Seq<Issue>) -> bool {
    exists|i: int| 0 <= i < issues.len() && is_fatal(#[trigger] issues[i])
}

/// Whether the run fails: it does exactly where at least one of its issues
/// is an error of the parser or a denied warning. A failed parse that holds
/// no error does not set the flag.
pub open spec fn fails<S>(
    story_result: StoryResult<S>,
    warnings: Seq<Warning>,
    allowed: Seq<String>,
    denied: Seq<String>,
) -> bool {
    has_fatal(collected(story_result, warnings, allowed, denied))
}

/// Whether `name` stands in `list`.
pub fn is_listed(list: &Vec<String>, name: &String) -> (listed: bool)
    ensures
        listed == lists(list@, name@),
{
    let mut at: usize = 0;
    while at < list.len()
        invariant
            at <= list.len(),
            forall|i: int| 0 <= i < at ==> (#[trigger] list@[i])@ != name@,
        decreases list.len() - at,
    {
        if list[at] == *name {
            return true;
        }
        at += 1;
    }
    false
}

/// Whether the allow list covers `name`.
pub fn is_allowed(allowed: &Vec<String>, name: &String) -> (covered: bool)
    ensures
        covered == allows(allowed@, name@),
{
    let all = "all".to_owned();
    is_listed(allowed, &all) || is_listed(allowed, name)
}

/// One more warning classified: it is dropped if allowed, else joins the
/// issues with its mark.
pub proof fn lemma_classified_push(
    warnings: Seq<Warning>,
    warning: Warning,
    allowed: Seq<String>,
    denied: Seq<String>,
)
    ensures
        classified(warnings.push(warning), allowed, denied) == if allows(allowed, warning.name@) {
            classified(warnings, allowed, denied)
        } else {
            classified(warnings, allowed, denied).push(
                Issue::Warning { warning, denied: denies(denied, warning.name@) },
            )
        },
{
    warnings.lemma_filter_push(warning, kept(allowed));
    let before = warnings.filter(kept(allowed));
    if !allows(allowed, warning.name@) {
        assert(before.push(warning).map_values(judged(denied)) =~= before.map_values(
            judged(denied),
        ).push(judged(denied)(warning)));
    }
}

/// With one more issue, some issue is fatal if one was before or the new one
/// is.
pub proof fn lemma_has_fatal_push(issues: Seq<Issue>, issue: Issue)
    ensures
        has_fatal(issues.push(issue)) == (has_fatal(issues) || is_fatal(issue)),
{
    let more = issues.push(issue);
    if has_fatal(issues) {
        let i = choose|i: int| 0 <= i < issues.len() && is_fatal(#[trigger] issues[i]);
        assert(more[i] == issues[i]);
    }
    if is_fatal(issue) {
        assert(more[issues.len() as int] == issue);
    }
    if has_fatal(more) {
        let i = choose|i: int| 0 <= i < more.len() && is_fatal(#[trigger] more[i]);
        if i < issues.len() {
            assert(more[i] == issues[i]);
        }
    }
}

/// Classifies the warnings under the allow and deny lists of `config`, joins
/// the errors of a failed parse to them, and sorts the issues by position.
///
/// The issues are the warnings that are not allowed, each marked as denied
/// or not, and the errors; they stand in ascending order of position, those
/// of equal position as they came, warnings before errors. The flag tells
/// whether the run fails: it does exactly where the parse left at least one
/// error, or a warning that is not allowed is denied.
pub fn filter_and_sort_issues<S>(
    story_result: &StoryResult<S>,
    warnings: Vec<Warning>,
    config: &Config,
) -> (out: (Vec<Issue>, bool))
    ensures
        out.0@ == stably_sorted(collected(*story_result, warnings@, config.allowed@, config.denied@)),
        out.1 == fails(*story_result, warnings@, config.allowed@, config.denied@),
        ascending(out.0@),
        out.0@.to_multiset() == collected(
            *story_result,
            warnings@,
            config.allowed@,
            config.denied@,
        ).to_multiset(),
{
    let mut issues: Vec<Issue> = Vec::new();
    let mut is_err = false;

    let all = "all".to_owned();
    let allow_all = is_listed(&config.allowed, &all);
    let deny_all = is_listed(&config.denied, &all);
    for warning in it: warnings
        invariant
            it.seq() == warnings@,
            all@ == "all"@,
            allow_all == lists(config.allowed@, "all"@),
            deny_all == lists(config.denied@, "all"@),
            issues@ == classified(
                warnings@.take(it.index() as int),
                config.allowed@,
                config.denied@,
            ),
            is_err == has_fatal(issues@),
    {
        let ghost done = warnings@.take(it.index() as int);
        proof {
            assert(warnings@.take(it.index() + 1) =~= done.push(warning));
            lemma_classified_push(done, warning, config.allowed@, config.denied@);
        }
        if !(allow_all || is_listed(&config.allowed, &warning.name)) {
            let denied = deny_all || is_listed(&config.denied, &warning.name);
            if denied {
                is_err = true;
            }
            proof {
                lemma_has_fatal_push(issues@, Issue::Warning { warning, denied });
            }
            issues.push(Issue::Warning { warning, denied });
        }
    }
    assert(warnings@.take(warnings@.len() as int) =~= warnings@);

    if let Err(failed) = story_result {
        let ghost classified_all = issues@;
        let mut at: usize = 0;
        assert(issues@ + Seq::<Issue>::empty() =~= issues@);
        while at < failed.errors.len()
            invariant
                at <= failed.errors.len(),
                issues@ == classified_all + failed.errors@.take(at as int).map_values(raised()),
                is_err == has_fatal(issues@),
            decreases failed.errors.len() - at,
        {
            let error = failed.errors[at].clone();
            proof {
                lemma_has_fatal_push(issues@, Issue::Error(error));
            }
            is_err = true;
            issues.push(Issue::Error(error));
            assert(failed.errors@.take(at + 1).map_values(raised())
                =~= failed.errors@.take(at as int).map_values(raised()).push(
                Issue::Error(failed.errors@[at as int]),
            ));
            at += 1;
        }
        assert(failed.errors@.take(failed.errors@.len() as int) =~= failed.errors@);
    } else {
        assert(issues@ + Seq::<Issue>::empty() =~= issues@);
    }

    (sort_stable(issues), is_err)
}

/// `out` is what [`filter_and_sort_issues`] hands back for these warnings and
/// lists and this result of the parser.
pub open spec fn is_outcome<S>(
    out: (Seq<Issue>, bool),
    story_result: StoryResult<S>,
    warnings: Seq<Warning>,
    allowed: Seq<String>,
    denied: Seq<String>,
) -> bool {
    &&& out.0 == stably_sorted(collected(story_result, warnings, allowed, denied))
    &&& out.1 == fails(story_result, warnings, allowed, denied)
}

/// Classifying the same input twice gives the same issues in the same order
/// and the same verdict.
pub proof fn lemma_outcome_is_determined<S>(
    first: (Seq<Issue>, bool),
    second: (Seq<Issue>, bool),
    story_result: StoryResult<S>,
    warnings: Seq<Warning>,
    allowed: Seq<String>,
    denied: Seq<String>,
)
    requires
        is_outcome(first, story_result, warnings, allowed, denied),
        is_outcome(second, story_result, warnings, allowed, denied),
    ensures
        first == second,
{
}

/// Each issue before sorting is an error of the failed parse, or a warning
/// that is not allowed, marked as the deny list has it.
pub proof fn lemma_collected_issue<S>(
    story_result: StoryResult<S>,
    warnings: Seq<Warning>,
    allowed: Seq<String>,
    denied: Seq<String>,
    at: int,
)
    requires
        0 <= at < collected(story_result, warnings, allowed, denied).len(),
    ensures
        match collected(story_result, warnings, allowed, denied)[at] {
            Issue::Error(error) => story_result matches Err(failed) && failed.errors@.contains(
                error,
            ),
            Issue::Warning { warning, denied: marked } => warnings.contains(warning) && !allows(
                allowed,
                warning.name@,
            ) && marked == denies(denied, warning.name@),
        },
{
    let through = warnings.filter(kept(allowed));
    let from_warnings = classified(warnings, allowed, denied);
    if at < from_warnings.len() {
        assert(from_warnings[at] == judged(denied)(through[at]));
        warnings.lemma_filter_pred(kept(allowed), at);
        assert(through.contains(through[at]));
        warnings.lemma_filter_contains_rev(kept(allowed), through[at]);
    } else {
        let failed = story_result->Err_0;
        let k = at - from_warnings.len();
        assert(errors_of(story_result)[k] == Issue::Error(failed.errors@[k]));
        assert(failed.errors@.contains(failed.errors@[k]));
    }
}

/// Allowing wins: no issue of a run is a warning that the allow list covers,
/// whatever the deny list holds, and every warning among the issues is marked
/// as the deny list has it.
pub proof fn lemma_allowed_warnings_left_out<S>(
    story_result: StoryResult<S>,
    warnings: Seq<Warning>,
    allowed: Seq<String>,
    denied: Seq<String>,
    at: int,
)
    requires
        0 <= at < stably_sorted(collected(story_result, warnings, allowed, denied)).len(),
    ensures
        stably_sorted(collected(story_result, warnings, allowed, denied))[at] matches Issue::Warning {
            warning,
            denied: marked,
        } ==> !allows(allowed, warning.name@) && marked == denies(denied, warning.name@),
{
    let unsorted = collected(story_result, warnings, allowed, denied);
    let sorted = stably_sorted(unsorted);
    assert(sorted.contains(sorted[at]));
    lemma_sorted_holds_what_was_given(unsorted, sorted[at]);
    let index = choose|index: int| 0 <= index < unsorted.len() && unsorted[index] == sorted[at];
    lemma_collected_issue(story_result, warnings, allowed, denied, index);
}

/// A warning that the allow list covers changes nothing: with it or without
/// it the issues are the same, and so is the verdict.
pub proof fn lemma_allowed_warning_changes_nothing<S>(
    story_result: StoryResult<S>,
    before: Seq<Warning>,
    warning: Warning,
    after: Seq<Warning>,
    allowed: Seq<String>,
    denied: Seq<String>,
)
    requires
        allows(allowed, warning.name@),
    ensures
        collected(story_result, before.push(warning) + after, allowed, denied) == collected(
            story_result,
            before + after,
            allowed,
            denied,
        ),
        fails(story_result, before.push(warning) + after, allowed, denied) == fails(
            story_result,
            before + after,
            allowed,
            denied,
        ),
{
    before.lemma_filter_push(warning, kept(allowed));
    Seq::filter_distributes_over_add(before.push(warning), after, kept(allowed));
    Seq::filter_distributes_over_add(before, after, kept(allowed));
}

/// Where every value passes the test, filtering leaves the sequence as it
/// is.
pub proof fn lemma_filter_keeps_all<A>(items: Seq<A>, test: spec_fn(A) -> bool)
    requires
        forall|i: int| 0 <= i < items.len() ==> test(#[trigger] items[i]),
    ensures
        items.filter(test) == items,
    decreases items.len(),
{
    if items.len() > 0 {
        let front = items.drop_last();
        assert forall|i: int| 0 <= i < front.len() implies test(#[trigger] front[i]) by {
            assert(front[i] == items[i]);
        }
        lemma_filter_keeps_all(front, test);
        front.lemma_filter_push(items.last(), test);
        assert(front.push(items.last()) =~= items);
    } else {
        reveal(Seq::filter);
    }
}

/// With nothing allowed and `all` denied, every warning becomes an issue
/// that is marked as denied, and where there is a warning the run fails.
pub proof fn lemma_deny_all<S>(
    story_result: StoryResult<S>,
    warnings: Seq<Warning>,
    allowed: Seq<String>,
    denied: Seq<String>,
)
    requires
        allowed.len() == 0,
        lists(denied, "all"@),
    ensures
        classified(warnings, allowed, denied).len() == warnings.len(),
        forall|at: int|
            0 <= at < stably_sorted(collected(story_result, warnings, allowed, denied)).len() ==> (
            #[trigger] stably_sorted(
                collected(story_result, warnings, allowed, denied),
            )[at] matches Issue::Warning { denied: marked, .. } ==> marked),
        warnings.len() > 0 ==> fails(story_result, warnings, allowed, denied),
{
    assert forall|i: int| 0 <= i < warnings.len() implies kept(allowed)(#[trigger] warnings[i]) by {}
    lemma_filter_keeps_all(warnings, kept(allowed));
    let sorted = stably_sorted(collected(story_result, warnings, allowed, denied));
    assert forall|at: int| 0 <= at < sorted.len() implies (#[trigger] sorted[at] matches Issue::Warning {
        denied: marked,
        ..
    } ==> marked) by {
        lemma_allowed_warnings_left_out(story_result, warnings, allowed, denied, at);
    }
    if warnings.len() > 0 {
        assert(is_fatal(classified(warnings, allowed, denied)[0]));
        assert(collected(story_result, warnings, allowed, denied)[0] == classified(
            warnings,
            allowed,
            denied,
        )[0]);
    }
}

/// Errors cannot be filtered: every error of a failed parse is among the
/// issues, whatever the lists hold, and where there is at least one the run
/// fails.
pub proof fn lemma_errors_always_reported<S>(
    story_result: StoryResult<S>,
    warnings: Seq<Warning>,
    allowed: Seq<String>,
    denied: Seq<String>,
)
    requires
        story_result is Err,
    ensures
        story_result->Err_0.errors@.len() > 0 ==> fails(story_result, warnings, allowed, denied),
        forall|k: int|
            0 <= k < story_result->Err_0.errors@.len() ==> stably_sorted(
                collected(story_result, warnings, allowed, denied),
            ).contains(Issue::Error(#[trigger] story_result->Err_0.errors@[k])),
{
    let errors = story_result->Err_0.errors@;
    let unsorted = collected(story_result, warnings, allowed, denied);
    let from_warnings = classified(warnings, allowed, denied);
    assert forall|k: int| 0 <= k < errors.len() implies stably_sorted(unsorted).contains(
        Issue::Error(#[trigger] errors[k]),
    ) by {
        assert(unsorted[from_warnings.len() + k] == Issue::Error(errors[k]));
        lemma_sorted_holds_what_was_given(unsorted, Issue::Error(errors[k]));
    }
    if errors.len() > 0 {
        assert(is_fatal(unsorted[from_warnings.len() as int]));
    }
}

/// The run fails exactly where one of the issues handed back is an error or
/// a denied warning.
pub proof fn lemma_failure_shows_in_issues<S>(
    story_result: StoryResult<S>,
    warnings: Seq<Warning>,
    allowed: Seq<String>,
    denied: Seq<String>,
)
    ensures
        fails(story_result, warnings, allowed, denied) == has_fatal(
            stably_sorted(collected(story_result, warnings, allowed, denied)),
        ),
{
    let unsorted = collected(story_result, warnings, allowed, denied);
    let sorted = stably_sorted(unsorted);
    if has_fatal(unsorted) {
        let i = choose|i: int| 0 <= i < unsorted.len() && is_fatal(#[trigger] unsorted[i]);
        assert(unsorted.contains(unsorted[i]));
        lemma_sorted_holds_what_was_given(unsorted, unsorted[i]);
        let j = choose|j: int| 0 <= j < sorted.len() && sorted[j] == unsorted[i];
        assert(is_fatal(sorted[j]));
    }
    if has_fatal(sorted) {
        let j = choose|j: int| 0 <= j < sorted.len() && is_fatal(#[trigger] sorted[j]);
        assert(sorted.contains(sorted[j]));
        lemma_sorted_holds_what_was_given(unsorted, sorted[j]);
        let i = choose|i: int| 0 <= i < unsorted.len() && unsorted[i] == sorted[j];
        assert(is_fatal(unsorted[i]));
    }
}

} // verus!
