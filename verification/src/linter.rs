//! A whole run: the issues are classified and sorted, laid out in the form
//! that the settings ask for, and the run is judged.
use crate::config::Config;
use crate::diagnostic::{
    diagnostic_views, line_views, CompactLine, Diagnostic, Report, ReportView,
};
use crate::findings::{ParsedStory, StoryResult, Warning};
use crate::issue::{
    classified, collected, errors_of, fails, filter_and_sort_issues, is_allowed, judged, kept,
    Issue,
};
use crate::report::{diagnostics_of, lines_of, print_issue, reportable};
use crate::sort::{lemma_sorted_holds_what_was_given, stably_sorted};
use crate::story_files::{code_map_of, passage_names_of, StoryFiles};
use crate::suggest::{carries_link, holds_link};
use vstd::prelude::*;

verus! {

/// Why a run failed.
#[derive(Debug, Clone, Copy, PartialEq, Eq, Structural)]
pub enum LintError {
    /// The parse failed, or a warning was denied.
    PreviousErrors,
}

impl LintError {
    /// What to tell the user.
    pub fn message(&self) -> (message: String)
        ensures
            message@ == "Failed due to previous errors"@,
    {
        "Failed due to previous errors".to_owned()
    }
}

/// The issues of a run in the order of the report.
pub open spec fn issues_of<S>(
    story_result: StoryResult<S>,
    warnings: Seq<Warning>,
    config: Config,
) -> Seq<Issue> {
    stably_sorted(collected(story_result, warnings, config.allowed@, config.denied@))
}

/// The report of a run: a line for each issue in the compact form, a
/// diagnostic for each in the rich form.
pub open spec fn report_of<S>(
    story_result: StoryResult<S>,
    warnings: Seq<Warning>,
    config: Config,
) -> ReportView {
    let issues = issues_of(story_result, warnings, config);
    if config.compact {
        ReportView::Compact(lines_of(issues))
    } else {
        ReportView::Rich(
            diagnostics_of(issues, code_map_of(story_result), passage_names_of(story_result)),
        )
    }
}

/// How a run ends: with the story that parsed, unless the run fails. A
/// failed parse ends in the failure even where it left no error and nothing
/// is denied: it has no story to hand back.
pub open spec fn outcome_of<S>(
    story_result: StoryResult<S>,
    warnings: Seq<Warning>,
    config: Config,
) -> Result<ParsedStory<S>, LintError> {
    match story_result {
        Ok(story) => if fails(story_result, warnings, config.allowed@, config.denied@) {
            Err(LintError::PreviousErrors)
        } else {
            Ok(story)
        },
        Err(_) => Err(LintError::PreviousErrors),
    }
}

/// The story or the failure behind a reference to the story.
pub open spec fn owned<S>(outcome: Result<&ParsedStory<S>, LintError>) -> Result<
    ParsedStory<S>,
    LintError,
> {
    match outcome {
        Ok(story) => Ok(*story),
        Err(error) => Err(error),
    }
}

/// Every warning about white space in a link carries its link.
pub open spec fn all_hold_links(warnings: Seq<Warning>) -> bool {
    forall|i: int| 0 <= i < warnings.len() ==> holds_link(#[trigger] warnings[i])
}

/// Whether a report can be made of these warnings in the form that `config`
/// asks for: the compact form takes any, the rich form those of which every
/// warning that is not allowed carries its link.
pub open spec fn can_lint(warnings: Seq<Warning>, config: Config) -> bool {
    config.compact || all_hold_links(warnings.filter(kept(config.allowed@)))
}

/// Where every warning that is not allowed carries its link, every issue of
/// the run can be laid out as a diagnostic.
pub proof fn lemma_issues_reportable<S>(
    story_result: StoryResult<S>,
    warnings: Seq<Warning>,
    config: Config,
    at: int,
)
    requires
        all_hold_links(warnings.filter(kept(config.allowed@))),
        0 <= at < issues_of(story_result, warnings, config).len(),
    ensures
        reportable(issues_of(story_result, warnings, config)[at]),
{
    let allowed = config.allowed@;
    let denied = config.denied@;
    let unsorted = collected(story_result, warnings, allowed, denied);
    let sorted = issues_of(story_result, warnings, config);
    let issue = sorted[at];
    assert(sorted.contains(issue));
    lemma_sorted_holds_what_was_given(unsorted, issue);
    let index = choose|index: int| 0 <= index < unsorted.len() && unsorted[index] == issue;
    let from_warnings = classified(warnings, allowed, denied);
    if index < from_warnings.len() {
        let through = warnings.filter(kept(allowed));
        assert(issue == judged(denied)(through[index]));
        assert(holds_link(through[index]));
    } else {
        assert(issue == errors_of(story_result)[index - from_warnings.len()]);
    }
}

/// Whether a report can be made of these warnings in the form that `config`
/// asks for.
pub fn lintable(warnings: &Vec<Warning>, config: &Config) -> (ready: bool)
    ensures
        ready == can_lint(warnings@, *config),
{
    if config.compact {
        return true;
    }
    let ghost through = warnings@.filter(kept(config.allowed@));
    let mut at: usize = 0;
    while at < warnings.len()
        invariant
            at <= warnings.len(),
            !config.compact,
            through == warnings@.filter(kept(config.allowed@)),
            all_hold_links(warnings@.take(at as int).filter(kept(config.allowed@))),
        decreases warnings.len() - at,
    {
        let warning = &warnings[at];
        let stays = !is_allowed(&config.allowed, &warning.name);
        if stays && !carries_link(warning) {
            proof {
                warnings@.lemma_filter_contains(kept(config.allowed@), at as int);
                let found = choose|found: int|
                    0 <= found < through.len() && through[found] == warnings@[at as int];
                assert(!holds_link(through[found]));
            }
            return false;
        }
        proof {
            let done = warnings@.take(at as int);
            assert(warnings@.take(at + 1) =~= done.push(*warning));
            done.lemma_filter_push(*warning, kept(config.allowed@));
            let before = done.filter(kept(config.allowed@));
            let after = warnings@.take(at + 1).filter(kept(config.allowed@));
            assert forall|i: int| 0 <= i < after.len() implies holds_link(#[trigger] after[i]) by {
                if i < before.len() {
                    assert(after[i] == before[i]);
                }
            }
        }
        at += 1;
    }
    assert(warnings@.take(warnings.len() as int) =~= warnings@);
    true
}

/// Reports on what the parser handed over.
///
/// The warnings are classified under the lists of `config` and sorted
/// together with the errors. The report holds, for each issue in that
/// order, a line if `config` asks for the compact form, a diagnostic if not.
/// The run ends with the story unless the parse failed or a warning is
/// denied and not allowed.
pub fn lint<'a, S>(
    story_result: &'a StoryResult<S>,
    warnings: Vec<Warning>,
    config: &Config,
) -> (out: (Report, Result<&'a ParsedStory<S>, LintError>))
    requires
        can_lint(warnings@, *config),
    ensures
        out.0@ == report_of(*story_result, warnings@, *config),
        owned(out.1) == outcome_of(*story_result, warnings@, *config),
{
    let story_files = StoryFiles::new(story_result);
    let (issues, is_err) = filter_and_sort_issues(story_result, warnings, config);

    let report = if config.compact {
        let mut lines: Vec<CompactLine> = Vec::new();
        let mut at: usize = 0;
        while at < issues.len()
            invariant
                at <= issues.len(),
                lines@.len() == at,
                line_views(lines@) == lines_of(issues@.take(at as int)),
            decreases issues.len() - at,
        {
            let line = print_issue(&issues[at]);
            proof {
                let before = lines_of(issues@.take(at as int));
                let after = lines_of(issues@.take(at + 1));
                assert forall|k: int| 0 <= k < after.len() implies line_views(
                    lines@.push(line),
                )[k] == after[k] by {
                    if k < at {
                        assert(line_views(lines@)[k] == before[k]);
                    }
                }
                assert(line_views(lines@.push(line)) =~= after);
            }
            lines.push(line);
            at += 1;
        }
        assert(issues@.take(issues.len() as int) =~= issues@);
        Report::Compact(lines)
    } else {
        let mut diagnostics: Vec<Diagnostic> = Vec::new();
        let mut at: usize = 0;
        while at < issues.len()
            invariant
                at <= issues.len(),
                diagnostics@.len() == at,
                all_hold_links(warnings@.filter(kept(config.allowed@))),
                issues@ == issues_of(*story_result, warnings@, *config),
                *story_files.code_map == code_map_of(*story_result),
                story_files.known_names() == passage_names_of(*story_result),
                diagnostic_views(diagnostics@) == diagnostics_of(
                    issues@.take(at as int),
                    code_map_of(*story_result),
                    passage_names_of(*story_result),
                ),
            decreases issues.len() - at,
        {
            proof {
                lemma_issues_reportable(*story_result, warnings@, *config, at as int);
            }
            let diagnostic = issues[at].report(&story_files);
            proof {
                let before = diagnostics_of(
                    issues@.take(at as int),
                    code_map_of(*story_result),
                    passage_names_of(*story_result),
                );
                let after = diagnostics_of(
                    issues@.take(at + 1),
                    code_map_of(*story_result),
                    passage_names_of(*story_result),
                );
                assert forall|k: int| 0 <= k < after.len() implies diagnostic_views(
                    diagnostics@.push(diagnostic),
                )[k] == after[k] by {
                    if k < at {
                        assert(diagnostic_views(diagnostics@)[k] == before[k]);
                    }
                }
                assert(diagnostic_views(diagnostics@.push(diagnostic)) =~= after);
            }
            diagnostics.push(diagnostic);
            at += 1;
        }
        assert(issues@.take(issues.len() as int) =~= issues@);
        Report::Rich(diagnostics)
    };

    let outcome = match story_result {
        Ok(story) => if is_err {
            Err(LintError::PreviousErrors)
        } else {
            Ok(story)
        },
        Err(_) => Err(LintError::PreviousErrors),
    };
    (report, outcome)
}

} // verus!
