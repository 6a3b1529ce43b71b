use tweec::code_map::CodeMap;
use tweec::config::{ColorChoice, Config};
use tweec::context::{ByteRange, SourceContext};
use tweec::findings::{FailedParse, ParseError, ParsedStory, StoryResult, Warning, WarningKind};
use tweec::issue::{filter_and_sort_issues, is_allowed, is_listed, Issue};

fn config(allowed: &[&str], denied: &[&str]) -> Config {
    Config {
        linting: true,
        inputs: vec!["story.twee".to_string()],
        format_file: "format.js".to_string(),
        output_file: None,
        should_open: false,
        allowed: allowed.iter().map(|s| s.to_string()).collect(),
        denied: denied.iter().map(|s| s.to_string()).collect(),
        use_color: ColorChoice::Never,
        compact: true,
    }
}

fn at(file: Option<&str>, line: usize, column: usize) -> SourceContext {
    SourceContext {
        file_name: file.map(|s| s.to_string()),
        line,
        column,
        byte_range: ByteRange { start: 0, end: 1 },
        contents: "x".to_string(),
    }
}

fn warning(name: &str, context: Option<SourceContext>) -> Warning {
    Warning {
        kind: WarningKind::Other,
        name: name.to_string(),
        message: format!("{} happened", name),
        text: format!("{} happened at {:?}", name, context.as_ref().map(|c| (c.line, c.column))),
        context,
        referent: None,
    }
}

fn error(name: &str, context: Option<SourceContext>) -> ParseError {
    ParseError {
        name: name.to_string(),
        message: format!("{} is wrong", name),
        text: format!("{} is wrong somewhere", name),
        context,
    }
}

fn parsed() -> StoryResult<u32> {
    Ok(ParsedStory { story: 7, passage_names: vec![], code_map: CodeMap { files: vec![] } })
}

fn failed(errors: Vec<ParseError>) -> StoryResult<u32> {
    Err(FailedParse { errors, code_map: CodeMap { files: vec![] } })
}

fn names(issues: &[Issue]) -> Vec<String> {
    issues.iter().map(|i| i.get_name().clone()).collect()
}

#[test]
fn listed_names_are_found() {
    let list = vec!["DeadLink".to_string(), "all".to_string()];
    assert!(is_listed(&list, &"all".to_string()));
    assert!(is_listed(&list, &"DeadLink".to_string()));
    assert!(!is_listed(&list, &"deadlink".to_string()));
    assert!(!is_listed(&vec![], &"all".to_string()));
}

#[test]
fn allowed_warning_is_dropped_and_does_not_fail() {
    let warnings = vec![
        warning("DeadLink", None),
        warning("UnclosedLink", None),
    ];
    let (issues, failure) =
        filter_and_sort_issues(&parsed(), warnings, &config(&["DeadLink"], &["DeadLink"]));
    assert_eq!(names(&issues), vec!["UnclosedLink".to_string()]);
    assert!(!failure);
}

#[test]
fn allow_all_drops_every_warning() {
    let warnings = vec![warning("DeadLink", None), warning("UnclosedLink", None)];
    let (issues, failure) =
        filter_and_sort_issues(&parsed(), warnings, &config(&["all"], &["all"]));
    assert!(issues.is_empty());
    assert!(!failure);
}

#[test]
fn allow_wins_over_deny_in_any_order() {
    let warnings = vec![warning("DeadLink", None)];
    let (issues, failure) =
        filter_and_sort_issues(&parsed(), warnings, &config(&["x", "DeadLink"], &["DeadLink", "all"]));
    assert!(issues.is_empty());
    assert!(!failure);
}

#[test]
fn deny_all_denies_every_warning() {
    let warnings = vec![warning("DeadLink", None), warning("UnclosedLink", None)];
    let (issues, failure) = filter_and_sort_issues(&parsed(), warnings, &config(&[], &["all"]));
    assert_eq!(issues.len(), 2);
    for issue in &issues {
        assert!(matches!(issue, Issue::Warning { denied: true, .. }));
    }
    assert!(failure);
}

#[test]
fn deny_all_without_warnings_does_not_fail() {
    let (issues, failure) = filter_and_sort_issues(&parsed(), vec![], &config(&[], &["all"]));
    assert!(issues.is_empty());
    assert!(!failure);
}

#[test]
fn denied_by_name_marks_only_that_warning() {
    let warnings = vec![warning("DeadLink", None), warning("UnclosedLink", None)];
    let (issues, failure) =
        filter_and_sort_issues(&parsed(), warnings, &config(&[], &["UnclosedLink"]));
    assert_eq!(issues.len(), 2);
    assert!(matches!(&issues[0], Issue::Warning { denied: false, warning } if warning.name == "DeadLink"));
    assert!(matches!(&issues[1], Issue::Warning { denied: true, warning } if warning.name == "UnclosedLink"));
    assert!(failure);
}

#[test]
fn undenied_warnings_do_not_fail() {
    let warnings = vec![warning("DeadLink", None)];
    let (issues, failure) = filter_and_sort_issues(&parsed(), warnings, &config(&[], &[]));
    assert_eq!(issues.len(), 1);
    assert!(matches!(&issues[0], Issue::Warning { denied: false, .. }));
    assert!(!failure);
}

#[test]
fn parse_errors_cannot_be_filtered() {
    let errors = vec![error("EmptyName", None), error("MissingSigil", None)];
    let warnings = vec![warning("DeadLink", None)];
    let (issues, failure) = filter_and_sort_issues(
        &failed(errors),
        warnings,
        &config(&["all", "EmptyName", "MissingSigil"], &[]),
    );
    assert!(failure);
    assert_eq!(issues.len(), 2);
    assert_eq!(issues[0], Issue::Error(error("EmptyName", None)));
    assert_eq!(issues[1], Issue::Error(error("MissingSigil", None)));
}

#[test]
fn failed_parse_without_errors_does_not_set_the_flag() {
    let (issues, failure) = filter_and_sort_issues(&failed(vec![]), vec![], &config(&[], &[]));
    assert!(issues.is_empty());
    assert!(!failure);
    let warnings = vec![warning("DeadLink", None)];
    let (issues, failure) = filter_and_sort_issues(&failed(vec![]), warnings, &config(&[], &[]));
    assert_eq!(issues.len(), 1);
    assert!(!failure);
}

#[test]
fn one_parse_error_sets_the_flag() {
    let (issues, failure) =
        filter_and_sort_issues(&failed(vec![error("EmptyName", None)]), vec![], &config(&[], &[]));
    assert_eq!(issues.len(), 1);
    assert!(failure);
}

#[test]
fn allow_list_covers_names_and_all() {
    let list = vec!["DeadLink".to_string()];
    assert!(is_allowed(&list, &"DeadLink".to_string()));
    assert!(!is_allowed(&list, &"UnclosedLink".to_string()));
    assert!(is_allowed(&vec!["x".to_string(), "all".to_string()], &"UnclosedLink".to_string()));
    assert!(!is_allowed(&vec![], &"all".to_string()));
}

#[test]
fn warnings_come_before_errors_of_equal_place() {
    let errors = vec![error("EmptyName", None)];
    let warnings = vec![warning("DeadLink", None)];
    let (issues, failure) = filter_and_sort_issues(&failed(errors), warnings, &config(&[], &[]));
    assert!(failure);
    assert_eq!(names(&issues), vec!["DeadLink".to_string(), "EmptyName".to_string()]);
}

#[test]
fn classification_is_repeatable() {
    let make = || {
        vec![
            warning("C", Some(at(Some("a.twee"), 5, 1))),
            warning("A", None),
            warning("B", Some(at(Some("a.twee"), 2, 3))),
            warning("D", Some(at(None, 9, 9))),
        ]
    };
    let policy = config(&["A"], &["B"]);
    let first = filter_and_sort_issues(&failed(vec![error("E", None)]), make(), &policy);
    let second = filter_and_sort_issues(&failed(vec![error("E", None)]), make(), &policy);
    assert_eq!(first, second);
}
