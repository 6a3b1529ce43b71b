use tweec::code_map::{CodeMap, SourceFile};
use tweec::config::{ColorChoice, Config};
use tweec::context::{ByteRange, SourceContext};
use tweec::diagnostic::{CompactLine, Diagnostic, Label, LabelColor, LabelStyle, Report, Severity};
use tweec::findings::{FailedParse, ParseError, ParsedStory, StoryResult, Warning, WarningKind};
use tweec::issue::Issue;
use tweec::linter::{lint, lintable, LintError};
use tweec::report::{locate, print_issue};
use tweec::story_files::StoryFiles;

fn file(name: &str, source: &str) -> SourceFile {
    let mut starts = vec![0];
    for (i, b) in source.bytes().enumerate() {
        if b == b'\n' {
            starts.push(i + 1);
        }
    }
    let mut ranges = Vec::new();
    for (i, start) in starts.iter().enumerate() {
        let end = if i + 1 < starts.len() { starts[i + 1] - 1 } else { source.len() };
        ranges.push(ByteRange { start: *start, end });
    }
    SourceFile::new(Some(name.to_string()), source.to_string(), starts, ranges).unwrap()
}

fn sources() -> CodeMap {
    CodeMap {
        files: vec![
            file("a.twee", ":: Start\n[[ Home | Room 1 ]]\n[[Satrt]]\n"),
            file("b.twee", ":: Room 1\nText\n"),
        ],
    }
}

fn span(file: Option<&str>, line: usize, column: usize, start: usize, end: usize, text: &str) -> SourceContext {
    SourceContext {
        file_name: file.map(|s| s.to_string()),
        line,
        column,
        byte_range: ByteRange { start, end },
        contents: text.to_string(),
    }
}

fn settings(compact: bool, allowed: &[&str], denied: &[&str]) -> Config {
    Config {
        linting: true,
        inputs: vec![],
        format_file: "format.js".to_string(),
        output_file: None,
        should_open: false,
        allowed: allowed.iter().map(|s| s.to_string()).collect(),
        denied: denied.iter().map(|s| s.to_string()).collect(),
        use_color: ColorChoice::Auto,
        compact,
    }
}

fn good_story() -> StoryResult<String> {
    Ok(ParsedStory {
        story: "the story".to_string(),
        passage_names: vec!["Start".to_string(), "Room 1".to_string()],
        code_map: sources(),
    })
}

fn bad_story(errors: Vec<ParseError>) -> StoryResult<String> {
    Err(FailedParse { errors, code_map: sources() })
}

fn whitespace_warning() -> Warning {
    Warning {
        kind: WarningKind::WhitespaceInLink,
        name: "WhitespaceInLink".to_string(),
        message: "Whitespace in passage link".to_string(),
        text: "Whitespace in passage link at a.twee:2".to_string(),
        context: Some(span(Some("a.twee"), 2, 1, 9, 28, "[[ Home | Room 1 ]]")),
        referent: None,
    }
}

fn dead_link_warning() -> Warning {
    Warning {
        kind: WarningKind::DeadLink("Satrt".to_string()),
        name: "DeadLink".to_string(),
        message: "Dead link to nonexistant passage: Satrt".to_string(),
        text: "Dead link to nonexistant passage: Satrt at a.twee:3".to_string(),
        context: Some(span(Some("a.twee"), 3, 1, 29, 38, "[[Satrt]]")),
        referent: None,
    }
}

fn duplicate_warning() -> Warning {
    Warning {
        kind: WarningKind::Other,
        name: "DuplicatePassage".to_string(),
        message: "Found duplicate passage named Room 1".to_string(),
        text: "Found duplicate passage named Room 1 at b.twee:1".to_string(),
        context: Some(span(Some("b.twee"), 1, 1, 0, 9, ":: Room 1")),
        referent: Some(span(Some("a.twee"), 1, 1, 0, 8, ":: Start")),
    }
}

fn story_level_warning() -> Warning {
    Warning {
        kind: WarningKind::Other,
        name: "MissingStoryTitle".to_string(),
        message: "No StoryTitle passage found".to_string(),
        text: "No StoryTitle passage found at None".to_string(),
        context: None,
        referent: None,
    }
}

fn header_error() -> ParseError {
    ParseError {
        name: "EmptyName".to_string(),
        message: "Passage header has an empty name".to_string(),
        text: "Passage header has an empty name at b.twee:2".to_string(),
        context: Some(span(Some("b.twee"), 2, 1, 10, 14, "Text")),
    }
}

#[test]
fn context_resolves_to_file_id_and_bytes() {
    let map = sources();
    let context = span(Some("b.twee"), 1, 1, 3, 9, "Room 1");
    assert_eq!(locate(Some(&context), &map), Some((1, ByteRange { start: 3, end: 9 })));
    let unknown = span(Some("c.twee"), 1, 1, 3, 9, "Room 1");
    assert_eq!(locate(Some(&unknown), &map), None);
    let unnamed = span(None, 1, 1, 3, 9, "Room 1");
    assert_eq!(locate(Some(&unnamed), &map), None);
    assert_eq!(locate(None, &map), None);
}

#[test]
fn denied_warning_is_reported_as_error() {
    let story = good_story();
    let files = StoryFiles::new(&story);
    let issue = Issue::Warning { warning: duplicate_warning(), denied: true };
    assert_eq!(issue.severity(), Severity::Error);
    assert_eq!(issue.report(&files).severity, Severity::Error);
    let issue = Issue::Warning { warning: duplicate_warning(), denied: false };
    assert_eq!(issue.severity(), Severity::Warning);
    assert_eq!(issue.report(&files).severity, Severity::Warning);
    assert_eq!(Issue::Error(header_error()).severity(), Severity::Error);
}

#[test]
fn duplicate_gets_both_labels() {
    let story = good_story();
    let files = StoryFiles::new(&story);
    let issue = Issue::Warning { warning: duplicate_warning(), denied: false };
    assert_eq!(issue.get_file_id_and_range(&files), Some((1, ByteRange { start: 0, end: 9 })));
    assert_eq!(
        issue.get_referent_file_id_and_range(&files),
        Some((0, ByteRange { start: 0, end: 8 }))
    );
    assert_eq!(
        issue.report(&files),
        Diagnostic {
            severity: Severity::Warning,
            message: "Found duplicate passage named Room 1".to_string(),
            code: "DuplicatePassage".to_string(),
            labels: vec![
                Label {
                    style: LabelStyle::Primary,
                    file_id: 1,
                    range: ByteRange { start: 0, end: 9 },
                    message: String::new(),
                },
                Label {
                    style: LabelStyle::Secondary,
                    file_id: 0,
                    range: ByteRange { start: 0, end: 8 },
                    message: "Previously defined here. Duplicate discarded.".to_string(),
                },
            ],
            notes: vec![],
        }
    );
}

#[test]
fn referent_in_unknown_file_gets_no_label() {
    let story = good_story();
    let files = StoryFiles::new(&story);
    let mut warning = duplicate_warning();
    warning.referent = Some(span(Some("gone.twee"), 1, 1, 0, 8, ":: Start"));
    let diagnostic = Issue::Warning { warning, denied: false }.report(&files);
    assert_eq!(diagnostic.labels.len(), 1);
    assert_eq!(diagnostic.labels[0].style, LabelStyle::Primary);
}

#[test]
fn referent_without_primary_place_is_left_out() {
    let story = good_story();
    let files = StoryFiles::new(&story);
    let mut warning = duplicate_warning();
    warning.context = None;
    let diagnostic = Issue::Warning { warning, denied: false }.report(&files);
    assert!(diagnostic.labels.is_empty());
    assert!(diagnostic.notes.is_empty());
    assert_eq!(diagnostic.code, "DuplicatePassage");
}

#[test]
fn story_level_issue_has_message_and_code_only() {
    let story = good_story();
    let files = StoryFiles::new(&story);
    let diagnostic = Issue::Warning { warning: story_level_warning(), denied: false }.report(&files);
    assert_eq!(
        diagnostic,
        Diagnostic {
            severity: Severity::Warning,
            message: "No StoryTitle passage found".to_string(),
            code: "MissingStoryTitle".to_string(),
            labels: vec![],
            notes: vec![],
        }
    );
}

#[test]
fn dead_link_note_names_the_similar_passage() {
    let story = good_story();
    let files = StoryFiles::new(&story);
    let diagnostic = Issue::Warning { warning: dead_link_warning(), denied: false }.report(&files);
    assert_eq!(diagnostic.notes, vec!["Found passage with similar name: \"Start\"".to_string()]);
    assert_eq!(diagnostic.labels.len(), 1);
    assert_eq!(diagnostic.labels[0].file_id, 0);
    assert_eq!(diagnostic.labels[0].range, ByteRange { start: 29, end: 38 });
}

#[test]
fn dead_link_has_no_note_when_the_parse_failed() {
    let story = bad_story(vec![header_error()]);
    let files = StoryFiles::new(&story);
    assert_eq!(files.passage_names, None);
    let diagnostic = Issue::Warning { warning: dead_link_warning(), denied: false }.report(&files);
    assert!(diagnostic.notes.is_empty());
    assert_eq!(diagnostic.labels.len(), 1);
}

#[test]
fn dead_link_in_unknown_file_has_no_note() {
    let story = good_story();
    let files = StoryFiles::new(&story);
    let mut warning = dead_link_warning();
    warning.context = Some(span(Some("gone.twee"), 3, 1, 29, 38, "[[Satrt]]"));
    let diagnostic = Issue::Warning { warning, denied: false }.report(&files);
    assert!(diagnostic.notes.is_empty());
    assert!(diagnostic.labels.is_empty());
}

#[test]
fn whitespace_note_proposes_the_mended_link() {
    let story = good_story();
    let files = StoryFiles::new(&story);
    let diagnostic = Issue::Warning { warning: whitespace_warning(), denied: false }.report(&files);
    assert_eq!(
        diagnostic.notes,
        vec!["Try replacing [[ Home | Room 1 ]] with [[ Home |Room 1]]".to_string()]
    );
}

#[test]
fn error_is_reported_with_its_place() {
    let story = bad_story(vec![header_error()]);
    let files = StoryFiles::new(&story);
    let diagnostic = Issue::Error(header_error()).report(&files);
    assert_eq!(
        diagnostic,
        Diagnostic {
            severity: Severity::Error,
            message: "Passage header has an empty name".to_string(),
            code: "EmptyName".to_string(),
            labels: vec![Label {
                style: LabelStyle::Primary,
                file_id: 1,
                range: ByteRange { start: 10, end: 14 },
                message: String::new(),
            }],
            notes: vec![],
        }
    );
}

#[test]
fn compact_line_of_an_error() {
    assert_eq!(
        print_issue(&Issue::Error(header_error())),
        CompactLine {
            severity: Severity::Error,
            label: "Error".to_string(),
            color: LabelColor::Red,
            text: "Passage header has an empty name at b.twee:2".to_string(),
        }
    );
}

#[test]
fn compact_line_of_a_warning() {
    assert_eq!(
        print_issue(&Issue::Warning { warning: story_level_warning(), denied: false }),
        CompactLine {
            severity: Severity::Warning,
            label: "Warning".to_string(),
            color: LabelColor::Yellow,
            text: "No StoryTitle passage found at None".to_string(),
        }
    );
}

#[test]
fn compact_line_of_a_denied_warning() {
    let line = print_issue(&Issue::Warning { warning: story_level_warning(), denied: true });
    assert_eq!(line.severity, Severity::Error);
    assert_eq!(line.label, "Error");
    assert_eq!(line.color, LabelColor::Red);
}

#[test]
fn clean_run_hands_the_story_back() {
    let parsed = good_story();
    let (report, outcome) = lint(&parsed, vec![], &settings(false, &[], &[]));
    assert_eq!(report, Report::Rich(vec![]));
    let story = outcome.unwrap();
    assert_eq!(story.story, "the story");
    assert_eq!(story.passage_names, vec!["Start".to_string(), "Room 1".to_string()]);
}

#[test]
fn warnings_alone_do_not_fail_the_run() {
    let warnings = vec![dead_link_warning(), story_level_warning()];
    let parsed = good_story();
    let (report, outcome) = lint(&parsed, warnings, &settings(true, &[], &[]));
    assert!(outcome.is_ok());
    match report {
        Report::Compact(lines) => {
            assert_eq!(lines.len(), 2);
            assert_eq!(lines[0].text, "No StoryTitle passage found at None");
            assert_eq!(lines[0].label, "Warning");
            assert_eq!(lines[1].text, "Dead link to nonexistant passage: Satrt at a.twee:3");
        }
        Report::Rich(_) => panic!("compact form was asked for"),
    }
}

#[test]
fn denied_warning_fails_the_run() {
    let warnings = vec![dead_link_warning()];
    let parsed = good_story();
    let (report, outcome) = lint(&parsed, warnings, &settings(true, &[], &["DeadLink"]));
    assert_eq!(outcome.err(), Some(LintError::PreviousErrors));
    match report {
        Report::Compact(lines) => {
            assert_eq!(lines.len(), 1);
            assert_eq!(lines[0].label, "Error");
        }
        Report::Rich(_) => panic!("compact form was asked for"),
    }
}

#[test]
fn failed_parse_fails_the_run() {
    let failed = bad_story(vec![header_error()]);
    let (report, outcome) = lint(&failed, vec![], &settings(false, &["all"], &[]));
    assert_eq!(outcome.err(), Some(LintError::PreviousErrors));
    match report {
        Report::Rich(diagnostics) => {
            assert_eq!(diagnostics.len(), 1);
            assert_eq!(diagnostics[0].severity, Severity::Error);
            assert_eq!(diagnostics[0].code, "EmptyName");
        }
        Report::Compact(_) => panic!("rich form was asked for"),
    }
}

#[test]
fn failure_message_is_fixed() {
    assert_eq!(LintError::PreviousErrors.message(), "Failed due to previous errors");
}

#[test]
fn both_forms_have_one_entry_for_each_issue() {
    let make = || {
        vec![
            dead_link_warning(),
            story_level_warning(),
            duplicate_warning(),
            whitespace_warning(),
            Warning {
                kind: WarningKind::Other,
                name: "UnclosedLink".to_string(),
                message: "Unclosed passage link".to_string(),
                text: "Unclosed passage link at gone.twee:1".to_string(),
                context: Some(span(Some("gone.twee"), 1, 1, 0, 2, "[[")),
                referent: None,
            },
        ]
    };
    let parsed = good_story();
    let (compact, _) = lint(&parsed, make(), &settings(true, &[], &[]));
    let (rich, _) = lint(&parsed, make(), &settings(false, &[], &[]));
    match (compact, rich) {
        (Report::Compact(lines), Report::Rich(diagnostics)) => {
            assert_eq!(lines.len(), 5);
            assert_eq!(diagnostics.len(), 5);
            let labelled = diagnostics
                .iter()
                .filter(|d| d.labels.iter().any(|l| l.style == LabelStyle::Primary))
                .count();
            assert_eq!(labelled, 3);
            let codes: Vec<&str> = diagnostics.iter().map(|d| d.code.as_str()).collect();
            assert_eq!(
                codes,
                vec!["MissingStoryTitle", "DuplicatePassage", "UnclosedLink", "WhitespaceInLink", "DeadLink"]
            );
        }
        _ => panic!("each form was asked for once"),
    }
}

#[test]
fn allowed_warning_does_not_show_in_the_report() {
    let warnings = vec![dead_link_warning(), whitespace_warning()];
    let parsed = good_story();
    let (report, outcome) =
        lint(&parsed, warnings, &settings(false, &["DeadLink"], &["DeadLink"]));
    assert!(outcome.is_ok());
    match report {
        Report::Rich(diagnostics) => {
            assert_eq!(diagnostics.len(), 1);
            assert_eq!(diagnostics[0].code, "WhitespaceInLink");
        }
        Report::Compact(_) => panic!("rich form was asked for"),
    }
}

fn short_link_warning() -> Warning {
    let mut warning = whitespace_warning();
    warning.context = Some(span(Some("a.twee"), 2, 1, 9, 11, "[["));
    warning
}

#[test]
fn failed_parse_without_errors_ends_in_the_failure() {
    let failed = bad_story(vec![]);
    let (report, outcome) = lint(&failed, vec![], &settings(true, &[], &[]));
    assert_eq!(report, Report::Compact(vec![]));
    assert_eq!(outcome.err(), Some(LintError::PreviousErrors));
}

#[test]
fn short_link_is_no_hindrance_where_it_is_allowed() {
    let parsed = good_story();
    let config = settings(false, &["WhitespaceInLink"], &[]);
    let warnings = vec![short_link_warning(), dead_link_warning()];
    assert!(lintable(&warnings, &config));
    let (report, outcome) = lint(&parsed, warnings, &config);
    assert!(outcome.is_ok());
    match report {
        Report::Rich(diagnostics) => {
            assert_eq!(diagnostics.len(), 1);
            assert_eq!(diagnostics[0].code, "DeadLink");
        }
        Report::Compact(_) => panic!("rich form was asked for"),
    }
}

#[test]
fn short_link_is_told_before_the_rich_form_is_made() {
    let warnings = vec![dead_link_warning(), short_link_warning()];
    assert!(!lintable(&warnings, &settings(false, &[], &[])));
    assert!(!lintable(&warnings, &settings(false, &["DeadLink"], &["all"])));
    assert!(lintable(&warnings, &settings(false, &["all"], &[])));
    assert!(lintable(&warnings, &settings(true, &[], &[])));
    assert!(lintable(&vec![], &settings(false, &[], &[])));
    assert!(lintable(&vec![whitespace_warning()], &settings(false, &[], &[])));
}

#[test]
fn compact_form_takes_a_short_link() {
    let parsed = good_story();
    let (report, outcome) = lint(&parsed, vec![short_link_warning()], &settings(true, &[], &[]));
    assert!(outcome.is_ok());
    match report {
        Report::Compact(lines) => assert_eq!(lines.len(), 1),
        Report::Rich(_) => panic!("compact form was asked for"),
    }
}
