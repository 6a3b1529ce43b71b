//! Laying out an issue: as a diagnostic with labelled spans, or as one line.
use crate::code_map::CodeMap;
use crate::context::{ByteRange, SourceContext};
use crate::diagnostic::{
    CompactLine, CompactLineView, Diagnostic, DiagnosticView, Label, LabelColor, LabelStyle,
    LabelView, Severity,
};
use crate::issue::{context_of, is_fatal, message_of, name_of, referent_of, text_of, Issue};
use crate::story_files::StoryFiles;
use crate::suggest::{holds_link, suggest, suggestion_for};
use vstd::prelude::*;

verus! {

/// How grave an issue is: errors and denied warnings are errors, other
/// warnings are warnings.
pub open spec fn severity_of(issue: Issue) -> Severity {
    if is_fatal(issue) {
        Severity::Error
    } else {
        Severity::Warning
    }
}

/// The file id and the bytes that a context resolves to. It resolves where
/// it names a file that the code map knows.
pub open spec fn place_of(context: Option<SourceContext>, code_map: CodeMap) -> Option<
    (usize, ByteRange),
> {
    match context {
        Some(context) => match context.file_name {
            Some(name) => match code_map.id_of(name@) {
                Some(id) => Some((id, context.byte_range)),
                None => None,
            },
            None => None,
        },
        None => None,
    }
}

/// The label on the issue's own place. It says nothing.
pub open spec fn primary_label(place: (usize, ByteRange)) -> LabelView {
    LabelView {
        style: LabelStyle::Primary,
        file_id: place.0,
        range: place.1,
        message: Seq::empty(),
    }
}

/// The label on the place that the issue points back to.
pub open spec fn secondary_label(place: (usize, ByteRange)) -> LabelView {
    LabelView {
        style: LabelStyle::Secondary,
        file_id: place.0,
        range: place.1,
        message: "Previously defined here. Duplicate discarded."@,
    }
}

/// The labels of an issue: none where its own place does not resolve; else
/// the primary label, and the secondary one where the issue points back to a
/// place that resolves.
pub open spec fn labels_of(issue: Issue, code_map: CodeMap) -> Seq<LabelView> {
    match place_of(context_of(issue), code_map) {
        Some(place) => match place_of(referent_of(issue), code_map) {
            Some(earlier) => seq![primary_label(place), secondary_label(earlier)],
            None => seq![primary_label(place)],
        },
        None => Seq::empty(),
    }
}

/// What is suggested for an issue. Only warnings get suggestions.
pub open spec fn note_of(issue: Issue, passage_names: Option<Seq<String>>) -> Option<Seq<char>> {
    match issue {
        Issue::Warning { warning, .. } => suggestion_for(warning, passage_names),
        Issue::Error(_) => None,
    }
}

/// The notes of an issue: what is suggested for it, where its own place
/// resolves.
pub open spec fn notes_of(
    issue: Issue,
    code_map: CodeMap,
    passage_names: Option<Seq<String>>,
) -> Seq<Seq<char>> {
    match (place_of(context_of(issue), code_map), note_of(issue, passage_names)) {
        (Some(_), Some(note)) => seq![note],
        _ => Seq::empty(),
    }
}

/// The diagnostic of an issue.
pub open spec fn diagnostic_of(
    issue: Issue,
    code_map: CodeMap,
    passage_names: Option<Seq<String>>,
) -> DiagnosticView {
    DiagnosticView {
        severity: severity_of(issue),
        message: message_of(issue),
        code: name_of(issue),
        labels: labels_of(issue, code_map),
        notes: notes_of(issue, code_map, passage_names),
    }
}

/// The word that stands for a severity.
pub open spec fn word_for(severity: Severity) -> Seq<char> {
    match severity {
        Severity::Error => "Error"@,
        Severity::Warning => "Warning"@,
    }
}

/// The colour that stands for a severity.
pub open spec fn label_color(severity: Severity) -> LabelColor {
    match severity {
        Severity::Error => LabelColor::Red,
        Severity::Warning => LabelColor::Yellow,
    }
}

/// The line of an issue.
pub open spec fn line_of(issue: Issue) -> CompactLineView {
    CompactLineView {
        severity: severity_of(issue),
        label: word_for(severity_of(issue)),
        color: label_color(severity_of(issue)),
        text: text_of(issue),
    }
}

/// The lines of the issues, one for each, in their order.
pub open spec fn lines_of(issues: Seq<Issue>) -> Seq<CompactLineView> {
    issues.map_values(|issue: Issue| line_of(issue))
}

/// The diagnostics of the issues, one for each, in their order.
pub open spec fn diagnostics_of(
    issues: Seq<Issue>,
    code_map: CodeMap,
    passage_names: Option<Seq<String>>,
) -> Seq<DiagnosticView> {
    issues.map_values(|issue: Issue| diagnostic_of(issue, code_map, passage_names))
}

/// The diagnostic has a label on the issue's own place.
pub open spec fn has_primary_label(diagnostic: DiagnosticView) -> bool {
    exists|i: int|
        0 <= i < diagnostic.labels.len() && (#[trigger] diagnostic.labels[i]).style
            == LabelStyle::Primary
}

/// The test for a diagnostic with a primary label.
pub open spec fn primary_labelled() -> spec_fn(DiagnosticView) -> bool {
    |diagnostic: DiagnosticView| has_primary_label(diagnostic)
}

/// The test for an issue whose place resolves to a file of the code map.
pub open spec fn resolved(code_map: CodeMap) -> spec_fn(Issue) -> bool {
    |issue: Issue| place_of(context_of(issue), code_map) is Some
}

/// A diagnostic has a primary label exactly where the issue's place
/// resolves.
pub proof fn lemma_primary_label_where_resolved(
    issue: Issue,
    code_map: CodeMap,
    passage_names: Option<Seq<String>>,
)
    ensures
        has_primary_label(diagnostic_of(issue, code_map, passage_names)) == resolved(code_map)(
            issue,
        ),
{
    let labels = diagnostic_of(issue, code_map, passage_names).labels;
    if resolved(code_map)(issue) {
        assert(labels[0].style == LabelStyle::Primary);
    }
}

/// Both forms of the report have one entry for each issue, and as many
/// diagnostics have a primary label as there are issues whose place resolves
/// to a file.
pub proof fn lemma_one_entry_for_each_issue(
    issues: Seq<Issue>,
    code_map: CodeMap,
    passage_names: Option<Seq<String>>,
)
    ensures
        lines_of(issues).len() == issues.len(),
        diagnostics_of(issues, code_map, passage_names).len() == issues.len(),
        diagnostics_of(issues, code_map, passage_names).filter(primary_labelled()).len()
            == issues.filter(resolved(code_map)).len(),
    decreases issues.len(),
{
    if issues.len() > 0 {
        let front = issues.drop_last();
        let last = issues.last();
        lemma_one_entry_for_each_issue(front, code_map, passage_names);
        lemma_primary_label_where_resolved(last, code_map, passage_names);
        assert(front.push(last) =~= issues);
        assert(diagnostics_of(front, code_map, passage_names).push(
            diagnostic_of(last, code_map, passage_names),
        ) =~= diagnostics_of(issues, code_map, passage_names));
        front.lemma_filter_push(last, resolved(code_map));
        diagnostics_of(front, code_map, passage_names).lemma_filter_push(
            diagnostic_of(last, code_map, passage_names),
            primary_labelled(),
        );
    } else {
        reveal(Seq::filter);
    }
}

/// An issue can be laid out as a diagnostic unless it is a warning about
/// white space in a link that carries no link.
pub open spec fn reportable(issue: Issue) -> bool {
    issue matches Issue::Warning { warning, .. } ==> holds_link(warning)
}

/// The file id and the bytes that a context resolves to.
pub fn locate(context: Option<&SourceContext>, code_map: &CodeMap) -> (place: Option<
    (usize, ByteRange),
>)
    ensures
        place == place_of(
            match context {
                Some(context) => Some(*context),
                None => None,
            },
            *code_map,
        ),
{
    match context {
        Some(context) => match &context.file_name {
            Some(name) => match code_map.lookup_id(name) {
                Some(id) => Some((id, context.byte_range)),
                None => None,
            },
            None => None,
        },
        None => None,
    }
}

impl Issue {
    /// How grave the issue is.
    pub fn severity(&self) -> (severity: Severity)
        ensures
            severity == severity_of(*self),
    {
        match self {
            Issue::Error(_) => Severity::Error,
            Issue::Warning { denied, .. } => if *denied {
                Severity::Error
            } else {
                Severity::Warning
            },
        }
    }

    /// The file id and the bytes of the place that the issue points back to.
    pub fn get_referent_file_id_and_range(&self, story_files: &StoryFiles) -> (place: Option<
        (usize, ByteRange),
    >)
        ensures
            place == place_of(referent_of(*self), *story_files.code_map),
    {
        locate(self.get_referent(), story_files.code_map)
    }

    /// The file id and the bytes of the issue's own place.
    pub fn get_file_id_and_range(&self, story_files: &StoryFiles) -> (place: Option<
        (usize, ByteRange),
    >)
        ensures
            place == place_of(context_of(*self), *story_files.code_map),
    {
        locate(self.get_context(), story_files.code_map)
    }

    /// Lays the issue out as a diagnostic.
    ///
    /// The diagnostic has the issue's severity, message and name. Where the
    /// issue's place resolves to a file, it has a primary label there, a
    /// secondary label on the place the issue points back to, if that
    /// resolves too, and as a note what is suggested. Where the place does
    /// not resolve, it has neither labels nor notes.
    pub fn report(&self, story_files: &StoryFiles) -> (diagnostic: Diagnostic)
        requires
            reportable(*self),
        ensures
            diagnostic@ == diagnostic_of(*self, *story_files.code_map, story_files.known_names()),
    {
        let severity = self.severity();
        let message = self.get_message();
        let code = self.get_name().clone();

        let help_message = match self {
            Issue::Warning { warning, .. } => suggest(warning, &story_files.passage_names),
            Issue::Error(_) => None,
        };

        let mut labels: Vec<Label> = Vec::new();
        let mut notes: Vec<String> = Vec::new();
        if let Some((file_id, range)) = self.get_file_id_and_range(story_files) {
            labels.push(Label { style: LabelStyle::Primary, file_id, range, message: String::new() });
            if let Some((file_id, range)) = self.get_referent_file_id_and_range(story_files) {
                labels.push(
                    Label {
                        style: LabelStyle::Secondary,
                        file_id,
                        range,
                        message: "Previously defined here. Duplicate discarded.".to_owned(),
                    },
                );
            }
            if let Some(note) = help_message {
                notes.push(note);
            }
        }
        let diagnostic = Diagnostic { severity, message, code, labels, notes };
        proof {
            let expected = diagnostic_of(
                *self,
                *story_files.code_map,
                story_files.known_names(),
            );
            assert(diagnostic@.labels =~= expected.labels);
            assert(diagnostic@.notes =~= expected.notes);
        }
        diagnostic
    }
}

/// Lays the issue out as one line: `Error` in red for an error or a denied
/// warning, `Warning` in yellow for any other warning, and behind it the
/// issue written out.
pub fn print_issue(issue: &Issue) -> (line: CompactLine)
    ensures
        line@ == line_of(*issue),
{
    let text = match issue {
        Issue::Error(error) => error.text.clone(),
        Issue::Warning { warning, .. } => warning.text.clone(),
    };
    match issue.severity() {
        Severity::Error => CompactLine {
            severity: Severity::Error,
            label: "Error".to_owned(),
            color: LabelColor::Red,
            text,
        },
        Severity::Warning => CompactLine {
            severity: Severity::Warning,
            label: "Warning".to_owned(),
            color: LabelColor::Yellow,
            text,
        },
    }
}

} // verus!
