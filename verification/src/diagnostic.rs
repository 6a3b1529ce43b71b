//! What a report is made of: diagnostics with labelled spans for the rich
//! form, lines for the compact form.
use crate::context::ByteRange;
use vstd::prelude::*;

verus! {

/// How grave an issue is.
#[derive(Debug, Clone, Copy, PartialEq, Eq, Structural)]
pub enum Severity {
    /// It makes the run fail.
    Error,
    /// It does not.
    Warning,
}

/// What a label marks.
#[derive(Debug, Clone, Copy, PartialEq, Eq, Structural)]
pub enum LabelStyle {
    /// The place of the issue itself.
    Primary,
    /// A place that the issue refers to.
    Secondary,
}

/// A marked span of a source file.
#[derive(Debug, PartialEq, Eq)]
pub struct Label {
    /// What the label marks.
    pub style: LabelStyle,
    /// The id of the file.
    pub file_id: usize,
    /// The bytes marked.
    pub range: ByteRange,
    /// What is said about the span; may be empty.
    pub message: String,
}

/// A [`Label`] with its text as a sequence of characters.
pub struct LabelView {
    pub style: LabelStyle,
    pub file_id: usize,
    pub range: ByteRange,
    pub message: Seq<char>,
}

impl View for Label {
    type V = LabelView;

    open spec fn view(&self) -> LabelView {
        LabelView {
            style: self.style,
            file_id: self.file_id,
            range: self.range,
            message: self.message@,
        }
    }
}

/// An issue laid out for the rich form of the report.
#[derive(Debug, PartialEq, Eq)]
pub struct Diagnostic {
    /// How grave the issue is.
    pub severity: Severity,
    /// What the issue says.
    pub message: String,
    /// The name of the issue's kind.
    pub code: String,
    /// The spans to show, the issue's own place first.
    pub labels: Vec<Label>,
    /// What is suggested.
    pub notes: Vec<String>,
}

/// A [`Diagnostic`] with its texts as sequences of characters.
pub struct DiagnosticView {
    pub severity: Severity,
    pub message: Seq<char>,
    pub code: Seq<char>,
    pub labels: Seq<LabelView>,
    pub notes: Seq<Seq<char>>,
}

impl View for Diagnostic {
    type V = DiagnosticView;

    open spec fn view(&self) -> DiagnosticView {
        DiagnosticView {
            severity: self.severity,
            message: self.message@,
            code: self.code@,
            labels: self.labels@.map_values(|label: Label| label@),
            notes: self.notes@.map_values(|note: String| note@),
        }
    }
}

/// The colour of a line's label.
#[derive(Debug, Clone, Copy, PartialEq, Eq, Structural)]
pub enum LabelColor {
    /// For errors.
    Red,
    /// For warnings.
    Yellow,
}

/// An issue laid out for the compact form of the report: a coloured label,
/// a colon, and the issue in one line.
#[derive(Debug, PartialEq, Eq)]
pub struct CompactLine {
    /// How grave the issue is.
    pub severity: Severity,
    /// The label: `Error` or `Warning`.
    pub label: String,
    /// The colour of the label.
    pub color: LabelColor,
    /// What follows the label.
    pub text: String,
}

/// A [`CompactLine`] with its texts as sequences of characters.
pub struct CompactLineView {
    pub severity: Severity,
    pub label: Seq<char>,
    pub color: LabelColor,
    pub text: Seq<char>,
}

impl View for CompactLine {
    type V = CompactLineView;

    open spec fn view(&self) -> CompactLineView {
        CompactLineView {
            severity: self.severity,
            label: self.label@,
            color: self.color,
            text: self.text@,
        }
    }
}

/// The lines with their texts as sequences of characters.
pub open spec fn line_views(lines: Seq<CompactLine>) -> Seq<CompactLineView> {
    lines.map_values(|line: CompactLine| line@)
}

/// The diagnostics with their texts as sequences of characters.
pub open spec fn diagnostic_views(diagnostics: Seq<Diagnostic>) -> Seq<DiagnosticView> {
    diagnostics.map_values(|diagnostic: Diagnostic| diagnostic@)
}

/// The report of a run, in one of its two forms.
#[derive(Debug, PartialEq, Eq)]
pub enum Report {
    /// One line for each issue.
    Compact(Vec<CompactLine>),
    /// One diagnostic for each issue.
    Rich(Vec<Diagnostic>),
}

/// A [`Report`] with its texts as sequences of characters.
pub enum ReportView {
    Compact(Seq<CompactLineView>),
    Rich(Seq<DiagnosticView>),
}

impl View for Report {
    type V = ReportView;

    open spec fn view(&self) -> ReportView {
        match self {
            Report::Compact(lines) => ReportView::Compact(line_views(lines@)),
            Report::Rich(diagnostics) => ReportView::Rich(diagnostic_views(diagnostics@)),
        }
    }
}

} // verus!
