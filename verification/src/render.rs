//! The outcome of rendering a document, and reports of what kept it from compiling.
use typst::diag::{Severity, SourceDiagnostic, Tracepoint};
use vstd::prelude::*;
use vstd::utf8::{
    decode_utf8, encode_utf8, encode_utf8_decode_utf8, encode_utf8_valid_utf8, valid_utf8,
};

verus! {

/// `typst::diag::SourceDiagnostic`, an error or a warning.
#[verifier::external_type_specification]
#[verifier::external_body]
pub struct ExSourceDiagnostic(SourceDiagnostic);

/// The severity of a [`CustomSourceDiagnostic`].
#[derive(Debug, Clone, Copy, PartialEq, Eq, Structural)]
pub enum CustomSeverity {
    /// A fatal error.
    Error,
    /// A non-fatal warning.
    Warning,
}

/// A part of a diagnostic's [trace](CustomSourceDiagnostic::trace).
#[derive(Debug)]
#[allow(inconsistent_fields)]
pub enum CustomTracepoint {
    /// A function call.
    Call {
        /// The function's name, where it has one.
        string: Option<String>,
        /// The call's location in source code.
        span: u64,
    },
    /// A show rule application.
    Show {
        /// What the rule was applied to.
        string: String,
        /// The application's location in source code.
        span: u64,
    },
    /// A module import.
    Import {
        /// The import's location in source code.
        span: u64,
    },
}

/// An error or a warning in a source file.
#[derive(Debug)]
pub struct CustomSourceDiagnostic {
    /// Whether the diagnostic is an error or a warning.
    pub severity: CustomSeverity,
    /// The span of the relevant node in the source code.
    pub span: u64,
    /// A diagnostic message describing the problem.
    pub message: String,
    /// The trace of function calls leading to the problem.
    pub trace: Vec<CustomTracepoint>,
    /// Additional hints to the user, indicating how this problem could be avoided
    /// or worked around.
    pub hints: Vec<String>,
}

/// Why a document could not be rendered.
#[derive(Debug)]
pub enum RenderError {
    /// It did not compile.
    VecCustomSourceDiagnostic {
        /// What was wrong, in the order in which it was found.
        custom_source_diagnostics: Vec<CustomSourceDiagnostic>,
    },
}

/// What a tracepoint is about. `T` is a text, or what contracts take it for.
#[allow(inconsistent_fields)]
pub enum TraceKind<T> {
    /// A function call, with the function's name where it has one.
    Call { name: Option<T> },
    /// The application of a show rule to something.
    Show { name: T },
    /// A module import.
    Import,
}

impl View for TraceKind<String> {
    type V = TraceKind<Seq<char>>;

    open spec fn view(&self) -> TraceKind<Seq<char>> {
        match *self {
            TraceKind::Call { name: Some(name) } => TraceKind::Call { name: Some(name@) },
            TraceKind::Call { name: None } => TraceKind::Call { name: None },
            TraceKind::Show { name } => TraceKind::Show { name: name@ },
            TraceKind::Import => TraceKind::Import,
        }
    }
}

/// Whether the `severity` field of a diagnostic is `Severity::Error`.
pub uninterp spec fn is_error(diagnostic: SourceDiagnostic) -> bool;

/// What `Span::number` returns for the `span` field of a diagnostic.
pub uninterp spec fn span_number(diagnostic: SourceDiagnostic) -> u64;

/// The text of the `message` field of a diagnostic.
pub uninterp spec fn message(diagnostic: SourceDiagnostic) -> Seq<char>;

/// The `trace` field of a diagnostic: of each tracepoint, what it is about and
/// the `Span::number` of its span.
pub uninterp spec fn trace(diagnostic: SourceDiagnostic) -> Seq<(TraceKind<Seq<char>>, u64)>;

/// The texts of the `hints` field of a diagnostic.
pub uninterp spec fn hints(diagnostic: SourceDiagnostic) -> Seq<Seq<char>>;

/// Reads the `severity` field of a diagnostic.
#[verifier::external_body]
fn severity_is_error(diagnostic: &SourceDiagnostic) -> (error: bool)
    ensures
        error == is_error(*diagnostic),
{
    match diagnostic.severity {
        Severity::Error => true,
        Severity::Warning => false,
    }
}

/// Calls `Span::number` on the `span` field of a diagnostic.
#[verifier::external_body]
fn span_of(diagnostic: &SourceDiagnostic) -> (span: u64)
    ensures
        span == span_number(*diagnostic),
{
    diagnostic.span.number()
}

/// Copies the `message` field of a diagnostic.
#[verifier::external_body]
fn message_of(diagnostic: &SourceDiagnostic) -> (text: String)
    ensures
        text@ == message(*diagnostic),
{
    diagnostic.message.to_string()
}

/// The length of the `trace` field of a diagnostic.
#[verifier::external_body]
fn trace_len(diagnostic: &SourceDiagnostic) -> (len: usize)
    ensures
        len == trace(*diagnostic).len(),
{
    diagnostic.trace.len()
}

/// Copies a tracepoint in the `trace` field of a diagnostic, and calls
/// `Span::number` on its span.
#[verifier::external_body]
fn tracepoint_at(diagnostic: &SourceDiagnostic, i: usize) -> (point: (TraceKind<String>, u64))
    requires
        i < trace(*diagnostic).len(),
    ensures
        (point.0@, point.1) == trace(*diagnostic)[i as int],
{
    let spanned = &diagnostic.trace[i];
    let kind = match &spanned.v {
        Tracepoint::Call(Some(name)) => TraceKind::Call { name: Some(name.to_string()) },
        Tracepoint::Call(None) => TraceKind::Call { name: None },
        Tracepoint::Show(name) => TraceKind::Show { name: name.to_string() },
        Tracepoint::Import => TraceKind::Import,
    };
    (kind, spanned.span.number())
}

/// The length of the `hints` field of a diagnostic.
#[verifier::external_body]
fn hints_len(diagnostic: &SourceDiagnostic) -> (len: usize)
    ensures
        len == hints(*diagnostic).len(),
{
    diagnostic.hints.len()
}

/// Copies a hint in the `hints` field of a diagnostic.
#[verifier::external_body]
fn hint_at(diagnostic: &SourceDiagnostic, i: usize) -> (hint: String)
    requires
        i < hints(*diagnostic).len(),
    ensures
        hint@ == hints(*diagnostic)[i as int],
{
    diagnostic.hints[i].to_string()
}

impl CustomTracepoint {
    /// Whether this says what a tracepoint says.
    pub open spec fn reports(self, kind: TraceKind<Seq<char>>, number: u64) -> bool {
        match (self, kind) {
            (
                CustomTracepoint::Call { string: Some(string), span },
                TraceKind::Call { name: Some(name) },
            ) => string@ == name && span == number,
            (
                CustomTracepoint::Call { string: None, span },
                TraceKind::Call { name: None },
            ) => span == number,
            (CustomTracepoint::Show { string, span }, TraceKind::Show { name }) => string@ == name
                && span == number,
            (CustomTracepoint::Import { span }, TraceKind::Import) => span == number,
            _ => false,
        }
    }
}

impl CustomSourceDiagnostic {
    /// Whether this says what a diagnostic says.
    pub open spec fn reports(self, diagnostic: SourceDiagnostic) -> bool {
        &&& self.severity == if is_error(diagnostic) {
            CustomSeverity::Error
        } else {
            CustomSeverity::Warning
        }
        &&& self.span == span_number(diagnostic)
        &&& self.message@ == message(diagnostic)
        &&& self.trace.len() == trace(diagnostic).len()
        &&& forall|i: int|
            0 <= i < self.trace.len() ==> (#[trigger] self.trace[i]).reports(
                trace(diagnostic)[i].0,
                trace(diagnostic)[i].1,
            )
        &&& self.hints@.map_values(|hint: String| hint@) == hints(diagnostic)
    }
}

/// The trace of a diagnostic.
fn convert_trace(diagnostic: &SourceDiagnostic) -> (points: Vec<CustomTracepoint>)
    ensures
        points.len() == trace(*diagnostic).len(),
        forall|i: int|
            0 <= i < points.len() ==> (#[trigger] points[i]).reports(
                trace(*diagnostic)[i].0,
                trace(*diagnostic)[i].1,
            ),
{
    let len: usize = trace_len(diagnostic);
    let mut points: Vec<CustomTracepoint> = Vec::new();
    let mut i: usize = 0;
    while i < len
        invariant
            i <= len,
            len == trace(*diagnostic).len(),
            points.len() == i,
            forall|k: int|
                0 <= k < points.len() ==> (#[trigger] points[k]).reports(
                    trace(*diagnostic)[k].0,
                    trace(*diagnostic)[k].1,
                ),
        decreases len - i,
    {
        let (kind, span) = tracepoint_at(diagnostic, i);
        let point = match kind {
            TraceKind::Call { name } => CustomTracepoint::Call { span, string: name },
            TraceKind::Show { name } => CustomTracepoint::Show { string: name, span },
            TraceKind::Import => CustomTracepoint::Import { span },
        };
        points.push(point);
        i += 1;
    }
    points
}

/// The hints of a diagnostic.
fn convert_hints(diagnostic: &SourceDiagnostic) -> (texts: Vec<String>)
    ensures
        texts@.map_values(|hint: String| hint@) == hints(*diagnostic),
{
    let len: usize = hints_len(diagnostic);
    let mut texts: Vec<String> = Vec::new();
    let mut i: usize = 0;
    while i < len
        invariant
            i <= len,
            len == hints(*diagnostic).len(),
            texts.len() == i,
            forall|k: int| 0 <= k < i ==> (#[trigger] texts[k])@ == hints(*diagnostic)[k],
        decreases len - i,
    {
        texts.push(hint_at(diagnostic, i));
        i += 1;
    }
    assert(texts@.map_values(|hint: String| hint@) =~= hints(*diagnostic));
    texts
}

/// Reports a list of diagnostics, in its order.
pub fn convert_diagnostics(diagnostics: &[SourceDiagnostic]) -> (reports: Vec<
    CustomSourceDiagnostic,
>)
    ensures
        reports.len() == diagnostics@.len(),
        forall|i: int|
            0 <= i < reports.len() ==> (#[trigger] reports[i]).reports(diagnostics@[i]),
        forall|i: int|
            0 <= i < reports.len() ==> {
                let report = #[trigger] reports[i];
                &&& report.severity is Error <==> is_error(diagnostics@[i])
                &&& report.span == span_number(diagnostics@[i])
                &&& report.message@ == message(diagnostics@[i])
                &&& report.trace.len() == trace(diagnostics@[i]).len()
                &&& report.hints.len() == hints(diagnostics@[i]).len()
                &&& forall|k: int|
                    0 <= k < report.hints.len() ==> (#[trigger] report.hints[k])@ == hints(
                        diagnostics@[i],
                    )[k]
            },
        forall|i: int, k: int|
            0 <= i < reports.len() && 0 <= k < reports[i].trace.len() ==> {
                let (kind, number) = trace(diagnostics@[i])[k];
                match #[trigger] reports[i].trace[k] {
                    CustomTracepoint::Call { string: Some(string), span } => kind == (
                    TraceKind::Call { name: Some(string@) }) && span == number,
                    CustomTracepoint::Call { string: None, span } => kind == (TraceKind::Call {
                        name: None::<Seq<char>>,
                    }) && span == number,
                    CustomTracepoint::Show { string, span } => kind == (TraceKind::Show {
                        name: string@,
                    }) && span == number,
                    CustomTracepoint::Import { span } => kind is Import && span == number,
                }
            },
{
    let mut reports: Vec<CustomSourceDiagnostic> = Vec::new();
    let mut i: usize = 0;
    while i < diagnostics.len()
        invariant
            i <= diagnostics@.len(),
            reports.len() == i,
            forall|k: int|
                0 <= k < reports.len() ==> (#[trigger] reports[k]).reports(diagnostics@[k]),
        decreases diagnostics@.len() - i,
    {
        let diagnostic = &diagnostics[i];
        let severity = if severity_is_error(diagnostic) {
            CustomSeverity::Error
        } else {
            CustomSeverity::Warning
        };
        reports.push(
            CustomSourceDiagnostic {
                severity,
                span: span_of(diagnostic),
                message: message_of(diagnostic),
                trace: convert_trace(diagnostic),
                hints: convert_hints(diagnostic),
            },
        );
        i += 1;
    }
    reports
}

/// Whether `result` is what comes of rendering a document: the image's text in
/// UTF-8, or a report of each diagnostic that kept the document from compiling.
pub open spec fn is_rendering(
    rendered: Result<String, &[SourceDiagnostic]>,
    result: Result<Vec<u8>, RenderError>,
) -> bool {
    match rendered {
        Ok(svg) => result matches Ok(bytes) && bytes@ == encode_utf8(svg@),
        Err(diagnostics) => result matches Err(
            RenderError::VecCustomSourceDiagnostic { custom_source_diagnostics: reports },
        ) && reports.len() == diagnostics@.len() && forall|i: int|
            0 <= i < reports.len() ==> (#[trigger] reports[i]).reports(diagnostics@[i]),
    }
}

/// The main document as one SVG image, or a report of what kept it from compiling:
/// `rendered` is the image, or what compiling found.
pub fn test_get_main_svg(rendered: Result<String, &[SourceDiagnostic]>) -> (result: Result<
    Vec<u8>,
    RenderError,
>)
    ensures
        is_rendering(rendered, result),
        rendered matches Ok(svg) ==> result matches Ok(bytes) && valid_utf8(bytes@) && decode_utf8(
            bytes@,
        ) == svg@ && bytes@ == encode_utf8(svg@),
        rendered matches Err(diagnostics) ==> result matches Err(
            RenderError::VecCustomSourceDiagnostic { custom_source_diagnostics: reports },
        ) && reports.len() == diagnostics@.len(),
{
    proof {
        if rendered is Ok {
            encode_utf8_valid_utf8(rendered->Ok_0@);
            encode_utf8_decode_utf8(rendered->Ok_0@);
        }
    }
    match rendered {
        Ok(svg) => Ok(svg.as_str().as_bytes_vec()),
        Err(diagnostics) => Err(
            RenderError::VecCustomSourceDiagnostic {
                custom_source_diagnostics: convert_diagnostics(diagnostics),
            },
        ),
    }
}

/// The main document as a PDF file: `exported` is the file, or what compiling found.
/// There is a file only of a document that compiles.
pub fn test_get_main_pdf(exported: Result<Vec<u8>, &[SourceDiagnostic]>) -> (pdf: Vec<u8>)
    requires
        exported is Ok,
    ensures
        exported == Ok::<Vec<u8>, &[SourceDiagnostic]>(pdf),
{
    exported.unwrap()
}

/// Where there is an image, it is handed on whole: the bytes are text, and that text is
/// the image.
pub proof fn law_image_is_whole(svg: String, result: Result<Vec<u8>, RenderError>)
    requires
        is_rendering(Ok(svg), result),
    ensures
        result matches Ok(bytes) && valid_utf8(bytes@) && decode_utf8(bytes@) == svg@
            && encode_utf8(svg@) == bytes@,
{
    encode_utf8_valid_utf8(svg@);
    encode_utf8_decode_utf8(svg@);
}

/// Where there are diagnostics, there is one report for each, in their order, which
/// says how severe it is, where it is and what its message, its trace and its hints
/// are.
pub proof fn law_diagnostics_are_reported(
    diagnostics: &[SourceDiagnostic],
    result: Result<Vec<u8>, RenderError>,
    i: int,
    k: int,
)
    requires
        is_rendering(Err(diagnostics), result),
    ensures
        result matches Err(
            RenderError::VecCustomSourceDiagnostic { custom_source_diagnostics: reports },
        ) && reports.len() == diagnostics@.len() && (0 <= i < reports.len() ==> {
            let report = reports[i];
            let diagnostic = diagnostics@[i];
            &&& is_error(diagnostic) ==> report.severity is Error
            &&& !is_error(diagnostic) ==> report.severity is Warning
            &&& report.span == span_number(diagnostic)
            &&& report.message@ == message(diagnostic)
            &&& report.hints.len() == hints(diagnostic).len()
            &&& 0 <= k < report.hints.len() ==> report.hints[k]@ == hints(diagnostic)[k]
            &&& report.trace.len() == trace(diagnostic).len()
            &&& 0 <= k < report.trace.len() ==> match trace(diagnostic)[k].0 {
                TraceKind::Call { name: Some(name) } => report.trace[k] matches (
                CustomTracepoint::Call { string: Some(string), span }) && string@ == name && span
                    == trace(diagnostic)[k].1,
                TraceKind::Call { name: None } => report.trace[k] matches (
                CustomTracepoint::Call { string: None, span }) && span == trace(diagnostic)[k].1,
                TraceKind::Show { name } => report.trace[k] matches (
                CustomTracepoint::Show { string, span }) && string@ == name && span == trace(
                    diagnostic,
                )[k].1,
                TraceKind::Import => report.trace[k] matches (
                CustomTracepoint::Import { span }) && span == trace(diagnostic)[k].1,
            }
        }),
{
    if let Err(RenderError::VecCustomSourceDiagnostic { custom_source_diagnostics: reports }) =
        result {
        if 0 <= i < reports.len() {
            assert(reports[i].reports(diagnostics@[i]));
            assert(reports[i].hints@.map_values(|hint: String| hint@) == hints(diagnostics@[i]));
            if 0 <= k < reports[i].hints.len() {
                assert(hints(diagnostics@[i])[k] == reports[i].hints@.map_values(
                    |hint: String| hint@,
                )[k]);
            }
            if 0 <= k < reports[i].trace.len() {
                assert(reports[i].trace[k].reports(
                    trace(diagnostics@[i])[k].0,
                    trace(diagnostics@[i])[k].1,
                ));
            }
        }
    }
}

/// Of what was compiled once, there is a PDF file where there is an SVG image, and
/// nowhere else.
pub proof fn law_file_is_made_where_image_is(
    compiled: Result<(), &[SourceDiagnostic]>,
    rendered: Result<String, &[SourceDiagnostic]>,
    exported: Result<Vec<u8>, &[SourceDiagnostic]>,
    result: Result<Vec<u8>, RenderError>,
)
    requires
        rendered is Ok <==> compiled is Ok,
        exported is Ok <==> compiled is Ok,
        is_rendering(rendered, result),
    ensures
        result is Ok <==> exported is Ok,
{
}

} // verus!
