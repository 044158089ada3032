use beautyxt_rs::fonts::FONT_COUNT;
use beautyxt_rs::render::{
    convert_diagnostics, test_get_main_pdf, test_get_main_svg, CustomSeverity, CustomTracepoint,
    RenderError,
};
use beautyxt_rs::world::SomeWorld;
use comemo::Prehashed;
use typst::diag::{FileError, FileResult, SourceDiagnostic, Tracepoint};
use typst::eval::Tracer;
use typst::foundations::{Bytes, Datetime, Smart};
use typst::layout::Abs;
use typst::syntax::{FileId, Source, Span, Spanned};
use typst::text::{Font, FontBook};
use typst::{Library, World};

/// A world with one source.
struct OneSource {
    world: SomeWorld,
    source: Source,
}

impl World for OneSource {
    fn library(&self) -> &Prehashed<Library> {
        self.world.library()
    }

    fn book(&self) -> &Prehashed<FontBook> {
        self.world.book()
    }

    fn main(&self) -> Source {
        self.source.clone()
    }

    fn source(&self, _: FileId) -> FileResult<Source> {
        Ok(self.source.clone())
    }

    fn file(&self, _: FileId) -> FileResult<Bytes> {
        Err(FileError::AccessDenied)
    }

    fn font(&self, index: usize) -> Option<Font> {
        self.world.font(index)
    }

    fn today(&self, _: Option<i64>) -> Option<Datetime> {
        None
    }
}

fn one_source(text: &str) -> OneSource {
    let fonts = typst_assets::fonts().take(FONT_COUNT).map(|font| font.to_vec()).collect();
    OneSource { world: SomeWorld::new(fonts).unwrap(), source: Source::detached(text) }
}

#[test]
fn a_document_becomes_an_image_and_a_file() {
    let world = one_source("= Title\nSome text.");
    let document = typst::compile(&world, &mut Tracer::new()).unwrap();
    let svg = typst_svg::svg_merged(&document, Abs::default());
    assert_eq!(test_get_main_svg(Ok(svg.clone())).unwrap(), svg.as_bytes());
    let pdf = typst_pdf::pdf(&document, Smart::Auto, None);
    assert_eq!(test_get_main_pdf(Ok(pdf.clone())), pdf);
}

#[test]
fn a_document_that_does_not_compile_is_reported() {
    let world = one_source("#let f(x) = x + y\n#f(1)");
    let errors = typst::compile(&world, &mut Tracer::new()).unwrap_err();
    let RenderError::VecCustomSourceDiagnostic { custom_source_diagnostics: reports } =
        test_get_main_svg(Err(errors.as_slice())).unwrap_err();
    assert_eq!(reports.len(), errors.len());
    assert_eq!(reports[0].severity, CustomSeverity::Error);
    assert_eq!(reports[0].message, "unknown variable: y");
    assert_eq!(reports[0].span, errors[0].span.number());
    assert_eq!(reports[0].trace.len(), errors[0].trace.len());
}

#[test]
fn diagnostics_are_reported_field_by_field() {
    let world = one_source("abc");
    let root = world.source.root().span();
    let leaf = world.source.root().children().next().unwrap().span();
    let mut warning = SourceDiagnostic::warning(leaf, "look out").with_hint("one").with_hint("two");
    warning.trace.push(Spanned::new(Tracepoint::Call(Some("f".into())), root));
    warning.trace.push(Spanned::new(Tracepoint::Call(None), leaf));
    warning.trace.push(Spanned::new(Tracepoint::Show("heading".into()), root));
    warning.trace.push(Spanned::new(Tracepoint::Import, Span::detached()));
    let error = SourceDiagnostic::error(root, "stop");
    let reports = convert_diagnostics(&[warning, error]);
    assert_eq!(reports.len(), 2);
    assert_eq!(reports[0].severity, CustomSeverity::Warning);
    assert_eq!(reports[0].span, leaf.number());
    assert_eq!(reports[0].message, "look out");
    assert_eq!(reports[0].hints, vec!["one".to_owned(), "two".to_owned()]);
    assert_eq!(reports[0].trace.len(), 4);
    assert!(matches!(
        &reports[0].trace[0],
        CustomTracepoint::Call { string: Some(name), span } if name == "f" && *span == root.number()
    ));
    assert!(matches!(
        &reports[0].trace[1],
        CustomTracepoint::Call { string: None, span } if *span == leaf.number()
    ));
    assert!(matches!(
        &reports[0].trace[2],
        CustomTracepoint::Show { string, span } if string == "heading" && *span == root.number()
    ));
    assert!(matches!(&reports[0].trace[3], CustomTracepoint::Import { span: 1 }));
    assert_eq!(reports[1].severity, CustomSeverity::Error);
    assert_eq!(reports[1].span, root.number());
    assert_eq!(reports[1].message, "stop");
    assert!(reports[1].trace.is_empty());
    assert!(reports[1].hints.is_empty());
}

#[test]
fn an_image_is_handed_on_in_utf8() {
    let svg = "<svg>ä</svg>";
    assert_eq!(test_get_main_svg(Ok(svg.to_owned())).unwrap(), svg.as_bytes());
    let RenderError::VecCustomSourceDiagnostic { custom_source_diagnostics: reports } =
        test_get_main_svg(Err(&[])).unwrap_err();
    assert!(reports.is_empty());
}

#[test]
fn a_file_is_made_of_what_has_an_image() {
    for (text, compiles) in [("Some text.", true), ("#x", false)] {
        let compiled = typst::compile(&one_source(text), &mut Tracer::new());
        assert_eq!(compiled.is_ok(), compiles);
        let rendered = compiled
            .as_ref()
            .map(|document| typst_svg::svg_merged(document, Abs::default()))
            .map_err(|errors| errors.as_slice());
        assert_eq!(test_get_main_svg(rendered).is_ok(), compiles);
    }
}
