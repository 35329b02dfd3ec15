use editor_support::clangd::CLspAdapter;
use editor_support::label::{HighlightId, HighlightRun, Highlighter, Highlighting};
use editor_support::symbol::{symbol_label_plan, SymbolKind};
use std::cell::RefCell;
use std::ops::Range;

/// Classifies every requested range as one run of class 7, and keeps what it was asked.
struct WholeRange {
    asked: RefCell<Vec<(String, Range<usize>)>>,
}

impl WholeRange {
    fn new() -> Self {
        WholeRange { asked: RefCell::new(Vec::new()) }
    }
}

impl Highlighter for WholeRange {
    fn highlight_text(&self, text: &str, range: Range<usize>) -> Vec<HighlightRun> {
        self.asked.borrow_mut().push((text.to_string(), range.clone()));
        vec![(0..range.end - range.start, HighlightId(7))]
    }

    fn highlight_id_for_name(&self, _name: &str) -> Option<HighlightId> {
        None
    }
}

fn label_of(name: &str, kind: SymbolKind) -> (String, Range<usize>, Vec<HighlightRun>, String, Range<usize>) {
    let highlighter = WholeRange::new();
    let label = CLspAdapter.label_for_symbol(name, kind, &highlighter).unwrap();
    let asked = highlighter.asked.borrow();
    assert_eq!(asked.len(), 1);
    (label.text, label.filter_range, label.runs, asked[0].0.clone(), asked[0].1.clone())
}

#[test]
fn function_symbol_shows_the_name_alone() {
    let (text, filter, runs, source, range) = label_of("foo", SymbolKind::Function);
    assert_eq!(text, "foo");
    assert_eq!(filter, 0..3);
    assert_eq!(runs, vec![(0..3, HighlightId(7))]);
    assert_eq!(source, "void foo () {}");
    assert_eq!(range, 5..8);
    assert_eq!(&source[range], "foo");
}

#[test]
fn method_symbol_is_set_like_a_function() {
    let (text, filter, _, source, range) = label_of("run", SymbolKind::Method);
    assert_eq!(text, "run");
    assert_eq!(filter, 0..3);
    assert_eq!(source, "void run () {}");
    assert_eq!(range, 5..8);
}

#[test]
fn struct_symbol_shows_its_keyword() {
    let (text, filter, runs, source, range) = label_of("Point", SymbolKind::Struct);
    assert_eq!(text, "struct Point");
    assert_eq!(filter, 7..12);
    assert_eq!(&text[filter], "Point");
    assert_eq!(source, "struct Point {}");
    assert_eq!(range, 0..12);
    assert_eq!(runs, vec![(0..12, HighlightId(7))]);
}

#[test]
fn enum_symbol_shows_its_keyword() {
    let (text, filter, _, source, range) = label_of("Color", SymbolKind::Enum);
    assert_eq!(text, "enum Color");
    assert_eq!(filter, 5..10);
    assert_eq!(source, "enum Color {}");
    assert_eq!(range, 0..10);
}

#[test]
fn class_and_interface_symbols_are_classes() {
    for kind in [SymbolKind::Class, SymbolKind::Interface] {
        let (text, filter, _, source, range) = label_of("Shape", kind);
        assert_eq!(text, "class Shape");
        assert_eq!(filter, 6..11);
        assert_eq!(source, "class Shape {}");
        assert_eq!(range, 0..11);
    }
}

#[test]
fn constant_symbol_is_a_const_int() {
    let (text, filter, _, source, range) = label_of("MAX", SymbolKind::Constant);
    assert_eq!(text, "const int MAX");
    assert_eq!(filter, 10..13);
    assert_eq!(source, "const int MAX = 0;");
    assert_eq!(range, 0..13);
}

#[test]
fn module_symbol_is_a_namespace() {
    let (text, filter, _, source, range) = label_of("io", SymbolKind::Module);
    assert_eq!(text, "namespace io");
    assert_eq!(filter, 10..12);
    assert_eq!(source, "namespace io {}");
    assert_eq!(range, 0..12);
}

#[test]
fn type_parameter_symbol_is_a_typename() {
    let (text, filter, _, source, range) = label_of("T", SymbolKind::TypeParameter);
    assert_eq!(text, "typename T");
    assert_eq!(filter, 9..10);
    assert_eq!(source, "typename T {};");
    assert_eq!(range, 0..10);
}

#[test]
fn other_symbol_kinds_get_no_label() {
    let highlighter = WholeRange::new();
    for kind in [
        SymbolKind::File,
        SymbolKind::Namespace,
        SymbolKind::Package,
        SymbolKind::Property,
        SymbolKind::Field,
        SymbolKind::Constructor,
        SymbolKind::Variable,
        SymbolKind::String,
        SymbolKind::Number,
        SymbolKind::Boolean,
        SymbolKind::Array,
        SymbolKind::Object,
        SymbolKind::Key,
        SymbolKind::Null,
        SymbolKind::EnumMember,
        SymbolKind::Event,
        SymbolKind::Operator,
    ] {
        assert!(CLspAdapter.label_for_symbol("x", kind, &highlighter).is_none());
        assert!(symbol_label_plan("x", kind).is_none());
    }
    assert!(highlighter.asked.borrow().is_empty());
}

#[test]
fn symbol_offsets_count_bytes() {
    let (text, filter, _, source, range) = label_of("gr\u{f6}\u{df}e", SymbolKind::Function);
    assert_eq!(text, "gr\u{f6}\u{df}e");
    assert_eq!(filter, 0..7);
    assert_eq!(range, 5..12);
    assert_eq!(&source[range], "gr\u{f6}\u{df}e");
    let (text, filter, _, _, range) = label_of("gr\u{f6}\u{df}e", SymbolKind::Struct);
    assert_eq!(filter, 7..14);
    assert_eq!(&text[filter], "gr\u{f6}\u{df}e");
    assert_eq!(range, 0..14);
}

#[test]
fn empty_symbol_name_gives_empty_ranges() {
    let (text, filter, _, source, range) = label_of("", SymbolKind::Function);
    assert_eq!(text, "");
    assert_eq!(filter, 0..0);
    assert_eq!(source, "void  () {}");
    assert_eq!(range, 5..5);
}

#[test]
fn symbol_plan_asks_for_the_text_it_shows() {
    let plan = symbol_label_plan("Point", SymbolKind::Struct).unwrap();
    match &plan.highlighting {
        Highlighting::Classify { source, range } => {
            assert_eq!(&source[range.clone()], plan.text);
        }
        other => panic!("unexpected plan: {:?}", other),
    }
    let label = plan.finish(vec![(0..6, HighlightId(1)), (7..12, HighlightId(2))], None);
    assert_eq!(label.runs, vec![(0..6, HighlightId(1)), (7..12, HighlightId(2))]);
    assert_eq!(label.text, "struct Point");
    assert_eq!(label.filter_range, 7..12);
}
