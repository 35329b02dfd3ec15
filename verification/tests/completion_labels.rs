use editor_support::clangd::CLspAdapter;
use editor_support::completion::{
    base_label, completion_label_plan, completion_shape, highlight_name, CompletionItem,
    CompletionItemKind, CompletionItemLabelDetails, CompletionShape,
};
use editor_support::label::{CodeLabel, HighlightId, HighlightRun, Highlighter, Highlighting};
use std::cell::RefCell;
use std::ops::Range;

/// Classifies every requested range as one run of class 3, resolves the names it was
/// given, and keeps what it was asked.
struct Stub {
    names: Vec<(&'static str, u32)>,
    classified: RefCell<Vec<(String, Range<usize>)>>,
    resolved: RefCell<Vec<String>>,
}

impl Stub {
    fn new(names: Vec<(&'static str, u32)>) -> Self {
        Stub { names, classified: RefCell::new(Vec::new()), resolved: RefCell::new(Vec::new()) }
    }
}

impl Highlighter for Stub {
    fn highlight_text(&self, text: &str, range: Range<usize>) -> Vec<HighlightRun> {
        self.classified.borrow_mut().push((text.to_string(), range.clone()));
        vec![(0..range.end - range.start, HighlightId(3))]
    }

    fn highlight_id_for_name(&self, name: &str) -> Option<HighlightId> {
        self.resolved.borrow_mut().push(name.to_string());
        self.names.iter().find(|(known, _)| *known == name).map(|(_, id)| HighlightId(*id))
    }
}

fn item(label: &str, kind: Option<CompletionItemKind>, detail: Option<&str>) -> CompletionItem {
    CompletionItem {
        label: label.to_string(),
        kind,
        detail: detail.map(|d| d.to_string()),
        filter_text: None,
        label_details: None,
    }
}

fn label_of(item: &CompletionItem, stub: &Stub) -> CodeLabel {
    CLspAdapter.label_for_completion(item, stub).unwrap()
}

#[test]
fn field_with_detail_is_classified_inside_a_struct() {
    let stub = Stub::new(vec![]);
    let label = label_of(&item("x", Some(CompletionItemKind::Field), Some("int")), &stub);
    assert_eq!(label.text, "int x");
    assert_eq!(label.runs, vec![(0..5, HighlightId(3))]);
    assert_eq!(label.filter_range, 4..5);
    let classified = stub.classified.borrow();
    assert_eq!(classified.len(), 1);
    assert_eq!(classified[0].0, "struct S { int x }");
    assert_eq!(classified[0].1, 11..16);
    assert_eq!(&classified[0].0[classified[0].1.clone()], "int x");
    assert!(stub.resolved.borrow().is_empty());
}

#[test]
fn function_with_detail_is_matched_by_its_name() {
    let stub = Stub::new(vec![]);
    let label = label_of(&item("bar(int)", Some(CompletionItemKind::Function), Some("void")), &stub);
    assert_eq!(label.text, "void bar(int)");
    assert_eq!(label.filter_range, 5..8);
    assert_eq!(&label.text[label.filter_range.clone()], "bar");
    assert_eq!(label.runs, vec![(0..13, HighlightId(3))]);
    let classified = stub.classified.borrow();
    assert_eq!(classified[0].0, "void bar(int)");
    assert_eq!(classified[0].1, 0..13);
}

#[test]
fn method_with_detail_is_matched_by_its_name() {
    let stub = Stub::new(vec![]);
    let label = label_of(&item("size() const", Some(CompletionItemKind::Method), Some("size_t")), &stub);
    assert_eq!(label.text, "size_t size() const");
    assert_eq!(label.filter_range, 7..11);
}

#[test]
fn callable_without_parenthesis_is_matched_to_its_end() {
    let stub = Stub::new(vec![]);
    let label = label_of(&item("bar", Some(CompletionItemKind::Function), Some("void")), &stub);
    assert_eq!(label.text, "void bar");
    assert_eq!(label.filter_range, 5..8);
}

#[test]
fn parenthesis_inside_the_detail_does_not_end_the_name() {
    let stub = Stub::new(vec![]);
    let label = label_of(&item("cb", Some(CompletionItemKind::Function), Some("void (*)(int)")), &stub);
    assert_eq!(label.text, "void (*)(int) cb");
    assert_eq!(label.filter_range, 14..16);
}

#[test]
fn parenthesis_right_after_the_detail_does_not_end_the_name() {
    let stub = Stub::new(vec![]);
    let label = label_of(&item("(x)", Some(CompletionItemKind::Function), Some("int")), &stub);
    assert_eq!(label.text, "int (x)");
    assert_eq!(label.filter_range, 4..7);
}

#[test]
fn the_last_parenthesis_ends_the_name() {
    let stub = Stub::new(vec![]);
    let label = label_of(&item("f(int)(long)", Some(CompletionItemKind::Function), Some("auto")), &stub);
    assert_eq!(label.text, "auto f(int)(long)");
    assert_eq!(label.filter_range, 5..11);
}

#[test]
fn constant_and_variable_with_detail_are_classified_as_they_stand() {
    for kind in [CompletionItemKind::Constant, CompletionItemKind::Variable] {
        let stub = Stub::new(vec![("constant", 9)]);
        let label = label_of(&item("count(", Some(kind), Some("const int")), &stub);
        assert_eq!(label.text, "const int count(");
        assert_eq!(label.filter_range, 10..16);
        assert_eq!(label.runs, vec![(0..16, HighlightId(3))]);
        assert_eq!(stub.classified.borrow()[0], ("const int count(".to_string(), 0..16));
        assert!(stub.resolved.borrow().is_empty());
    }
}

#[test]
fn filter_text_is_found_in_the_label() {
    let stub = Stub::new(vec![]);
    let mut field = item("x_coordinate", Some(CompletionItemKind::Field), Some("int"));
    field.filter_text = Some("coord".to_string());
    let label = label_of(&field, &stub);
    assert_eq!(label.text, "int x_coordinate");
    assert_eq!(label.filter_range, 6..11);

    let mut function = item("bar(int)", Some(CompletionItemKind::Function), Some("void"));
    function.filter_text = Some("bar".to_string());
    assert_eq!(label_of(&function, &stub).filter_range, 5..8);

    let mut first = item("aXbXc", None, None);
    first.filter_text = Some("X".to_string());
    assert_eq!(label_of(&first, &stub).filter_range, 1..2);
}

#[test]
fn filter_text_may_match_the_detail() {
    let stub = Stub::new(vec![]);
    let mut field = item("x", Some(CompletionItemKind::Field), Some("int"));
    field.filter_text = Some("in".to_string());
    assert_eq!(label_of(&field, &stub).filter_range, 0..2);
}

#[test]
fn filter_text_that_is_not_in_the_label_is_passed_over() {
    let stub = Stub::new(vec![]);
    let mut field = item("x", Some(CompletionItemKind::Field), Some("int"));
    field.filter_text = Some("y".to_string());
    assert_eq!(label_of(&field, &stub).filter_range, 4..5);

    let mut function = item("bar(int)", Some(CompletionItemKind::Function), Some("void"));
    function.filter_text = Some("baz".to_string());
    assert_eq!(label_of(&function, &stub).filter_range, 5..8);

    let mut plain = item("hello", None, None);
    plain.filter_text = Some("world".to_string());
    assert_eq!(label_of(&plain, &stub).filter_range, 0..5);
}

#[test]
fn empty_filter_text_matches_at_the_start() {
    let stub = Stub::new(vec![]);
    let mut field = item("x", Some(CompletionItemKind::Field), Some("int"));
    field.filter_text = Some(String::new());
    assert_eq!(label_of(&field, &stub).filter_range, 0..0);
}

#[test]
fn bullet_and_white_space_are_taken_off_the_label() {
    let stub = Stub::new(vec![]);
    let label = label_of(&item("\u{2022}  printf \t", Some(CompletionItemKind::Function), Some("int")), &stub);
    assert_eq!(label.text, "int printf");
    assert_eq!(label.filter_range, 4..10);

    let spaced = item(" \u{2022}x", None, None);
    assert_eq!(base_label(&spaced), "\u{2022}x");
    let twice = item("\u{2022}\u{2022}x", None, None);
    assert_eq!(base_label(&twice), "\u{2022}x");
    let wide = item("\u{a0}\u{3000}x\u{2003}\n", None, None);
    assert_eq!(base_label(&wide), "x");
    let blank = item(" \t ", None, None);
    assert_eq!(base_label(&blank), "");
    let inner = item(" a b ", None, None);
    assert_eq!(base_label(&inner), "a b");
}

#[test]
fn detail_of_the_label_follows_the_label() {
    let stub = Stub::new(vec![]);
    let mut function = item(" foo", Some(CompletionItemKind::Function), Some("void"));
    function.label_details = Some(CompletionItemLabelDetails {
        detail: Some(" (int a) ".to_string()),
        description: Some("ignored".to_string()),
    });
    assert_eq!(base_label(&function), "foo (int a) ");
    let label = label_of(&function, &stub);
    assert_eq!(label.text, "void foo (int a) ");
    assert_eq!(label.filter_range, 5..9);

    let mut close = item("foo", Some(CompletionItemKind::Function), Some("void"));
    close.label_details = Some(CompletionItemLabelDetails {
        detail: Some("(int a)".to_string()),
        description: None,
    });
    assert_eq!(base_label(&close), "foo(int a)");
    let label = label_of(&close, &stub);
    assert_eq!(label.text, "void foo(int a)");
    assert_eq!(label.filter_range, 5..8);

    let mut bare = item("foo", None, None);
    bare.label_details = Some(CompletionItemLabelDetails { detail: None, description: None });
    assert_eq!(base_label(&bare), "foo");
}

#[test]
fn kinds_with_a_class_get_one_run_of_it() {
    let cases = [
        (CompletionItemKind::Struct, "type", 1),
        (CompletionItemKind::Interface, "type", 1),
        (CompletionItemKind::Class, "type", 1),
        (CompletionItemKind::Enum, "type", 1),
        (CompletionItemKind::EnumMember, "variant", 2),
        (CompletionItemKind::Keyword, "keyword", 3),
        (CompletionItemKind::Value, "constant", 4),
        (CompletionItemKind::Constant, "constant", 4),
    ];
    for (kind, name, id) in cases {
        let stub = Stub::new(vec![("type", 1), ("variant", 2), ("keyword", 3), ("constant", 4)]);
        let label = label_of(&item("Widget", Some(kind), None), &stub);
        assert_eq!(label.text, "Widget");
        assert_eq!(label.filter_range, 0..6);
        assert_eq!(label.runs, vec![(0..6, HighlightId(id))]);
        assert_eq!(*stub.resolved.borrow(), vec![name.to_string()]);
        assert!(stub.classified.borrow().is_empty());
        assert_eq!(highlight_name(kind), Some(name));
    }
}

#[test]
fn the_run_of_a_class_ends_at_the_last_parenthesis() {
    let stub = Stub::new(vec![("type", 1)]);
    let label = label_of(&item("Widget(int)(x)", Some(CompletionItemKind::Class), None), &stub);
    assert_eq!(label.runs, vec![(0..11, HighlightId(1))]);
    assert_eq!(label.filter_range, 0..14);
}

#[test]
fn a_class_that_does_not_resolve_leaves_a_plain_label() {
    let stub = Stub::new(vec![("keyword", 3)]);
    let label = label_of(&item("Widget", Some(CompletionItemKind::Struct), None), &stub);
    assert_eq!(label.text, "Widget");
    assert_eq!(label.runs, vec![]);
    assert_eq!(label.filter_range, 0..6);
}

#[test]
fn struct_with_detail_still_gets_its_class() {
    let stub = Stub::new(vec![("type", 1)]);
    let label = label_of(&item("Widget", Some(CompletionItemKind::Struct), Some("struct")), &stub);
    assert_eq!(label.text, "Widget");
    assert_eq!(label.runs, vec![(0..6, HighlightId(1))]);
}

#[test]
fn other_items_get_a_plain_label() {
    let stub = Stub::new(vec![("type", 1)]);
    for kind in [
        None,
        Some(CompletionItemKind::Text),
        Some(CompletionItemKind::Snippet),
        Some(CompletionItemKind::Module),
        Some(CompletionItemKind::Field),
        Some(CompletionItemKind::Function),
        Some(CompletionItemKind::Method),
        Some(CompletionItemKind::Variable),
    ] {
        let label = label_of(&item("thing(x)", kind, None), &stub);
        assert_eq!(label.text, "thing(x)");
        assert_eq!(label.runs, vec![]);
        assert_eq!(label.filter_range, 0..8);
    }
    let detailed = label_of(&item("thing", None, Some("int")), &stub);
    assert_eq!(detailed.text, "thing");
    assert!(stub.classified.borrow().is_empty());
    assert!(stub.resolved.borrow().is_empty());
}

#[test]
fn completion_offsets_count_bytes() {
    let stub = Stub::new(vec![]);
    let label = label_of(&item("l\u{e4}nge(int)", Some(CompletionItemKind::Function), Some("gr\u{f6}\u{df}e")), &stub);
    assert_eq!(label.text, "gr\u{f6}\u{df}e l\u{e4}nge(int)");
    assert_eq!(label.filter_range, 8..14);
    assert_eq!(&label.text[label.filter_range.clone()], "l\u{e4}nge");
    assert_eq!(label.runs, vec![(0..19, HighlightId(3))]);
}

#[test]
fn shapes_follow_kind_and_detail() {
    assert_eq!(completion_shape(&item("x", Some(CompletionItemKind::Field), Some("int"))), CompletionShape::Member);
    assert_eq!(completion_shape(&item("x", Some(CompletionItemKind::Field), None)), CompletionShape::Plain);
    assert_eq!(completion_shape(&item("x", Some(CompletionItemKind::Variable), Some("int"))), CompletionShape::Value);
    assert_eq!(completion_shape(&item("x", Some(CompletionItemKind::Constant), Some("int"))), CompletionShape::Value);
    assert_eq!(completion_shape(&item("x", Some(CompletionItemKind::Constant), None)), CompletionShape::Classified);
    assert_eq!(completion_shape(&item("x", Some(CompletionItemKind::Method), Some("int"))), CompletionShape::Callable);
    assert_eq!(completion_shape(&item("x", Some(CompletionItemKind::Function), None)), CompletionShape::Plain);
    assert_eq!(completion_shape(&item("x", Some(CompletionItemKind::Enum), Some("int"))), CompletionShape::Classified);
    assert_eq!(completion_shape(&item("x", None, Some("int"))), CompletionShape::Plain);
    assert_eq!(highlight_name(CompletionItemKind::Function), None);
}

#[test]
fn plan_and_answer_give_the_label() {
    let plan = completion_label_plan(&item("Widget(int)", Some(CompletionItemKind::Class), None));
    assert_eq!(plan.highlighting, Highlighting::Resolve { name: "type".to_string(), end: 6 });
    let label = plan.finish(vec![(0..1, HighlightId(5))], Some(HighlightId(8)));
    assert_eq!(label.runs, vec![(0..6, HighlightId(8))]);

    let plan = completion_label_plan(&item("x", Some(CompletionItemKind::Field), Some("int")));
    let label = plan.finish(vec![(0..3, HighlightId(5))], Some(HighlightId(8)));
    assert_eq!(label.runs, vec![(0..3, HighlightId(5))]);

    let plan = completion_label_plan(&item("x", None, None));
    assert_eq!(plan.highlighting, Highlighting::Plain);
    let label = plan.finish(vec![(0..1, HighlightId(5))], Some(HighlightId(8)));
    assert_eq!(label.runs, vec![]);
}

#[test]
fn plain_label_has_no_runs() {
    let label = CodeLabel::plain("hello world".to_string(), None);
    assert_eq!(label.text, "hello world");
    assert_eq!(label.runs, vec![]);
    assert_eq!(label.filter_range, 0..11);
    let label = CodeLabel::plain("hello world".to_string(), Some("world"));
    assert_eq!(label.filter_range, 6..11);
    let label = CodeLabel::plain("hello world".to_string(), Some("moon"));
    assert_eq!(label.filter_range, 0..11);
    let label = CodeLabel::plain("h\u{e9}llo".to_string(), Some("llo"));
    assert_eq!(label.filter_range, 3..6);
}

#[test]
fn ranges_are_made_of_whole_characters() {
    let kinds = [
        None,
        Some(CompletionItemKind::Field),
        Some(CompletionItemKind::Variable),
        Some(CompletionItemKind::Function),
        Some(CompletionItemKind::Class),
    ];
    let labels = ["x", "\u{2022} l\u{e4}nge(\u{df})", "\u{4e16}\u{754c}(", "(\u{1f600})"];
    let details = [None, Some("gr\u{f6}\u{df}e"), Some("\u{1f600}")];
    let filters = [None, Some(""), Some("\u{df}"), Some("\u{754c}("), Some("e"), Some("zzz")];
    for kind in kinds {
        for label in labels {
            for detail in details {
                for filter in filters {
                    let mut completion = item(label, kind, detail);
                    completion.filter_text = filter.map(|f| f.to_string());
                    let stub = Stub::new(vec![("type", 1)]);
                    let made = label_of(&completion, &stub);
                    let range = made.filter_range.clone();
                    assert!(range.start <= range.end && range.end <= made.text.len());
                    assert!(made.text.is_char_boundary(range.start));
                    assert!(made.text.is_char_boundary(range.end));
                    if let Some(filter) = filter {
                        if let Some(at) = made.text.find(filter) {
                            assert_eq!(range, at..at + filter.len());
                            assert_eq!(&made.text[range.clone()], filter);
                        }
                    }
                    for (source, asked) in stub.classified.borrow().iter() {
                        assert!(source.is_char_boundary(asked.start));
                        assert!(source.is_char_boundary(asked.end));
                        assert_eq!(&source[asked.clone()], made.text);
                    }
                    for (run, _) in &made.runs {
                        assert!(made.text.is_char_boundary(run.start));
                        assert!(made.text.is_char_boundary(run.end));
                    }
                }
            }
        }
    }
}
