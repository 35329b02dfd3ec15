//! Labels for symbols.

use crate::label::{
    lemma_whole_on_boundaries, Highlighting, HighlightingView, LabelPlan, PlanView,
};
use crate::text::{
    byte_len, concat2, concat3, lemma_piece_on_boundaries, lemma_pieces_meet_on_boundary,
    lemma_utf8_concat, lemma_utf8_len_ascii, lemma_utf8_middle, utf8_len,
};
use std::ops::Range;
use vstd::prelude::*;
use vstd::utf8::*;

verus! {

/// The kinds of symbols.
#[derive(Clone, Copy, Debug, PartialEq, Eq, Structural)]
pub enum SymbolKind {
    File,
    Module,
    Namespace,
    Package,
    Class,
    Method,
    Property,
    Field,
    Constructor,
    Enum,
    Interface,
    Function,
    Variable,
    Constant,
    String,
    Number,
    Boolean,
    Array,
    Object,
    Key,
    Null,
    EnumMember,
    Struct,
    Event,
    Operator,
    TypeParameter,
}

/// The piece of source that a symbol's name is set in to be classified: what stands
/// before the name, what stands after it, and whether the label shows what stands
/// before it.
pub struct SymbolTemplate {
    pub before: Seq<char>,
    pub after: Seq<char>,
    pub shown: bool,
}

/// The template for symbols of `kind`, for the kinds that get a label.
pub open spec fn symbol_template(kind: SymbolKind) -> Option<SymbolTemplate> {
    match kind {
        SymbolKind::Method | SymbolKind::Function => Some(
            SymbolTemplate { before: "void "@, after: " () {}"@, shown: false },
        ),
        SymbolKind::Struct => Some(
            SymbolTemplate { before: "struct "@, after: " {}"@, shown: true },
        ),
        SymbolKind::Enum => Some(SymbolTemplate { before: "enum "@, after: " {}"@, shown: true }),
        SymbolKind::Interface | SymbolKind::Class => Some(
            SymbolTemplate { before: "class "@, after: " {}"@, shown: true },
        ),
        SymbolKind::Constant => Some(
            SymbolTemplate { before: "const int "@, after: " = 0;"@, shown: true },
        ),
        SymbolKind::Module => Some(
            SymbolTemplate { before: "namespace "@, after: " {}"@, shown: true },
        ),
        SymbolKind::TypeParameter => Some(
            SymbolTemplate { before: "typename "@, after: " {};"@, shown: true },
        ),
        _ => None,
    }
}

/// The plan of the label of a symbol `name` set in `template`. The text of the label is
/// the name, with what stands before it where the template shows that; a query is
/// matched against the name; the bytes to classify are those of the label's text.
pub open spec fn template_plan(template: SymbolTemplate, name: Seq<char>) -> PlanView {
    let offset = utf8_len(template.before);
    let source = template.before + name + template.after;
    if template.shown {
        PlanView {
            text: template.before + name,
            filter_start: offset,
            filter_end: offset + utf8_len(name),
            highlighting: HighlightingView::Classify {
                source,
                start: 0,
                end: offset + utf8_len(name),
            },
        }
    } else {
        PlanView {
            text: name,
            filter_start: 0,
            filter_end: utf8_len(name),
            highlighting: HighlightingView::Classify {
                source,
                start: offset,
                end: offset + utf8_len(name),
            },
        }
    }
}

/// The plan of the label of the symbol `name` of `kind`, for the kinds that get a label.
pub open spec fn symbol_plan(name: Seq<char>, kind: SymbolKind) -> Option<PlanView> {
    match symbol_template(kind) {
        Some(template) => Some(template_plan(template, name)),
        None => None,
    }
}

/// In the label of a symbol, a query is matched against the name and nothing else; and
/// the text of the label is what the highlighter is given to classify.
pub proof fn lemma_symbol_filter_is_name(name: Seq<char>, kind: SymbolKind)
    requires
        symbol_template(kind) is Some,
    ensures
        symbol_plan(name, kind) matches Some(plan) && plan.wf() && encode_utf8(
            plan.text,
        ).subrange(plan.filter_start, plan.filter_end) == encode_utf8(name),
{
    lemma_template_plan(symbol_template(kind)->0, name);
}

/// The plan of a symbol set in a template is well formed, and a query is matched
/// against the name.
pub proof fn lemma_template_plan(template: SymbolTemplate, name: Seq<char>)
    ensures
        template_plan(template, name).wf(),
        encode_utf8(template_plan(template, name).text).subrange(
            template_plan(template, name).filter_start,
            template_plan(template, name).filter_end,
        ) == encode_utf8(name),
{
    let before = template.before;
    let after = template.after;
    lemma_utf8_middle(before, name, after);
    lemma_piece_on_boundaries(before, name, after);
    lemma_utf8_concat(before, name);
    lemma_pieces_meet_on_boundary(before + name, after);
    lemma_pieces_meet_on_boundary(before, name);
    lemma_whole_on_boundaries(name);
    lemma_whole_on_boundaries(before + name);
    lemma_whole_on_boundaries(before + name + after);
    let source = encode_utf8(before + name + after);
    let shown = encode_utf8(before + name);
    assert(source.subrange(0, utf8_len(before + name)) =~= shown);
    assert(shown.subrange(utf8_len(before), utf8_len(before + name)) =~= encode_utf8(name));
    assert(encode_utf8(name).subrange(0, utf8_len(name)) =~= encode_utf8(name));
}

/// The number of bytes before the name in the template of each kind.
pub proof fn lemma_template_offsets()
    ensures
        utf8_len("void "@) == 5,
        utf8_len("struct "@) == 7,
        utf8_len("enum "@) == 5,
        utf8_len("class "@) == 6,
        utf8_len("const int "@) == 10,
        utf8_len("namespace "@) == 10,
        utf8_len("typename "@) == 9,
{
    reveal_strlit("void ");
    reveal_strlit("struct ");
    reveal_strlit("enum ");
    reveal_strlit("class ");
    reveal_strlit("const int ");
    reveal_strlit("namespace ");
    reveal_strlit("typename ");
    lemma_utf8_len_ascii("void "@);
    lemma_utf8_len_ascii("struct "@);
    lemma_utf8_len_ascii("enum "@);
    lemma_utf8_len_ascii("class "@);
    lemma_utf8_len_ascii("const int "@);
    lemma_utf8_len_ascii("namespace "@);
    lemma_utf8_len_ascii("typename "@);
}

/// The plan of a label that shows `name` alone, set between `before` and `after`, where
/// `before` takes `offset` bytes.
fn plan_name_only(before: &str, name: &str, after: &str, offset: usize) -> (plan: LabelPlan)
    requires
        offset == utf8_len(before@),
    ensures
        plan@ == template_plan(
            SymbolTemplate { before: before@, after: after@, shown: false },
            name@,
        ),
        plan@.wf(),
{
    let source = concat3(before, name, after);
    let name_len = byte_len(name);
    // The source is in memory, so its length fits, and with it the offsets below.
    let _source_len = byte_len(source.as_str());
    proof {
        lemma_utf8_middle(before@, name@, after@);
        lemma_template_plan(
            SymbolTemplate { before: before@, after: after@, shown: false },
            name@,
        );
    }
    LabelPlan {
        text: name.to_owned(),
        filter_range: Range { start: 0, end: name_len },
        highlighting: Highlighting::Classify {
            source,
            range: Range { start: offset, end: offset + name_len },
        },
    }
}

/// The plan of a label that shows `before` and `name`, set in front of `after`, where
/// `before` takes `offset` bytes.
fn plan_with_keyword(before: &str, name: &str, after: &str, offset: usize) -> (plan: LabelPlan)
    requires
        offset == utf8_len(before@),
    ensures
        plan@ == template_plan(
            SymbolTemplate { before: before@, after: after@, shown: true },
            name@,
        ),
        plan@.wf(),
{
    let source = concat3(before, name, after);
    let text = concat2(before, name);
    let name_len = byte_len(name);
    // The source is in memory, so its length fits, and with it the offsets below.
    let _source_len = byte_len(source.as_str());
    proof {
        lemma_utf8_middle(before@, name@, after@);
        lemma_template_plan(
            SymbolTemplate { before: before@, after: after@, shown: true },
            name@,
        );
    }
    LabelPlan {
        text,
        filter_range: Range { start: offset, end: offset + name_len },
        highlighting: Highlighting::Classify {
            source,
            range: Range { start: 0, end: offset + name_len },
        },
    }
}

/// The plan of the label of the symbol `name` of `kind`: `None` for a kind that gets no
/// label.
pub fn symbol_label_plan(name: &str, kind: SymbolKind) -> (plan: Option<LabelPlan>)
    ensures
        plan is Some <==> symbol_template(kind) is Some,
        plan matches Some(plan) ==> Some(plan@) == symbol_plan(name@, kind) && plan@.wf(),
{
    proof {
        lemma_template_offsets();
    }
    match kind {
        SymbolKind::Method | SymbolKind::Function => Some(
            plan_name_only("void ", name, " () {}", 5),
        ),
        SymbolKind::Struct => Some(plan_with_keyword("struct ", name, " {}", 7)),
        SymbolKind::Enum => Some(plan_with_keyword("enum ", name, " {}", 5)),
        SymbolKind::Interface | SymbolKind::Class => Some(
            plan_with_keyword("class ", name, " {}", 6),
        ),
        SymbolKind::Constant => Some(plan_with_keyword("const int ", name, " = 0;", 10)),
        SymbolKind::Module => Some(plan_with_keyword("namespace ", name, " {}", 10)),
        SymbolKind::TypeParameter => Some(plan_with_keyword("typename ", name, " {};", 9)),
        _ => None,
    }
}

} // verus!
