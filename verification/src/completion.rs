//! Labels for completion items.

use crate::label::{
    filter_range_in, filter_range_or, opt_view, HighlightingView, Highlighting, LabelPlan,
    PlanView,
};
use crate::label::lemma_whole_on_boundaries;
use crate::text::{
    byte_len, concat3, first_occurrence, is_first_occurrence, lemma_ascii_byte_on_boundary,
    lemma_first_occurrence_found, lemma_first_occurrence_on_boundaries,
    lemma_piece_on_boundaries, lemma_utf8_len_ascii, lemma_utf8_middle, on_char_boundaries,
    rfind_byte, strip_leading, trim, trimmed, utf8_len, without_leading,
};
use std::ops::Range;
use vstd::prelude::*;
use vstd::utf8::*;

verus! {

/// The kinds of completion items.
#[derive(Clone, Copy, Debug, PartialEq, Eq, Structural)]
pub enum CompletionItemKind {
    Text,
    Method,
    Function,
    Constructor,
    Field,
    Variable,
    Class,
    Interface,
    Module,
    Property,
    Unit,
    Value,
    Enum,
    Keyword,
    Snippet,
    Color,
    File,
    Reference,
    Folder,
    EnumMember,
    Constant,
    Struct,
    Event,
    Operator,
    TypeParameter,
}

/// More to show after the label of a completion item.
#[derive(Clone, Debug, Default, PartialEq, Eq)]
pub struct CompletionItemLabelDetails {
    pub detail: Option<String>,
    pub description: Option<String>,
}

/// A completion item, as far as its label depends on it.
#[derive(Clone, Debug, Default, PartialEq, Eq)]
pub struct CompletionItem {
    pub label: String,
    pub kind: Option<CompletionItemKind>,
    pub detail: Option<String>,
    pub filter_text: Option<String>,
    pub label_details: Option<CompletionItemLabelDetails>,
}

/// The bullet that a server may put in front of a label.
pub const BULLET: char = '\u{2022}';

/// The byte `(`.
pub const OPEN_PAREN: u8 = 0x28;

/// The ways in which a completion item gets its label.
#[derive(Clone, Copy, Debug, PartialEq, Eq, Structural)]
pub enum CompletionShape {
    /// A field with a detail: classified as a member of a struct.
    Member,
    /// A constant or variable with a detail: classified as it stands.
    Value,
    /// A function or method with a detail: classified as it stands, and matched by its
    /// name.
    Callable,
    /// A kind that has a class of its own: one run of that class.
    Classified,
    /// Anything else: no highlighting.
    Plain,
}

/// The name of the class that items of `kind` are highlighted in, for the kinds that
/// have one.
pub open spec fn highlight_name_of(kind: CompletionItemKind) -> Option<Seq<char>> {
    match kind {
        CompletionItemKind::Struct
        | CompletionItemKind::Interface
        | CompletionItemKind::Class
        | CompletionItemKind::Enum => Some("type"@),
        CompletionItemKind::EnumMember => Some("variant"@),
        CompletionItemKind::Keyword => Some("keyword"@),
        CompletionItemKind::Value | CompletionItemKind::Constant => Some("constant"@),
        _ => None,
    }
}

/// Where the last `(` of `text` stands, in bytes; the length of `text` if it has none.
pub open spec fn last_paren_or_end(text: Seq<char>) -> int {
    match encode_utf8(text).index_of_last(OPEN_PAREN) {
        Some(at) => at,
        None => utf8_len(text),
    }
}

/// Where the name of a callable ends, in bytes of `text`, when it starts at `start`: at
/// the last `(` of `text` if that stands after `start`, else at the end of `text`.
pub open spec fn callable_end(text: Seq<char>, start: int) -> int {
    match encode_utf8(text).index_of_last(OPEN_PAREN) {
        Some(at) => if at > start {
            at
        } else {
            utf8_len(text)
        },
        None => utf8_len(text),
    }
}

impl CompletionItem {
    /// The detail that follows the label, as it stands; empty if there is none.
    pub open spec fn label_suffix(&self) -> Seq<char> {
        match self.label_details {
            Some(details) => match details.detail {
                Some(detail) => detail@,
                None => Seq::empty(),
            },
            None => Seq::empty(),
        }
    }

    /// The label without a bullet in front and without white space around it, followed
    /// by the detail of the label as it stands.
    pub open spec fn base_label(&self) -> Seq<char> {
        trimmed(without_leading(self.label@, BULLET)) + self.label_suffix()
    }

    /// The detail of the item, a space, and the base label.
    pub open spec fn detailed_text(&self) -> Seq<char>
        recommends
            self.detail is Some,
    {
        self.detail->0@ + " "@ + self.base_label()
    }

    /// The text that the item asks to be matched by, if any.
    pub open spec fn filter(&self) -> Option<Seq<char>> {
        match self.filter_text {
            Some(filter) => Some(filter@),
            None => None,
        }
    }

    /// The way in which the item gets its label.
    pub open spec fn shape(&self) -> CompletionShape {
        match self.kind {
            Some(kind) => if self.detail is Some && kind == CompletionItemKind::Field {
                CompletionShape::Member
            } else if self.detail is Some && (kind == CompletionItemKind::Constant || kind
                == CompletionItemKind::Variable) {
                CompletionShape::Value
            } else if self.detail is Some && (kind == CompletionItemKind::Function || kind
                == CompletionItemKind::Method) {
                CompletionShape::Callable
            } else if highlight_name_of(kind) is Some {
                CompletionShape::Classified
            } else {
                CompletionShape::Plain
            },
            None => CompletionShape::Plain,
        }
    }

    /// The text of the label.
    pub open spec fn label_text(&self) -> Seq<char> {
        match self.shape() {
            CompletionShape::Member | CompletionShape::Value | CompletionShape::Callable =>
                self.detailed_text(),
            CompletionShape::Classified | CompletionShape::Plain => self.base_label(),
        }
    }

    /// The bytes of the label's text to match a query against, where the item's filter
    /// text does not stand in it: what follows the detail and its space; of a callable,
    /// only up to its last `(`.
    pub open spec fn default_filter_range(&self) -> (int, int) {
        let text = self.label_text();
        match self.shape() {
            CompletionShape::Member | CompletionShape::Value => (
                utf8_len(self.detail->0@) + 1,
                utf8_len(text),
            ),
            CompletionShape::Callable => (
                utf8_len(self.detail->0@) + 1,
                callable_end(text, utf8_len(self.detail->0@) + 1),
            ),
            CompletionShape::Classified | CompletionShape::Plain => (0, utf8_len(text)),
        }
    }

    /// What the highlighter is asked for the label.
    pub open spec fn highlighting(&self) -> HighlightingView {
        let text = self.label_text();
        match self.shape() {
            CompletionShape::Member => HighlightingView::Classify {
                source: "struct S { "@ + text + " }"@,
                start: 11,
                end: 11 + utf8_len(text),
            },
            CompletionShape::Value | CompletionShape::Callable => HighlightingView::Classify {
                source: text,
                start: 0,
                end: utf8_len(text),
            },
            CompletionShape::Classified => HighlightingView::Resolve {
                name: highlight_name_of(self.kind->0)->0,
                end: last_paren_or_end(text),
            },
            CompletionShape::Plain => HighlightingView::Plain,
        }
    }

    /// The plan of the item's label.
    pub open spec fn label_plan(&self) -> PlanView {
        let text = self.label_text();
        let range = filter_range_or(text, self.filter(), self.default_filter_range());
        PlanView {
            text,
            filter_start: range.0,
            filter_end: range.1,
            highlighting: self.highlighting(),
        }
    }
}

/// The name of the class that items of `kind` are highlighted in, for the kinds that
/// have one.
pub fn highlight_name(kind: CompletionItemKind) -> (name: Option<&'static str>)
    ensures
        opt_view(name) == highlight_name_of(kind),
{
    match kind {
        CompletionItemKind::Struct
        | CompletionItemKind::Interface
        | CompletionItemKind::Class
        | CompletionItemKind::Enum => Some("type"),
        CompletionItemKind::EnumMember => Some("variant"),
        CompletionItemKind::Keyword => Some("keyword"),
        CompletionItemKind::Value | CompletionItemKind::Constant => Some("constant"),
        _ => None,
    }
}

/// The way in which `item` gets its label.
pub fn completion_shape(item: &CompletionItem) -> (shape: CompletionShape)
    ensures
        shape == item.shape(),
{
    match item.kind {
        Some(kind) => {
            let detailed = item.detail.is_some();
            if detailed && kind == CompletionItemKind::Field {
                CompletionShape::Member
            } else if detailed && (kind == CompletionItemKind::Constant || kind
                == CompletionItemKind::Variable) {
                CompletionShape::Value
            } else if detailed && (kind == CompletionItemKind::Function || kind
                == CompletionItemKind::Method) {
                CompletionShape::Callable
            } else {
                match highlight_name(kind) {
                    Some(_) => CompletionShape::Classified,
                    None => CompletionShape::Plain,
                }
            }
        },
        None => CompletionShape::Plain,
    }
}

/// The label of `item` without a bullet in front and without white space around it,
/// followed by the detail of the label as it stands.
pub fn base_label(item: &CompletionItem) -> (label: String)
    ensures
        label@ == item.base_label(),
{
    let stripped = strip_leading(item.label.as_str(), BULLET);
    let mut label = trim(stripped).to_owned();
    match &item.label_details {
        Some(details) => match &details.detail {
            Some(detail) => {
                label.append(detail.as_str());
            },
            None => {
                assert(label@ + Seq::<char>::empty() =~= label@);
            },
        },
        None => {
            assert(label@ + Seq::<char>::empty() =~= label@);
        },
    }
    label
}

/// The plan of every item is well formed: its filter range is made of whole characters
/// of its text, and what is classified is that text.
pub proof fn lemma_label_plan_is_well_formed(item: CompletionItem)
    ensures
        item.label_plan().wf(),
{
    let text = item.label_text();
    let bytes = encode_utf8(text);
    reveal_strlit(" ");
    reveal_strlit("struct S { ");
    reveal_strlit(" }");
    lemma_utf8_len_ascii(" "@);
    lemma_utf8_len_ascii("struct S { "@);
    lemma_utf8_len_ascii(" }"@);
    bytes.index_of_last_ensures(OPEN_PAREN);
    lemma_whole_on_boundaries(text);
    if let Some(at) = bytes.index_of_last(OPEN_PAREN) {
        lemma_ascii_byte_on_boundary(text, at);
    }
    if let Some(filter) = item.filter() {
        lemma_first_occurrence_found(bytes, encode_utf8(filter));
        if let Some(at) = first_occurrence(bytes, encode_utf8(filter)) {
            lemma_first_occurrence_on_boundaries(text, filter, at);
        }
    }
    match item.shape() {
        CompletionShape::Member => {
            lemma_utf8_middle(item.detail->0@, " "@, item.base_label());
            lemma_piece_on_boundaries(item.detail->0@, " "@, item.base_label());
            lemma_utf8_middle("struct S { "@, text, " }"@);
            lemma_piece_on_boundaries("struct S { "@, text, " }"@);
        },
        CompletionShape::Value | CompletionShape::Callable => {
            lemma_utf8_middle(item.detail->0@, " "@, item.base_label());
            lemma_piece_on_boundaries(item.detail->0@, " "@, item.base_label());
            assert(bytes.subrange(0, utf8_len(text)) =~= bytes);
        },
        CompletionShape::Classified | CompletionShape::Plain => {},
    }
}

/// Where an item has a detail in front of its label and names no filter text, a query
/// is matched against what follows the detail and its space, never against the detail.
pub proof fn lemma_filter_skips_detail(item: CompletionItem)
    requires
        item.shape() is Member || item.shape() is Value || item.shape() is Callable,
        item.filter() is None,
    ensures
        item.label_plan().filter_start == utf8_len(item.detail->0@ + " "@),
        encode_utf8(item.label_text()).subrange(0, item.label_plan().filter_start)
            == encode_utf8(item.detail->0@ + " "@),
        on_char_boundaries(
            item.label_text(),
            item.label_plan().filter_start,
            item.label_plan().filter_end,
        ),
{
    lemma_label_plan_is_well_formed(item);
    let detail = item.detail->0@;
    let text = item.label_text();
    reveal_strlit(" ");
    lemma_utf8_len_ascii(" "@);
    lemma_utf8_middle(detail, " "@, item.base_label());
    lemma_utf8_middle(Seq::empty(), detail + " "@, item.base_label());
    assert(Seq::<char>::empty() + (detail + " "@) =~= detail + " "@);
    lemma_utf8_middle(detail, " "@, Seq::empty());
    assert(detail + " "@ + Seq::<char>::empty() =~= detail + " "@);
    encode_utf8(text).index_of_last_ensures(OPEN_PAREN);
}

/// Where an item names a filter text that stands in its label, a query is matched
/// against the first place where it stands.
pub proof fn lemma_filter_text_is_matched(item: CompletionItem)
    requires
        item.filter() matches Some(filter) && first_occurrence(
            encode_utf8(item.label_text()),
            encode_utf8(filter),
        ) is Some,
    ensures
        is_first_occurrence(
            encode_utf8(item.label_text()),
            encode_utf8(item.filter()->0),
            item.label_plan().filter_start,
        ),
        encode_utf8(item.label_text()).subrange(
            item.label_plan().filter_start,
            item.label_plan().filter_end,
        ) == encode_utf8(item.filter()->0),
        on_char_boundaries(
            item.label_text(),
            item.label_plan().filter_start,
            item.label_plan().filter_end,
        ),
{
    lemma_label_plan_is_well_formed(item);
    lemma_first_occurrence_found(encode_utf8(item.label_text()), encode_utf8(item.filter()->0));
}

/// Where the last `(` of `text` stands, in bytes, if it has one.
fn last_paren(text: &str) -> (at: Option<usize>)
    ensures
        match at {
            Some(at) => encode_utf8(text@).index_of_last(OPEN_PAREN) == Some(at as int) && at
                < utf8_len(text@) && is_char_boundary(encode_utf8(text@), at as int),
            None => encode_utf8(text@).index_of_last(OPEN_PAREN) is None,
        },
{
    let at = rfind_byte(text.as_bytes(), OPEN_PAREN);
    proof {
        encode_utf8(text@).index_of_last_ensures(OPEN_PAREN);
        if let Some(at) = at {
            lemma_ascii_byte_on_boundary(text@, at as int);
        }
    }
    at
}

/// The plan of the label of `item`: the text of the label, the bytes of it to match a
/// query against, and what to ask the highlighter.
pub fn completion_label_plan(item: &CompletionItem) -> (plan: LabelPlan)
    ensures
        plan@ == item.label_plan(),
        plan@.wf(),
{
    proof {
        lemma_label_plan_is_well_formed(*item);
    }
    let label = base_label(item);
    let filter_text: Option<&str> = match &item.filter_text {
        Some(filter) => Some(filter.as_str()),
        None => None,
    };
    match completion_shape(item) {
        CompletionShape::Member => {
            let detail = item.detail.as_ref().unwrap();
            let text = concat3(detail.as_str(), " ", label.as_str());
            let source = concat3("struct S { ", text.as_str(), " }");
            let detail_len = byte_len(detail.as_str());
            let text_len = byte_len(text.as_str());
            // The source is in memory, so its length fits, and with it the offsets below.
            let _source_len = byte_len(source.as_str());
            proof {
                reveal_strlit(" ");
                reveal_strlit("struct S { ");
                reveal_strlit(" }");
                lemma_utf8_len_ascii(" "@);
                lemma_utf8_len_ascii("struct S { "@);
                lemma_utf8_len_ascii(" }"@);
                lemma_utf8_middle(detail@, " "@, label@);
                lemma_utf8_middle("struct S { "@, text@, " }"@);
            }
            let filter_range = filter_range_in(
                text.as_str(),
                filter_text,
                Range { start: detail_len + 1, end: text_len },
            );
            LabelPlan {
                text,
                filter_range,
                highlighting: Highlighting::Classify {
                    source,
                    range: Range { start: 11, end: 11 + text_len },
                },
            }
        },
        CompletionShape::Value => {
            let detail = item.detail.as_ref().unwrap();
            let text = concat3(detail.as_str(), " ", label.as_str());
            let detail_len = byte_len(detail.as_str());
            let text_len = byte_len(text.as_str());
            proof {
                reveal_strlit(" ");
                lemma_utf8_len_ascii(" "@);
                lemma_utf8_middle(detail@, " "@, label@);
            }
            let filter_range = filter_range_in(
                text.as_str(),
                filter_text,
                Range { start: detail_len + 1, end: text_len },
            );
            let source = text.clone();
            LabelPlan {
                text,
                filter_range,
                highlighting: Highlighting::Classify {
                    source,
                    range: Range { start: 0, end: text_len },
                },
            }
        },
        CompletionShape::Callable => {
            let detail = item.detail.as_ref().unwrap();
            let text = concat3(detail.as_str(), " ", label.as_str());
            let detail_len = byte_len(detail.as_str());
            let text_len = byte_len(text.as_str());
            proof {
                reveal_strlit(" ");
                lemma_utf8_len_ascii(" "@);
                lemma_utf8_middle(detail@, " "@, label@);
            }
            let start = detail_len + 1;
            let end = match last_paren(text.as_str()) {
                Some(at) => if at > start {
                    at
                } else {
                    text_len
                },
                None => text_len,
            };
            let filter_range = filter_range_in(
                text.as_str(),
                filter_text,
                Range { start, end },
            );
            let source = text.clone();
            LabelPlan {
                text,
                filter_range,
                highlighting: Highlighting::Classify {
                    source,
                    range: Range { start: 0, end: text_len },
                },
            }
        },
        CompletionShape::Classified => {
            let name = highlight_name(item.kind.unwrap()).unwrap();
            let text_len = byte_len(label.as_str());
            let end = match last_paren(label.as_str()) {
                Some(at) => at,
                None => text_len,
            };
            let filter_range = filter_range_in(
                label.as_str(),
                filter_text,
                Range { start: 0, end: text_len },
            );
            LabelPlan {
                text: label,
                filter_range,
                highlighting: Highlighting::Resolve { name: name.to_owned(), end },
            }
        },
        CompletionShape::Plain => {
            let text_len = byte_len(label.as_str());
            let filter_range = filter_range_in(
                label.as_str(),
                filter_text,
                Range { start: 0, end: text_len },
            );
            LabelPlan { text: label, filter_range, highlighting: Highlighting::Plain }
        },
    }
}

} // verus!
