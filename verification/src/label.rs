//! Labels for symbols and completions: the text shown, the part of it that a query is
//! matched against, and the runs of it that are highlighted.

use crate::text::{
    byte_len, find, first_occurrence, lemma_first_occurrence_found,
    lemma_first_occurrence_on_boundaries, on_char_boundaries, utf8_len,
};
use std::ops::Range;
use vstd::prelude::*;
use vstd::utf8::*;

verus! {

/// A class of highlighted text, as the highlighter numbers it.
#[derive(Clone, Copy, Debug, PartialEq, Eq, Structural)]
pub struct HighlightId(pub u32);

/// A stretch of a text, by its bytes, and the class it is highlighted in.
pub type HighlightRun = (Range<usize>, HighlightId);

/// What classifies text for highlighting.
pub trait Highlighter {
    /// The runs of `range` within `text` that have a class, in order, each by its offsets
    /// from the start of `range`. The range is made of whole characters of `text`.
    fn highlight_text(&self, text: &str, range: Range<usize>) -> (runs: Vec<HighlightRun>)
        requires
            on_char_boundaries(text@, range.start as int, range.end as int),
    ;

    /// The class of the given name, where the highlighter has one.
    fn highlight_id_for_name(&self, name: &str) -> (id: Option<HighlightId>);
}

/// A label: its text, the highlighted runs of the text, and the bytes of the text that a
/// query is matched against.
#[derive(Debug, PartialEq, Eq)]
pub struct CodeLabel {
    pub text: String,
    pub runs: Vec<HighlightRun>,
    pub filter_range: Range<usize>,
}

/// A label as a value of mathematics.
pub struct LabelView {
    pub text: Seq<char>,
    pub runs: Seq<HighlightRun>,
    pub filter_start: int,
    pub filter_end: int,
}

impl View for CodeLabel {
    type V = LabelView;

    open spec fn view(&self) -> LabelView {
        LabelView {
            text: self.text@,
            runs: self.runs@,
            filter_start: self.filter_range.start as int,
            filter_end: self.filter_range.end as int,
        }
    }
}

/// Where `filter_text` first stands in `text`, in bytes, if it is given and stands there.
pub open spec fn explicit_filter_range(text: Seq<char>, filter_text: Option<Seq<char>>) -> Option<
    (int, int),
> {
    match filter_text {
        Some(filter) => match first_occurrence(encode_utf8(text), encode_utf8(filter)) {
            Some(at) => Some((at, at + utf8_len(filter))),
            None => None,
        },
        None => None,
    }
}

/// The bytes of `text` to match a query against: where `filter_text` first stands in it,
/// else `default`.
pub open spec fn filter_range_or(
    text: Seq<char>,
    filter_text: Option<Seq<char>>,
    default: (int, int),
) -> (int, int) {
    match explicit_filter_range(text, filter_text) {
        Some(range) => range,
        None => default,
    }
}

/// All of a text is made of whole characters.
pub proof fn lemma_whole_on_boundaries(text: Seq<char>)
    ensures
        on_char_boundaries(text, 0, utf8_len(text)),
{
    encode_utf8_valid_utf8(text);
    is_char_boundary_start_end_of_seq(encode_utf8(text));
}

/// The label of `text` without highlighting.
pub open spec fn plain_label(text: Seq<char>, filter_text: Option<Seq<char>>) -> LabelView {
    let range = filter_range_or(text, filter_text, (0, utf8_len(text)));
    LabelView { text, runs: Seq::empty(), filter_start: range.0, filter_end: range.1 }
}

/// The view of an optional string.
pub open spec fn opt_view(text: Option<&str>) -> Option<Seq<char>> {
    match text {
        Some(text) => Some(text@),
        None => None,
    }
}

/// Where `filter_text` first stands in `text`, else `default`.
pub fn filter_range_in(text: &str, filter_text: Option<&str>, default: Range<usize>) -> (range:
    Range<usize>)
    ensures
        (range.start as int, range.end as int) == filter_range_or(
            text@,
            opt_view(filter_text),
            (default.start as int, default.end as int),
        ),
        on_char_boundaries(text@, default.start as int, default.end as int)
            ==> on_char_boundaries(text@, range.start as int, range.end as int),
{
    match filter_text {
        Some(filter) => match find(text, filter) {
            Some(at) => {
                let text_len = byte_len(text);
                let filter_len = byte_len(filter);
                assert(on_char_boundaries(text@, at as int, at + filter_len)) by {
                    lemma_first_occurrence_found(encode_utf8(text@), encode_utf8(filter@));
                    lemma_first_occurrence_on_boundaries(text@, filter@, at as int);
                }
                Range { start: at, end: at + filter_len }
            },
            None => default,
        },
        None => default,
    }
}

impl CodeLabel {
    /// A label is well formed when its filter range lies within its text and is made of
    /// whole characters.
    pub open spec fn wf(&self) -> bool {
        on_char_boundaries(
            self.text@,
            self.filter_range.start as int,
            self.filter_range.end as int,
        )
    }

    /// The label of `text` without highlighting. A query is matched against the place
    /// where `filter_text` first stands in it, or against all of it.
    pub fn plain(text: String, filter_text: Option<&str>) -> (label: CodeLabel)
        ensures
            label@ == plain_label(text@, opt_view(filter_text)),
            label.wf(),
    {
        let whole = Range { start: 0, end: byte_len(text.as_str()) };
        proof {
            lemma_whole_on_boundaries(text@);
        }
        let filter_range = filter_range_in(text.as_str(), filter_text, whole);
        CodeLabel { text, runs: Vec::new(), filter_range }
    }
}

/// How the runs of a label are to be had from the highlighter.
#[derive(Debug, PartialEq, Eq)]
pub enum Highlighting {
    /// Have `range` of `source` classified: the runs that come back are the label's.
    Classify { source: String, range: Range<usize> },
    /// Have the class `name` resolved: where it resolves, the label has one run of that
    /// class, over the bytes of its text before `end`.
    Resolve { name: String, end: usize },
    /// The label has no runs.
    Plain,
}

/// `Highlighting` as a value of mathematics.
pub enum HighlightingView {
    Classify { source: Seq<char>, start: int, end: int },
    Resolve { name: Seq<char>, end: int },
    Plain,
}

impl View for Highlighting {
    type V = HighlightingView;

    open spec fn view(&self) -> HighlightingView {
        match self {
            Highlighting::Classify { source, range } => HighlightingView::Classify {
                source: source@,
                start: range.start as int,
                end: range.end as int,
            },
            Highlighting::Resolve { name, end } => HighlightingView::Resolve {
                name: name@,
                end: *end as int,
            },
            Highlighting::Plain => HighlightingView::Plain,
        }
    }
}

/// A label before the highlighter has been asked: its text, its filter range, and what
/// to ask.
#[derive(Debug, PartialEq, Eq)]
pub struct LabelPlan {
    pub text: String,
    pub filter_range: Range<usize>,
    pub highlighting: Highlighting,
}

/// A `LabelPlan` as a value of mathematics.
pub struct PlanView {
    pub text: Seq<char>,
    pub filter_start: int,
    pub filter_end: int,
    pub highlighting: HighlightingView,
}

impl PlanView {
    /// A plan is well formed when its filter range lies within its text and is made of
    /// whole characters, and what it asks of the highlighter is about that text: the
    /// bytes to classify are whole characters of the source and are the text's; the run
    /// of a resolved class ends with a character of the text.
    pub open spec fn wf(self) -> bool {
        &&& on_char_boundaries(self.text, self.filter_start, self.filter_end)
        &&& match self.highlighting {
            HighlightingView::Classify { source, start, end } => {
                &&& on_char_boundaries(source, start, end)
                &&& encode_utf8(source).subrange(start, end) == encode_utf8(self.text)
            },
            HighlightingView::Resolve { name, end } => on_char_boundaries(self.text, 0, end),
            HighlightingView::Plain => true,
        }
    }
}

impl View for LabelPlan {
    type V = PlanView;

    open spec fn view(&self) -> PlanView {
        PlanView {
            text: self.text@,
            filter_start: self.filter_range.start as int,
            filter_end: self.filter_range.end as int,
            highlighting: self.highlighting@,
        }
    }
}

/// The runs of a planned label, given what the highlighter answered: `runs` where it
/// classified, `resolved` where it resolved a class.
pub open spec fn finished_runs(
    highlighting: HighlightingView,
    runs: Seq<HighlightRun>,
    resolved: Option<HighlightId>,
) -> Seq<HighlightRun> {
    match highlighting {
        HighlightingView::Classify { .. } => runs,
        HighlightingView::Resolve { name, end } => match resolved {
            Some(id) => seq![(Range { start: 0usize, end: end as usize }, id)],
            None => Seq::empty(),
        },
        HighlightingView::Plain => Seq::empty(),
    }
}

/// The label that a plan becomes, given what the highlighter answered.
pub open spec fn finished_label(
    plan: PlanView,
    runs: Seq<HighlightRun>,
    resolved: Option<HighlightId>,
) -> LabelView {
    LabelView {
        text: plan.text,
        runs: finished_runs(plan.highlighting, runs, resolved),
        filter_start: plan.filter_start,
        filter_end: plan.filter_end,
    }
}

impl LabelPlan {
    /// The label, given what the highlighter answered: `runs` to a plan that has text
    /// classified, `resolved` to one that has a class resolved. An answer that the plan
    /// did not ask for is not read.
    pub fn finish(self, runs: Vec<HighlightRun>, resolved: Option<HighlightId>) -> (label:
        CodeLabel)
        ensures
            label@ == finished_label(self@, runs@, resolved),
            self@.wf() ==> label.wf(),
    {
        let LabelPlan { text, filter_range, highlighting } = self;
        let runs = match highlighting {
            Highlighting::Classify { .. } => runs,
            Highlighting::Resolve { name, end } => {
                let mut one: Vec<HighlightRun> = Vec::new();
                match resolved {
                    Some(id) => {
                        one.push((Range { start: 0, end }, id));
                        assert(one@ =~= seq![(Range { start: 0usize, end: end }, id)]);
                    },
                    None => {},
                }
                one
            },
            Highlighting::Plain => Vec::new(),
        };
        CodeLabel { text, runs, filter_range }
    }

    /// The label of the plan, with the runs that `highlighter` gives for it.
    pub fn highlight<H: Highlighter>(self, highlighter: &H) -> (label: CodeLabel)
        requires
            self@.wf(),
        ensures
            exists|runs: Seq<HighlightRun>, resolved: Option<HighlightId>|
                label@ == finished_label(self@, runs, resolved),
            label.text@ == self.text@,
            label.filter_range == self.filter_range,
            self.highlighting is Plain ==> label.runs@.len() == 0,
            label.wf(),
    {
        match &self.highlighting {
            Highlighting::Classify { source, range } => {
                let runs = highlighter.highlight_text(
                    source.as_str(),
                    Range { start: range.start, end: range.end },
                );
                let ghost answered = runs@;
                let label = self.finish(runs, None);
                assert(label@ == finished_label(self@, answered, None));
                label
            },
            Highlighting::Resolve { name, end } => {
                let resolved = highlighter.highlight_id_for_name(name.as_str());
                let label = self.finish(Vec::new(), resolved);
                assert(label@ == finished_label(self@, Seq::empty(), resolved));
                label
            },
            Highlighting::Plain => {
                let label = self.finish(Vec::new(), None);
                assert(label@ == finished_label(self@, Seq::empty(), None));
                label
            },
        }
    }
}

} // verus!
