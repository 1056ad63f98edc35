use vstd::prelude::*;

verus! {

/// A group child as the specifications see it: its begin/end/text
/// attributes, and whether it itself carries nested spans (which the
/// one-level group/leaf invariant forbids).
pub struct LeafView {
    pub begin: Option<Seq<char>>,
    pub end: Option<Seq<char>>,
    pub word: Option<Seq<char>>,
    pub nested: bool,
}

/// A span as the specifications see it: a leaf's own timing and text, or a
/// group's children. Spans below a group's children are recorded only by
/// each child's `nested` flag: the engine rejects every line whose spans
/// nest deeper than one group level, whatever those deeper spans hold.
pub struct SpanView {
    pub begin: Option<Seq<char>>,
    pub end: Option<Seq<char>>,
    pub word: Option<Seq<char>>,
    pub children: Option<Seq<LeafView>>,
}

/// View of a synced line: begin/end attributes and the span sequence.
pub struct PView {
    pub begin: Seq<char>,
    pub end: Seq<char>,
    pub spans: Seq<SpanView>,
}

/// A span of the word-span document: either a leaf carrying its own
/// begin/end timing and word text, or a background-vocal group carrying
/// child spans.
#[derive(Debug)]
pub struct Span {
    pub begin: Option<String>,
    pub end: Option<String>,
    pub word: Option<String>,
    pub span: Option<Vec<Span>>,
}

/// One line of the word-span document.
#[derive(Debug)]
pub struct P {
    pub begin: String,
    pub end: String,
    pub span: Vec<Span>,
}

/// One division of the word-span document.
#[derive(Debug)]
pub struct Div {
    pub p: Vec<P>,
}

/// The body of the word-span document.
#[derive(Debug)]
pub struct Body {
    pub div: Vec<Div>,
}

/// The word-span document: per-word timing with nested
/// foreground/background vocal groups.
#[derive(Debug)]
pub struct SynedLyricXML {
    pub body: Body,
}

/// The one-level view of a span standing under a group.
pub open spec fn leaf_view(s: Span) -> LeafView {
    LeafView {
        begin: s.begin.deep_view(),
        end: s.end.deep_view(),
        word: s.word.deep_view(),
        nested: s.span is Some,
    }
}

impl DeepView for Span {
    type V = SpanView;

    open spec fn deep_view(&self) -> SpanView {
        SpanView {
            begin: self.begin.deep_view(),
            end: self.end.deep_view(),
            word: self.word.deep_view(),
            children: match self.span {
                Some(cs) => Some(cs@.map_values(|c: Span| leaf_view(c))),
                None => None,
            },
        }
    }
}

impl DeepView for P {
    type V = PView;

    open spec fn deep_view(&self) -> PView {
        PView { begin: self.begin@, end: self.end@, spans: self.span.deep_view() }
    }
}

impl DeepView for Div {
    type V = Seq<PView>;

    open spec fn deep_view(&self) -> Seq<PView> {
        self.p.deep_view()
    }
}

impl DeepView for Body {
    type V = Seq<Seq<PView>>;

    open spec fn deep_view(&self) -> Seq<Seq<PView>> {
        self.div.deep_view()
    }
}

impl DeepView for SynedLyricXML {
    type V = Seq<Seq<PView>>;

    open spec fn deep_view(&self) -> Seq<Seq<PView>> {
        self.body.deep_view()
    }
}

} // verus!
