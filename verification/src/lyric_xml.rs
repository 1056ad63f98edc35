use vstd::prelude::*;

verus! {

/// View of a plain line: begin/end attributes and the line text with its
/// whitespace preserved.
pub struct PView {
    pub begin: Seq<char>,
    pub end: Seq<char>,
    pub line: Seq<char>,
}

/// One line of the plain-line document; `line` keeps the whitespace that
/// word tokenization stripped from the word-span document.
#[derive(Debug)]
pub struct P {
    pub begin: String,
    pub end: String,
    pub line: String,
}

/// One division of the plain-line document.
#[derive(Debug)]
pub struct Div {
    pub p: Vec<P>,
}

/// The body of the plain-line document.
#[derive(Debug)]
pub struct Body {
    pub div: Vec<Div>,
}

/// The plain-line document: per-line text with true spacing.
#[derive(Debug)]
pub struct LyricXML {
    pub body: Body,
}

impl DeepView for P {
    type V = PView;

    open spec fn deep_view(&self) -> PView {
        PView { begin: self.begin@, end: self.end@, line: self.line@ }
    }
}

impl DeepView for Div {
    type V = Seq<PView>;

    open spec fn deep_view(&self) -> Seq<PView> {
        self.p.deep_view()
    }
}

impl DeepView for Body {
    type V = Seq<Seq<PView>>;

    open spec fn deep_view(&self) -> Seq<Seq<PView>> {
        self.div.deep_view()
    }
}

impl DeepView for LyricXML {
    type V = Seq<Seq<PView>>;

    open spec fn deep_view(&self) -> Seq<Seq<PView>> {
        self.body.deep_view()
    }
}

} // verus!
