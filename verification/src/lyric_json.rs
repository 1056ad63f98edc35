use vstd::prelude::*;

verus! {

/// Mathematical view of a timed word: begin/end time codes and the word
/// text, each as a character sequence.
pub struct WordView {
    pub begin: Seq<char>,
    pub end: Seq<char>,
    pub text: Seq<char>,
}

/// Mathematical view of a timeline line: begin/end time codes, the ordered
/// foreground words and the ordered background words.
pub struct LineView {
    pub begin: Seq<char>,
    pub end: Seq<char>,
    pub words: Seq<WordView>,
    pub background: Seq<WordView>,
}

/// One timed word of the timeline output.
#[derive(Debug)]
pub struct Word {
    pub begin: String,
    pub end: String,
    pub text: String,
}

/// One line of the timeline output: begin/end time codes, an ordered
/// foreground word list and an ordered background word list.
#[derive(Debug)]
pub struct Line {
    pub begin: String,
    pub end: String,
    pub words: Vec<Word>,
    pub background: Vec<Word>,
}

/// The timeline output: an ordered sequence of lines.
#[derive(Debug)]
pub struct LyricsJSON {
    pub lines: Vec<Line>,
}

impl DeepView for Word {
    type V = WordView;

    open spec fn deep_view(&self) -> WordView {
        WordView { begin: self.begin@, end: self.end@, text: self.text@ }
    }
}

impl DeepView for Line {
    type V = LineView;

    open spec fn deep_view(&self) -> LineView {
        LineView {
            begin: self.begin@,
            end: self.end@,
            words: self.words.deep_view(),
            background: self.background.deep_view(),
        }
    }
}

impl DeepView for LyricsJSON {
    type V = Seq<LineView>;

    open spec fn deep_view(&self) -> Seq<LineView> {
        self.lines.deep_view()
    }
}

impl LyricsJSON {
    /// An empty timeline.
    pub fn new() -> (r: Self)
        ensures
            r.deep_view() == Seq::<LineView>::empty(),
    {
        let r = LyricsJSON { lines: Vec::new() };
        proof {
            assert(r.deep_view() =~= Seq::<LineView>::empty());
        }
        r
    }

    /// Appends a line at the end of the timeline.
    pub fn add_line(&mut self, line: Line)
        ensures
            final(self).deep_view() == old(self).deep_view().push(line.deep_view()),
    {
        let ghost before = self.lines.deep_view();
        let ghost lv = line.deep_view();
        self.lines.push(line);
        proof {
            assert(self.lines.deep_view() =~= before.push(lv));
        }
    }
}

impl Line {
    /// A line with the given begin/end time codes and no words yet.
    pub fn new(begin: String, end: String) -> (r: Self)
        ensures
            r.deep_view().begin == begin@,
            r.deep_view().end == end@,
            r.deep_view().words == Seq::<WordView>::empty(),
            r.deep_view().background == Seq::<WordView>::empty(),
    {
        let r = Line { begin, end, words: Vec::new(), background: Vec::new() };
        proof {
            assert(r.words.deep_view() =~= Seq::<WordView>::empty());
            assert(r.background.deep_view() =~= Seq::<WordView>::empty());
        }
        r
    }

    /// Appends a word at the end of the foreground word list.
    pub fn add_words(&mut self, word: Word)
        ensures
            final(self).deep_view() == (LineView {
                words: old(self).deep_view().words.push(word.deep_view()),
                ..old(self).deep_view()
            }),
    {
        let ghost before = self.words.deep_view();
        let ghost wv = word.deep_view();
        self.words.push(word);
        proof {
            assert(self.words.deep_view() =~= before.push(wv));
        }
    }

    /// Appends a word at the end of the background word list.
    pub fn add_background(&mut self, word: Word)
        ensures
            final(self).deep_view() == (LineView {
                background: old(self).deep_view().background.push(word.deep_view()),
                ..old(self).deep_view()
            }),
    {
        let ghost before = self.background.deep_view();
        let ghost wv = word.deep_view();
        self.background.push(word);
        proof {
            assert(self.background.deep_view() =~= before.push(wv));
        }
    }
}

impl Word {
    /// A word with the given begin/end time codes and text.
    pub fn new(begin: String, end: String, text: String) -> (r: Self)
        ensures
            r.deep_view() == (WordView { begin: begin@, end: end@, text: text@ }),
    {
        Word { begin, end, text }
    }
}

} // verus!
