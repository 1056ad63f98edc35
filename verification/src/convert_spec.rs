use vstd::prelude::*;

use crate::lyric_json::{LineView, WordView};
use crate::lyric_xml::PView as PlainPView;
use crate::synced_lyric_xml::{LeafView, PView, SpanView};
use crate::timecode::normalize_spec;

verus! {

// ---------------------------------------------------------------------------
// Vocal classifier
// ---------------------------------------------------------------------------

/// The foreground word made from a leaf span standing directly under the
/// line; `None` when begin, end or text is absent.
pub open spec fn fg_word(sv: SpanView) -> Option<WordView> {
    if sv.begin is Some && sv.end is Some && sv.word is Some {
        Some(
            WordView {
                begin: normalize_spec(sv.begin->Some_0),
                end: normalize_spec(sv.end->Some_0),
                text: sv.word->Some_0,
            },
        )
    } else {
        None
    }
}

/// The background word made from a group child; `None` when begin, end or
/// text is absent, or when the child nests further spans.
pub open spec fn bg_word(lv: LeafView) -> Option<WordView> {
    if !lv.nested && lv.begin is Some && lv.end is Some && lv.word is Some {
        Some(
            WordView {
                begin: normalize_spec(lv.begin->Some_0),
                end: normalize_spec(lv.end->Some_0),
                text: lv.word->Some_0,
            },
        )
    } else {
        None
    }
}

/// The background words of one group, in document order.
pub open spec fn bg_words(kids: Seq<LeafView>) -> Option<Seq<WordView>>
    decreases kids.len(),
{
    if kids.len() == 0 {
        Some(Seq::empty())
    } else {
        match bg_words(kids.drop_last()) {
            Option::None => None,
            Option::Some(ws) => match bg_word(kids.last()) {
                Option::None => None,
                Option::Some(w) => Some(ws.push(w)),
            },
        }
    }
}

/// One left-to-right pass over a line's spans: leaves become foreground
/// words, each group's children are appended to the background sequence in
/// document order. `None` marks a structural error.
pub open spec fn classify_spans(spans: Seq<SpanView>) -> Option<(Seq<WordView>, Seq<WordView>)>
    decreases spans.len(),
{
    if spans.len() == 0 {
        Some((Seq::empty(), Seq::empty()))
    } else {
        match classify_spans(spans.drop_last()) {
            Option::None => None,
            Option::Some(acc) => match spans.last().children {
                Option::Some(kids) => match bg_words(kids) {
                    Option::None => None,
                    Option::Some(ws) => Some((acc.0, acc.1 + ws)),
                },
                Option::None => match fg_word(spans.last()) {
                    Option::None => None,
                    Option::Some(w) => Some((acc.0.push(w), acc.1)),
                },
            },
        }
    }
}

/// The timeline line made of a synced line: canonical begin/end time codes
/// and the classified word sequences.
pub open spec fn line_view(p: PView) -> Option<LineView> {
    match classify_spans(p.spans) {
        Option::None => None,
        Option::Some(fb) => Some(
            LineView {
                begin: normalize_spec(p.begin),
                end: normalize_spec(p.end),
                words: fb.0,
                background: fb.1,
            },
        ),
    }
}

/// The timeline lines of one division, in order.
pub open spec fn timeline_of_ps(ps: Seq<PView>) -> Option<Seq<LineView>>
    decreases ps.len(),
{
    if ps.len() == 0 {
        Some(Seq::empty())
    } else {
        match timeline_of_ps(ps.drop_last()) {
            Option::None => None,
            Option::Some(ls) => match line_view(ps.last()) {
                Option::None => None,
                Option::Some(l) => Some(ls.push(l)),
            },
        }
    }
}

/// The timeline of a whole word-span document, division after division.
pub open spec fn timeline_of_doc(divs: Seq<Seq<PView>>) -> Option<Seq<LineView>>
    decreases divs.len(),
{
    if divs.len() == 0 {
        Some(Seq::empty())
    } else {
        match timeline_of_doc(divs.drop_last()) {
            Option::None => None,
            Option::Some(ls) => match timeline_of_ps(divs.last()) {
                Option::None => None,
                Option::Some(more) => Some(ls + more),
            },
        }
    }
}

// ---------------------------------------------------------------------------
// Space-reconstruction aligner
// ---------------------------------------------------------------------------

/// One aligner step: the cursor advances past `plain[i]` exactly when the
/// word character matches it; a mismatch leaves the cursor untouched.
pub open spec fn advance1(plain: Seq<char>, i: int, c: char) -> int {
    if i < plain.len() && plain[i] == c {
        i + 1
    } else {
        i
    }
}

/// The cursor after walking all of `word` from cursor position `i`.
pub open spec fn cursor_after(word: Seq<char>, plain: Seq<char>, i: int) -> int
    decreases word.len(),
{
    if word.len() == 0 {
        i
    } else {
        advance1(plain, cursor_after(word.drop_last(), plain, i), word.last())
    }
}

/// The aligned text of one word and the cursor left for the next word: if
/// the plain text holds a space right after the word, the word gains a
/// trailing space and the cursor moves past it.
pub open spec fn aligned_word(word: Seq<char>, plain: Seq<char>, i: int) -> (Seq<char>, int) {
    let j = cursor_after(word, plain, i);
    if j < plain.len() && plain[j] == ' ' {
        (word.push(' '), j + 1)
    } else {
        (word, j)
    }
}

/// The background words of one group under alignment, threading the line's
/// cursor through the children in document order.
pub open spec fn bg_words_spaced(kids: Seq<LeafView>, plain: Seq<char>, cur: int) -> Option<
    (Seq<WordView>, int),
>
    decreases kids.len(),
{
    if kids.len() == 0 {
        Some((Seq::empty(), cur))
    } else {
        match bg_words_spaced(kids.drop_last(), plain, cur) {
            Option::None => None,
            Option::Some(acc) => match bg_word(kids.last()) {
                Option::None => None,
                Option::Some(w) => {
                    let (t, c2) = aligned_word(w.text, plain, acc.1);
                    Some((acc.0.push(WordView { text: t, ..w }), c2))
                },
            },
        }
    }
}

/// The classifying pass with space reconstruction: one cursor per line,
/// shared by foreground and background words exactly in the order the span
/// tree is walked.
pub open spec fn classify_spans_spaced(spans: Seq<SpanView>, plain: Seq<char>, cur: int) -> Option<
    (Seq<WordView>, Seq<WordView>, int),
>
    decreases spans.len(),
{
    if spans.len() == 0 {
        Some((Seq::empty(), Seq::empty(), cur))
    } else {
        match classify_spans_spaced(spans.drop_last(), plain, cur) {
            Option::None => None,
            Option::Some(acc) => match spans.last().children {
                Option::Some(kids) => match bg_words_spaced(kids, plain, acc.2) {
                    Option::None => None,
                    Option::Some(ws) => Some((acc.0, acc.1 + ws.0, ws.1)),
                },
                Option::None => match fg_word(spans.last()) {
                    Option::None => None,
                    Option::Some(w) => {
                        let (t, c2) = aligned_word(w.text, plain, acc.2);
                        Some((acc.0.push(WordView { text: t, ..w }), acc.1, c2))
                    },
                },
            },
        }
    }
}

/// The aligned timeline line made of a synced line and its plain text; the
/// cursor starts at 0 for each line.
pub open spec fn line_view_spaced(p: PView, plain: Seq<char>) -> Option<LineView> {
    match classify_spans_spaced(p.spans, plain, 0) {
        Option::None => None,
        Option::Some(fb) => Some(
            LineView {
                begin: normalize_spec(p.begin),
                end: normalize_spec(p.end),
                words: fb.0,
                background: fb.1,
            },
        ),
    }
}

/// The aligned timeline lines of one division: the plain document must
/// supply a line for each synced line, paired by position.
pub open spec fn timeline_spaced_ps(ps: Seq<PView>, plain_ps: Seq<PlainPView>) -> Option<
    Seq<LineView>,
>
    decreases ps.len(),
{
    if ps.len() > plain_ps.len() {
        None
    } else if ps.len() == 0 {
        Some(Seq::empty())
    } else {
        match timeline_spaced_ps(ps.drop_last(), plain_ps) {
            Option::None => None,
            Option::Some(ls) => match line_view_spaced(ps.last(), plain_ps[ps.len() - 1].line) {
                Option::None => None,
                Option::Some(l) => Some(ls.push(l)),
            },
        }
    }
}

/// The aligned timeline of a whole document pair, divisions paired by
/// position; the plain document must supply a division for each synced
/// division.
pub open spec fn timeline_spaced_doc(divs: Seq<Seq<PView>>, plain_divs: Seq<Seq<PlainPView>>) -> Option<
    Seq<LineView>,
>
    decreases divs.len(),
{
    if divs.len() > plain_divs.len() {
        None
    } else if divs.len() == 0 {
        Some(Seq::empty())
    } else {
        match timeline_spaced_doc(divs.drop_last(), plain_divs) {
            Option::None => None,
            Option::Some(ls) => match timeline_spaced_ps(
                divs.last(),
                plain_divs[divs.len() - 1],
            ) {
                Option::None => None,
                Option::Some(more) => Some(ls + more),
            },
        }
    }
}

// ---------------------------------------------------------------------------
// Timestamped-text output
// ---------------------------------------------------------------------------

/// One word of a timestamped-text line: `<begin> text ` with the begin
/// time code in canonical form and the trailing space kept.
pub open spec fn lrc_word(begin: Seq<char>, text: Seq<char>) -> Seq<char> {
    seq!['<'] + normalize_spec(begin) + seq!['>', ' '] + text + seq![' ']
}

/// The timestamped text of one group child; this output reads only begin
/// and text, an absent end attribute is no error here.
pub open spec fn lrc_leaf(lv: LeafView) -> Option<Seq<char>> {
    if !lv.nested && lv.begin is Some && lv.word is Some {
        Some(lrc_word(lv.begin->Some_0, lv.word->Some_0))
    } else {
        None
    }
}

/// The timestamped text of one group, child after child.
pub open spec fn lrc_children(kids: Seq<LeafView>) -> Option<Seq<char>>
    decreases kids.len(),
{
    if kids.len() == 0 {
        Some(Seq::empty())
    } else {
        match lrc_children(kids.drop_last()) {
            Option::None => None,
            Option::Some(t) => match lrc_leaf(kids.last()) {
                Option::None => None,
                Option::Some(w) => Some(t + w),
            },
        }
    }
}

/// The timestamped text contributed by one span, leaf or group.
pub open spec fn lrc_span(sv: SpanView) -> Option<Seq<char>> {
    match sv.children {
        Option::Some(kids) => lrc_children(kids),
        Option::None => {
            if sv.begin is Some && sv.word is Some {
                Some(lrc_word(sv.begin->Some_0, sv.word->Some_0))
            } else {
                None
            }
        },
    }
}

/// The timestamped text of a line's spans, in document order.
pub open spec fn lrc_spans(spans: Seq<SpanView>) -> Option<Seq<char>>
    decreases spans.len(),
{
    if spans.len() == 0 {
        Some(Seq::empty())
    } else {
        match lrc_spans(spans.drop_last()) {
            Option::None => None,
            Option::Some(t) => match lrc_span(spans.last()) {
                Option::None => None,
                Option::Some(w) => Some(t + w),
            },
        }
    }
}

/// One line of the timestamped-text output:
/// `[begin] <w1.begin> w1 <w2.begin> w2 ... \n`, the word separator a
/// single space and the trailing space before the newline kept.
pub open spec fn lrc_line(p: PView) -> Option<Seq<char>> {
    match lrc_spans(p.spans) {
        Option::None => None,
        Option::Some(ws) => Some(
            seq!['['] + normalize_spec(p.begin) + seq![']', ' '] + ws + seq!['\n'],
        ),
    }
}

/// The timestamped text of one division, line after line.
pub open spec fn lrc_ps(ps: Seq<PView>) -> Option<Seq<char>>
    decreases ps.len(),
{
    if ps.len() == 0 {
        Some(Seq::empty())
    } else {
        match lrc_ps(ps.drop_last()) {
            Option::None => None,
            Option::Some(t) => match lrc_line(ps.last()) {
                Option::None => None,
                Option::Some(l) => Some(t + l),
            },
        }
    }
}

/// The timestamped text of a whole word-span document.
pub open spec fn lrc_doc(divs: Seq<Seq<PView>>) -> Option<Seq<char>>
    decreases divs.len(),
{
    if divs.len() == 0 {
        Some(Seq::empty())
    } else {
        match lrc_doc(divs.drop_last()) {
            Option::None => None,
            Option::Some(t) => match lrc_ps(divs.last()) {
                Option::None => None,
                Option::Some(l) => Some(t + l),
            },
        }
    }
}

// ---------------------------------------------------------------------------
// Prefix lemmas: a failure on a prefix decides the whole fold
// ---------------------------------------------------------------------------

/// A structural error among a group's first `k` children is an error of
/// the whole group.
pub proof fn lemma_bg_words_prefix_none(kids: Seq<LeafView>, k: int)
    requires
        0 <= k <= kids.len(),
        bg_words(kids.subrange(0, k)) is None,
    ensures
        bg_words(kids) is None,
    decreases kids.len() - k,
{
    if k < kids.len() {
        assert(kids.subrange(0, k + 1).drop_last() =~= kids.subrange(0, k));
        lemma_bg_words_prefix_none(kids, k + 1);
    } else {
        assert(kids.subrange(0, kids.len() as int) =~= kids);
    }
}

/// A structural error among a line's first `k` spans is an error of the
/// whole line.
pub proof fn lemma_classify_prefix_none(spans: Seq<SpanView>, k: int)
    requires
        0 <= k <= spans.len(),
        classify_spans(spans.subrange(0, k)) is None,
    ensures
        classify_spans(spans) is None,
    decreases spans.len() - k,
{
    if k < spans.len() {
        assert(spans.subrange(0, k + 1).drop_last() =~= spans.subrange(0, k));
        lemma_classify_prefix_none(spans, k + 1);
    } else {
        assert(spans.subrange(0, spans.len() as int) =~= spans);
    }
}

/// An error among a division's first `k` lines is an error of the whole
/// division.
pub proof fn lemma_timeline_ps_prefix_none(ps: Seq<PView>, k: int)
    requires
        0 <= k <= ps.len(),
        timeline_of_ps(ps.subrange(0, k)) is None,
    ensures
        timeline_of_ps(ps) is None,
    decreases ps.len() - k,
{
    if k < ps.len() {
        assert(ps.subrange(0, k + 1).drop_last() =~= ps.subrange(0, k));
        lemma_timeline_ps_prefix_none(ps, k + 1);
    } else {
        assert(ps.subrange(0, ps.len() as int) =~= ps);
    }
}

/// An error among a document's first `k` divisions is an error of the
/// whole document.
pub proof fn lemma_timeline_doc_prefix_none(divs: Seq<Seq<PView>>, k: int)
    requires
        0 <= k <= divs.len(),
        timeline_of_doc(divs.subrange(0, k)) is None,
    ensures
        timeline_of_doc(divs) is None,
    decreases divs.len() - k,
{
    if k < divs.len() {
        assert(divs.subrange(0, k + 1).drop_last() =~= divs.subrange(0, k));
        lemma_timeline_doc_prefix_none(divs, k + 1);
    } else {
        assert(divs.subrange(0, divs.len() as int) =~= divs);
    }
}

/// The aligned variant of `lemma_bg_words_prefix_none`.
pub proof fn lemma_bg_spaced_prefix_none(kids: Seq<LeafView>, plain: Seq<char>, cur: int, k: int)
    requires
        0 <= k <= kids.len(),
        bg_words_spaced(kids.subrange(0, k), plain, cur) is None,
    ensures
        bg_words_spaced(kids, plain, cur) is None,
    decreases kids.len() - k,
{
    if k < kids.len() {
        assert(kids.subrange(0, k + 1).drop_last() =~= kids.subrange(0, k));
        lemma_bg_spaced_prefix_none(kids, plain, cur, k + 1);
    } else {
        assert(kids.subrange(0, kids.len() as int) =~= kids);
    }
}

/// The aligned variant of `lemma_classify_prefix_none`.
pub proof fn lemma_classify_spaced_prefix_none(
    spans: Seq<SpanView>,
    plain: Seq<char>,
    cur: int,
    k: int,
)
    requires
        0 <= k <= spans.len(),
        classify_spans_spaced(spans.subrange(0, k), plain, cur) is None,
    ensures
        classify_spans_spaced(spans, plain, cur) is None,
    decreases spans.len() - k,
{
    if k < spans.len() {
        assert(spans.subrange(0, k + 1).drop_last() =~= spans.subrange(0, k));
        lemma_classify_spaced_prefix_none(spans, plain, cur, k + 1);
    } else {
        assert(spans.subrange(0, spans.len() as int) =~= spans);
    }
}

/// The aligned variant of `lemma_timeline_ps_prefix_none`.
pub proof fn lemma_timeline_spaced_ps_prefix_none(
    ps: Seq<PView>,
    plain_ps: Seq<PlainPView>,
    k: int,
)
    requires
        0 <= k <= ps.len(),
        ps.len() <= plain_ps.len(),
        timeline_spaced_ps(ps.subrange(0, k), plain_ps) is None,
    ensures
        timeline_spaced_ps(ps, plain_ps) is None,
    decreases ps.len() - k,
{
    if k < ps.len() {
        assert(ps.subrange(0, k + 1).drop_last() =~= ps.subrange(0, k));
        lemma_timeline_spaced_ps_prefix_none(ps, plain_ps, k + 1);
    } else {
        assert(ps.subrange(0, ps.len() as int) =~= ps);
    }
}

/// The aligned variant of `lemma_timeline_doc_prefix_none`.
pub proof fn lemma_timeline_spaced_doc_prefix_none(
    divs: Seq<Seq<PView>>,
    plain_divs: Seq<Seq<PlainPView>>,
    k: int,
)
    requires
        0 <= k <= divs.len(),
        divs.len() <= plain_divs.len(),
        timeline_spaced_doc(divs.subrange(0, k), plain_divs) is None,
    ensures
        timeline_spaced_doc(divs, plain_divs) is None,
    decreases divs.len() - k,
{
    if k < divs.len() {
        assert(divs.subrange(0, k + 1).drop_last() =~= divs.subrange(0, k));
        lemma_timeline_spaced_doc_prefix_none(divs, plain_divs, k + 1);
    } else {
        assert(divs.subrange(0, divs.len() as int) =~= divs);
    }
}

/// The timestamped-text variant of `lemma_bg_words_prefix_none`.
pub proof fn lemma_lrc_children_prefix_none(kids: Seq<LeafView>, k: int)
    requires
        0 <= k <= kids.len(),
        lrc_children(kids.subrange(0, k)) is None,
    ensures
        lrc_children(kids) is None,
    decreases kids.len() - k,
{
    if k < kids.len() {
        assert(kids.subrange(0, k + 1).drop_last() =~= kids.subrange(0, k));
        lemma_lrc_children_prefix_none(kids, k + 1);
    } else {
        assert(kids.subrange(0, kids.len() as int) =~= kids);
    }
}

/// The timestamped-text variant of `lemma_classify_prefix_none`.
pub proof fn lemma_lrc_spans_prefix_none(spans: Seq<SpanView>, k: int)
    requires
        0 <= k <= spans.len(),
        lrc_spans(spans.subrange(0, k)) is None,
    ensures
        lrc_spans(spans) is None,
    decreases spans.len() - k,
{
    if k < spans.len() {
        assert(spans.subrange(0, k + 1).drop_last() =~= spans.subrange(0, k));
        lemma_lrc_spans_prefix_none(spans, k + 1);
    } else {
        assert(spans.subrange(0, spans.len() as int) =~= spans);
    }
}

/// The timestamped-text variant of `lemma_timeline_ps_prefix_none`.
pub proof fn lemma_lrc_ps_prefix_none(ps: Seq<PView>, k: int)
    requires
        0 <= k <= ps.len(),
        lrc_ps(ps.subrange(0, k)) is None,
    ensures
        lrc_ps(ps) is None,
    decreases ps.len() - k,
{
    if k < ps.len() {
        assert(ps.subrange(0, k + 1).drop_last() =~= ps.subrange(0, k));
        lemma_lrc_ps_prefix_none(ps, k + 1);
    } else {
        assert(ps.subrange(0, ps.len() as int) =~= ps);
    }
}

/// The timestamped-text variant of `lemma_timeline_doc_prefix_none`.
pub proof fn lemma_lrc_doc_prefix_none(divs: Seq<Seq<PView>>, k: int)
    requires
        0 <= k <= divs.len(),
        lrc_doc(divs.subrange(0, k)) is None,
    ensures
        lrc_doc(divs) is None,
    decreases divs.len() - k,
{
    if k < divs.len() {
        assert(divs.subrange(0, k + 1).drop_last() =~= divs.subrange(0, k));
        lemma_lrc_doc_prefix_none(divs, k + 1);
    } else {
        assert(divs.subrange(0, divs.len() as int) =~= divs);
    }
}

// ---------------------------------------------------------------------------
// Laws
// ---------------------------------------------------------------------------

/// Law: converting identical input twice yields identical output — the
/// timestamped text is a pure function of the document, with no hidden
/// state and no dependence on the moment of the call.
pub proof fn lemma_lrc_deterministic(
    divs: Seq<Seq<PView>>,
    r1: Option<Seq<char>>,
    r2: Option<Seq<char>>,
)
    requires
        r1 == lrc_doc(divs),
        r2 == lrc_doc(divs),
    ensures
        r1 == r2,
{
}

/// Law: the timeline is a pure function of the document — two conversions
/// of identical input agree line by line and byte by byte.
pub proof fn lemma_timeline_deterministic(
    divs: Seq<Seq<PView>>,
    r1: Option<Seq<LineView>>,
    r2: Option<Seq<LineView>>,
)
    requires
        r1 == timeline_of_doc(divs),
        r2 == timeline_of_doc(divs),
    ensures
        r1 == r2,
{
}

/// Law: the aligned timeline is a pure function of the document pair.
pub proof fn lemma_timeline_spaced_deterministic(
    divs: Seq<Seq<PView>>,
    plain_divs: Seq<Seq<PlainPView>>,
    r1: Option<Seq<LineView>>,
    r2: Option<Seq<LineView>>,
)
    requires
        r1 == timeline_spaced_doc(divs, plain_divs),
        r2 == timeline_spaced_doc(divs, plain_divs),
    ensures
        r1 == r2,
{
}

} // verus!
