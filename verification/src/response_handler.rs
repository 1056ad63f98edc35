use vstd::prelude::*;

use crate::convert_spec::{
    aligned_word, bg_word, bg_words, bg_words_spaced, classify_spans, classify_spans_spaced,
    cursor_after, fg_word, lemma_bg_spaced_prefix_none, lemma_bg_words_prefix_none,
    lemma_classify_prefix_none, lemma_classify_spaced_prefix_none, lemma_lrc_children_prefix_none,
    lemma_lrc_doc_prefix_none, lemma_lrc_ps_prefix_none, lemma_lrc_spans_prefix_none,
    lemma_timeline_doc_prefix_none, lemma_timeline_ps_prefix_none,
    lemma_timeline_spaced_doc_prefix_none, lemma_timeline_spaced_ps_prefix_none, line_view,
    line_view_spaced, lrc_children, lrc_doc, lrc_leaf, lrc_line, lrc_ps, lrc_span, lrc_spans,
    lrc_word, timeline_of_doc, timeline_of_ps, timeline_spaced_doc, timeline_spaced_ps,
};
use crate::apple_music::AppleMusic;
use crate::errors::ConvertError;
use crate::lyric_json::{Line, LyricsJSON, Word, WordView};
use crate::lyric_xml::LyricXML;
use crate::synced_lyric_xml::{leaf_view, LeafView, SynedLyricXML, P};
use crate::ttml_parser::{parse_plain, parse_plain_spec, parse_synced, parse_synced_spec};
use crate::text::{chars_of, push_all, string_of};
use crate::timecode::{normalize_spec, scan};

verus! {

/// The raw word-span markup carried by the envelope, when the `data`
/// arrays on its path are not empty.
pub open spec fn synced_payload(env: AppleMusic) -> Option<Seq<char>> {
    if env.data@.len() == 0 {
        None
    } else if env.data@[0].relationships.syllable_lyrics.data@.len() == 0 {
        None
    } else {
        Some(env.data@[0].relationships.syllable_lyrics.data@[0].attributes.ttml@)
    }
}

/// The raw plain-line markup carried by the envelope, when the `data`
/// arrays on its path are not empty.
pub open spec fn plain_payload(env: AppleMusic) -> Option<Seq<char>> {
    if env.data@.len() == 0 {
        None
    } else if env.data@[0].relationships.lyrics.data@.len() == 0 {
        None
    } else {
        Some(env.data@[0].relationships.lyrics.data@[0].attributes.ttml@)
    }
}

/// The parsed word-span document of the envelope: the payload extracted
/// and parsed, `None` when either step fails.
pub open spec fn parsed_synced(env: AppleMusic) -> Option<
    Seq<Seq<crate::synced_lyric_xml::PView>>,
> {
    match synced_payload(env) {
        Option::Some(t) => parse_synced_spec(t),
        Option::None => None,
    }
}

/// The parsed plain-line document of the envelope: the payload extracted
/// and parsed, `None` when either step fails.
pub open spec fn parsed_plain(env: AppleMusic) -> Option<Seq<Seq<crate::lyric_xml::PView>>> {
    match plain_payload(env) {
        Option::Some(t) => parse_plain_spec(t),
        Option::None => None,
    }
}

/// The conversion engine's entry points, from catalog envelope payloads to
/// the timeline and timestamped-text outputs.
pub struct Response {}

impl Response {
    /// Converts a free-form time-code string to the canonical `MM:SS.CC`
    /// form: 2-digit minutes, 2-digit seconds, at most 2 fraction
    /// characters, truncated and never rounded, the fraction left empty
    /// when the input carried none.
    pub fn convert_time_to_lrc_format(time: &str) -> (r: String)
        ensures
            r@ == normalize_spec(time@),
    {
        let cs = chars_of(time);
        let mut min: Vec<char> = Vec::new();
        let mut sec: Vec<char> = Vec::new();
        let mut temp: Vec<char> = Vec::new();
        let mut delim = false;
        let mut i: usize = 0;
        while i < cs.len()
            invariant
                i <= cs.len(),
                cs@ == time@,
                min@ == scan(time@.subrange(0, i as int)).min,
                sec@ == scan(time@.subrange(0, i as int)).sec,
                temp@ == scan(time@.subrange(0, i as int)).temp,
                delim == scan(time@.subrange(0, i as int)).delim,
            decreases cs.len() - i,
        {
            let c = cs[i];
            if c == ':' {
                min = temp;
                temp = Vec::new();
                delim = true;
            } else if c == '.' {
                sec = temp;
                temp = Vec::new();
                delim = true;
            } else {
                temp.push(c);
            }
            i += 1;
            proof {
                let pre = time@.subrange(0, i - 1);
                let cur = time@.subrange(0, i as int);
                assert(cur.drop_last() =~= pre);
                assert(cur.last() == time@[i - 1]);
            }
        }
        proof {
            assert(time@.subrange(0, time@.len() as int) =~= time@);
        }
        let mut out: Vec<char> = Vec::new();
        Self::push_pad2(&mut out, &min);
        out.push(':');
        if !delim && temp.len() > 0 {
            Self::push_pad2(&mut out, &temp);
        } else {
            Self::push_pad2(&mut out, &sec);
        }
        out.push('.');
        if delim {
            if temp.len() > 2 {
                out.push(temp[0]);
                out.push(temp[1]);
                proof {
                    assert(crate::timecode::frac2(temp@) =~= seq![temp@[0], temp@[1]]);
                }
            } else {
                push_all(&mut out, &temp);
            }
        }
        proof {
            assert(out@ =~= normalize_spec(time@));
        }
        string_of(&out)
    }

    /// Appends `pad2(src)` at the end of `dst`: `src` padded to width 2
    /// with a leading zero, or `00` when `src` is empty.
    fn push_pad2(dst: &mut Vec<char>, src: &Vec<char>)
        ensures
            final(dst)@ == old(dst)@ + crate::timecode::pad2(src@),
    {
        if src.len() == 0 {
            dst.push('0');
            dst.push('0');
            proof {
                assert(old(dst)@.push('0').push('0') =~= old(dst)@ + seq!['0', '0']);
            }
        } else if src.len() == 1 {
            dst.push('0');
            dst.push(src[0]);
            proof {
                assert(old(dst)@.push('0').push(src@[0]) =~= old(dst)@ + (seq!['0'] + src@));
            }
        } else {
            push_all(dst, src);
        }
    }

    /// Classifies one synced line: leaves become foreground words, group
    /// children become background words, both in document order, with
    /// canonical time codes. Fails with a structural error exactly when a
    /// leaf lacks begin, end or text, or a group child nests further spans.
    #[verifier::loop_isolation(false)]
    fn classify_line(p: &P) -> (r: Result<Line, ConvertError>)
        ensures
            line_view(p.deep_view()) matches Some(lv) ==> (r matches Ok(line) && line.deep_view()
                == lv),
            line_view(p.deep_view()) is None ==> (r matches Err(e) && e
                == ConvertError::StructuralError),
    {
        let ghost spansv = p.deep_view().spans;
        let mut line = Line::new(
            Self::convert_time_to_lrc_format(p.begin.as_str()),
            Self::convert_time_to_lrc_format(p.end.as_str()),
        );
        let mut j: usize = 0;
        while j < p.span.len()
            invariant
                j <= spansv.len(),
                spansv == p.deep_view().spans,
                line.deep_view().begin == normalize_spec(p.deep_view().begin),
                line.deep_view().end == normalize_spec(p.deep_view().end),
                classify_spans(spansv.subrange(0, j as int)) == Some(
                    (line.deep_view().words, line.deep_view().background),
                ),
            decreases spansv.len() - j,
        {
            let s = &p.span[j];
            proof {
                assert(spansv[j as int] == p.span@[j as int].deep_view());
                assert(spansv.subrange(0, j + 1).drop_last() =~= spansv.subrange(0, j as int));
                assert(spansv.subrange(0, j + 1).last() == spansv[j as int]);
            }
            match &s.span {
                Option::Some(background) => {
                    let ghost kids = spansv[j as int].children->Some_0;
                    let ghost accw = line.deep_view().words;
                    let ghost accb = line.deep_view().background;
                    proof {
                        assert(line.deep_view().background.skip(accb.len() as int)
                            =~= Seq::<WordView>::empty());
                        assert(line.deep_view().background.take(accb.len() as int) =~= accb);
                        assert(kids.subrange(0, 0) =~= Seq::<LeafView>::empty());
                    }
                    let mut k: usize = 0;
                    while k < background.len()
                        invariant
                            k <= kids.len(),
                            kids == background@.map_values(|c: crate::synced_lyric_xml::Span| leaf_view(c)),
                            line.deep_view().begin == normalize_spec(p.deep_view().begin),
                            line.deep_view().end == normalize_spec(p.deep_view().end),
                            line.deep_view().words == accw,
                            accb.len() <= line.deep_view().background.len(),
                            line.deep_view().background.take(accb.len() as int) == accb,
                            bg_words(kids.subrange(0, k as int)) == Some(
                                line.deep_view().background.skip(accb.len() as int),
                            ),
                        decreases kids.len() - k,
                    {
                        let child = &background[k];
                        proof {
                            assert(kids[k as int] == leaf_view(background@[k as int]));
                            assert(kids.subrange(0, k + 1).drop_last() =~= kids.subrange(
                                0,
                                k as int,
                            ));
                            assert(kids.subrange(0, k + 1).last() == kids[k as int]);
                        }
                        if child.span.is_some() {
                            proof {
                                assert(bg_word(kids[k as int]) is None);
                                assert(bg_words(kids.subrange(0, k + 1)) is None);
                                lemma_bg_words_prefix_none(kids, k + 1);
                                assert(classify_spans(spansv.subrange(0, j + 1)) is None);
                                lemma_classify_prefix_none(spansv, j + 1);
                            }
                            return Err(ConvertError::StructuralError);
                        }
                        match (&child.begin, &child.end, &child.word) {
                            (Option::Some(b), Option::Some(e), Option::Some(w)) => {
                                let ghost bgpre = line.deep_view().background;
                                let word = Word::new(
                                    Self::convert_time_to_lrc_format(b.as_str()),
                                    Self::convert_time_to_lrc_format(e.as_str()),
                                    w.clone(),
                                );
                                line.add_background(word);
                                proof {
                                    assert(line.deep_view().background.take(accb.len() as int)
                                        =~= accb);
                                    assert(line.deep_view().background.skip(accb.len() as int)
                                        =~= bgpre.skip(accb.len() as int).push(
                                        bg_word(kids[k as int])->Some_0,
                                    ));
                                }
                            },
                            _ => {
                                proof {
                                    assert(bg_word(kids[k as int]) is None);
                                    assert(bg_words(kids.subrange(0, k + 1)) is None);
                                    lemma_bg_words_prefix_none(kids, k + 1);
                                    assert(classify_spans(spansv.subrange(0, j + 1)) is None);
                                    lemma_classify_prefix_none(spansv, j + 1);
                                }
                                return Err(ConvertError::StructuralError);
                            },
                        }
                        k += 1;
                    }
                    proof {
                        assert(kids.subrange(0, kids.len() as int) =~= kids);
                        assert(line.deep_view().background =~= accb + line.deep_view()
                            .background.skip(accb.len() as int));
                    }
                },
                Option::None => {
                    match (&s.begin, &s.end, &s.word) {
                        (Option::Some(b), Option::Some(e), Option::Some(w)) => {
                            let word = Word::new(
                                Self::convert_time_to_lrc_format(b.as_str()),
                                Self::convert_time_to_lrc_format(e.as_str()),
                                w.clone(),
                            );
                            line.add_words(word);
                            proof {
                                assert(word.deep_view() == fg_word(spansv[j as int])->Some_0);
                            }
                        },
                        _ => {
                            proof {
                                assert(fg_word(spansv[j as int]) is None);
                                assert(classify_spans(spansv.subrange(0, j + 1)) is None);
                                lemma_classify_prefix_none(spansv, j + 1);
                            }
                            return Err(ConvertError::StructuralError);
                        },
                    }
                },
            }
            j += 1;
        }
        proof {
            assert(spansv.subrange(0, spansv.len() as int) =~= spansv);
        }
        Ok(line)
    }

    /// Converts the word-span document to the timeline output: one line
    /// per input line, in order, each classified into foreground and
    /// background words with canonical time codes.
    #[verifier::loop_isolation(false)]
    pub fn convert_to_json(synced_lyric_xml: &SynedLyricXML) -> (r: Result<
        LyricsJSON,
        ConvertError,
    >)
        ensures
            timeline_of_doc(synced_lyric_xml.deep_view()) matches Some(tl) ==> (r matches Ok(out)
                && out.deep_view() == tl),
            timeline_of_doc(synced_lyric_xml.deep_view()) is None ==> (r matches Err(e) && e
                == ConvertError::StructuralError),
    {
        let ghost docv = synced_lyric_xml.deep_view();
        let mut lyrics = LyricsJSON::new();
        let mut d: usize = 0;
        while d < synced_lyric_xml.body.div.len()
            invariant
                d <= docv.len(),
                docv == synced_lyric_xml.deep_view(),
                timeline_of_doc(docv.subrange(0, d as int)) == Some(lyrics.deep_view()),
            decreases docv.len() - d,
        {
            let div = &synced_lyric_xml.body.div[d];
            let ghost psv = docv[d as int];
            let ghost acc = lyrics.deep_view();
            proof {
                assert(psv == synced_lyric_xml.body.div@[d as int].deep_view());
                assert(docv.subrange(0, d + 1).drop_last() =~= docv.subrange(0, d as int));
                assert(docv.subrange(0, d + 1).last() == psv);
                assert(lyrics.deep_view().skip(acc.len() as int)
                    =~= Seq::<crate::lyric_json::LineView>::empty());
                assert(lyrics.deep_view().take(acc.len() as int) =~= acc);
            }
            let mut i: usize = 0;
            while i < div.p.len()
                invariant
                    i <= psv.len(),
                    psv == div.deep_view(),
                    timeline_of_doc(docv.subrange(0, d as int)) == Some(acc),
                    acc.len() <= lyrics.deep_view().len(),
                    lyrics.deep_view().take(acc.len() as int) == acc,
                    timeline_of_ps(psv.subrange(0, i as int)) == Some(
                        lyrics.deep_view().skip(acc.len() as int),
                    ),
                decreases psv.len() - i,
            {
                proof {
                    assert(psv[i as int] == div.p@[i as int].deep_view());
                    assert(psv.subrange(0, i + 1).drop_last() =~= psv.subrange(0, i as int));
                    assert(psv.subrange(0, i + 1).last() == psv[i as int]);
                }
                match Self::classify_line(&div.p[i]) {
                    Result::Ok(line) => {
                        let ghost pre = lyrics.deep_view();
                        lyrics.add_line(line);
                        proof {
                            assert(lyrics.deep_view().take(acc.len() as int) =~= acc);
                            assert(lyrics.deep_view().skip(acc.len() as int) =~= pre.skip(
                                acc.len() as int,
                            ).push(line_view(psv[i as int])->Some_0));
                        }
                    },
                    Result::Err(e) => {
                        proof {
                            assert(timeline_of_ps(psv.subrange(0, i + 1)) is None);
                            lemma_timeline_ps_prefix_none(psv, i + 1);
                            assert(timeline_of_doc(docv.subrange(0, d + 1)) is None);
                            lemma_timeline_doc_prefix_none(docv, d + 1);
                        }
                        return Err(e);
                    },
                }
                i += 1;
            }
            proof {
                assert(psv.subrange(0, psv.len() as int) =~= psv);
                assert(lyrics.deep_view() =~= acc + lyrics.deep_view().skip(acc.len() as int));
            }
            d += 1;
        }
        proof {
            assert(docv.subrange(0, docv.len() as int) =~= docv);
        }
        Ok(lyrics)
    }

    /// Walks one word against the plain line text: a word character equal
    /// to the character under the shared cursor advances the cursor, a
    /// mismatch is skipped silently. When the character right after the
    /// word is a space, the word gains a trailing space and the cursor
    /// moves past it; an exhausted cursor leaves the word unchanged.
    pub fn add_spaces(lyric_chars: &Vec<char>, lyric_char_index: &mut usize, word: &mut Vec<char>)
        requires
            *old(lyric_char_index) <= lyric_chars@.len(),
        ensures
            final(word)@ == aligned_word(
                old(word)@,
                lyric_chars@,
                *old(lyric_char_index) as int,
            ).0,
            *final(lyric_char_index) as int == aligned_word(
                old(word)@,
                lyric_chars@,
                *old(lyric_char_index) as int,
            ).1,
            *final(lyric_char_index) <= lyric_chars@.len(),
    {
        let ghost w0 = word@;
        let ghost i0 = *lyric_char_index as int;
        let mut k: usize = 0;
        while k < word.len()
            invariant
                k <= w0.len(),
                word@ == w0,
                *lyric_char_index as int == cursor_after(
                    w0.subrange(0, k as int),
                    lyric_chars@,
                    i0,
                ),
                *lyric_char_index <= lyric_chars@.len(),
            decreases w0.len() - k,
        {
            proof {
                assert(w0.subrange(0, k + 1).drop_last() =~= w0.subrange(0, k as int));
                assert(w0.subrange(0, k + 1).last() == w0[k as int]);
            }
            if *lyric_char_index < lyric_chars.len() && word[k] == lyric_chars[*lyric_char_index] {
                *lyric_char_index += 1;
            }
            k += 1;
        }
        proof {
            assert(w0.subrange(0, w0.len() as int) =~= w0);
        }
        if *lyric_char_index < lyric_chars.len() && lyric_chars[*lyric_char_index] == ' ' {
            *lyric_char_index += 1;
            word.push(' ');
        }
    }

    /// Classifies one synced line with space reconstruction: as
    /// `classify_line`, but every word is walked against the matching
    /// plain line text with one shared cursor, in the order the span tree
    /// is walked, and may gain a trailing space.
    #[verifier::loop_isolation(false)]
    fn classify_line_spaced(p: &P, plain_line: &str) -> (r: Result<Line, ConvertError>)
        ensures
            line_view_spaced(p.deep_view(), plain_line@) matches Some(lv) ==> (r matches Ok(line)
                && line.deep_view() == lv),
            line_view_spaced(p.deep_view(), plain_line@) is None ==> (r matches Err(e) && e
                == ConvertError::StructuralError),
    {
        let ghost spansv = p.deep_view().spans;
        let ghost plainv = plain_line@;
        let lyric_chars = chars_of(plain_line);
        let mut lyric_char_index: usize = 0;
        let mut line = Line::new(
            Self::convert_time_to_lrc_format(p.begin.as_str()),
            Self::convert_time_to_lrc_format(p.end.as_str()),
        );
        let mut j: usize = 0;
        while j < p.span.len()
            invariant
                j <= spansv.len(),
                lyric_char_index <= plainv.len(),
                line.deep_view().begin == normalize_spec(p.deep_view().begin),
                line.deep_view().end == normalize_spec(p.deep_view().end),
                classify_spans_spaced(spansv.subrange(0, j as int), plainv, 0) == Some(
                    (line.deep_view().words, line.deep_view().background, lyric_char_index as int),
                ),
            decreases spansv.len() - j,
        {
            let s = &p.span[j];
            proof {
                assert(spansv[j as int] == p.span@[j as int].deep_view());
                assert(spansv.subrange(0, j + 1).drop_last() =~= spansv.subrange(0, j as int));
                assert(spansv.subrange(0, j + 1).last() == spansv[j as int]);
            }
            match &s.span {
                Option::Some(background) => {
                    let ghost kids = spansv[j as int].children->Some_0;
                    let ghost accw = line.deep_view().words;
                    let ghost accb = line.deep_view().background;
                    let ghost cur0 = lyric_char_index as int;
                    proof {
                        assert(line.deep_view().background.skip(accb.len() as int)
                            =~= Seq::<WordView>::empty());
                        assert(line.deep_view().background.take(accb.len() as int) =~= accb);
                        assert(kids.subrange(0, 0) =~= Seq::<LeafView>::empty());
                    }
                    let mut k: usize = 0;
                    while k < background.len()
                        invariant
                            k <= kids.len(),
                            kids == background@.map_values(
                                |c: crate::synced_lyric_xml::Span| leaf_view(c),
                            ),
                            lyric_char_index <= plainv.len(),
                            line.deep_view().begin == normalize_spec(p.deep_view().begin),
                            line.deep_view().end == normalize_spec(p.deep_view().end),
                            line.deep_view().words == accw,
                            accb.len() <= line.deep_view().background.len(),
                            line.deep_view().background.take(accb.len() as int) == accb,
                            bg_words_spaced(kids.subrange(0, k as int), plainv, cur0) == Some(
                                (
                                    line.deep_view().background.skip(accb.len() as int),
                                    lyric_char_index as int,
                                ),
                            ),
                        decreases kids.len() - k,
                    {
                        let child = &background[k];
                        proof {
                            assert(kids[k as int] == leaf_view(background@[k as int]));
                            assert(kids.subrange(0, k + 1).drop_last() =~= kids.subrange(
                                0,
                                k as int,
                            ));
                            assert(kids.subrange(0, k + 1).last() == kids[k as int]);
                        }
                        if child.span.is_some() {
                            proof {
                                assert(bg_word(kids[k as int]) is None);
                                assert(bg_words_spaced(kids.subrange(0, k + 1), plainv, cur0)
                                    is None);
                                lemma_bg_spaced_prefix_none(kids, plainv, cur0, k + 1);
                                assert(classify_spans_spaced(
                                    spansv.subrange(0, j + 1),
                                    plainv,
                                    0,
                                ) is None);
                                lemma_classify_spaced_prefix_none(spansv, plainv, 0, j + 1);
                            }
                            return Err(ConvertError::StructuralError);
                        }
                        match (&child.begin, &child.end, &child.word) {
                            (Option::Some(b), Option::Some(e), Option::Some(w)) => {
                                let ghost bgpre = line.deep_view().background;
                                let mut wchars = chars_of(w.as_str());
                                Self::add_spaces(&lyric_chars, &mut lyric_char_index, &mut wchars);
                                let word = Word::new(
                                    Self::convert_time_to_lrc_format(b.as_str()),
                                    Self::convert_time_to_lrc_format(e.as_str()),
                                    string_of(&wchars),
                                );
                                line.add_background(word);
                                proof {
                                    assert(line.deep_view().background.take(accb.len() as int)
                                        =~= accb);
                                    assert(line.deep_view().background.skip(accb.len() as int)
                                        =~= bgpre.skip(accb.len() as int).push(word.deep_view()));
                                }
                            },
                            _ => {
                                proof {
                                    assert(bg_word(kids[k as int]) is None);
                                    assert(bg_words_spaced(kids.subrange(0, k + 1), plainv, cur0)
                                        is None);
                                    lemma_bg_spaced_prefix_none(kids, plainv, cur0, k + 1);
                                    assert(classify_spans_spaced(
                                        spansv.subrange(0, j + 1),
                                        plainv,
                                        0,
                                    ) is None);
                                    lemma_classify_spaced_prefix_none(spansv, plainv, 0, j + 1);
                                }
                                return Err(ConvertError::StructuralError);
                            },
                        }
                        k += 1;
                    }
                    proof {
                        assert(kids.subrange(0, kids.len() as int) =~= kids);
                        assert(line.deep_view().background =~= accb + line.deep_view()
                            .background.skip(accb.len() as int));
                    }
                },
                Option::None => {
                    match (&s.begin, &s.end, &s.word) {
                        (Option::Some(b), Option::Some(e), Option::Some(w)) => {
                            let mut wchars = chars_of(w.as_str());
                            Self::add_spaces(&lyric_chars, &mut lyric_char_index, &mut wchars);
                            let word = Word::new(
                                Self::convert_time_to_lrc_format(b.as_str()),
                                Self::convert_time_to_lrc_format(e.as_str()),
                                string_of(&wchars),
                            );
                            line.add_words(word);
                        },
                        _ => {
                            proof {
                                assert(fg_word(spansv[j as int]) is None);
                                assert(classify_spans_spaced(
                                    spansv.subrange(0, j + 1),
                                    plainv,
                                    0,
                                ) is None);
                                lemma_classify_spaced_prefix_none(spansv, plainv, 0, j + 1);
                            }
                            return Err(ConvertError::StructuralError);
                        },
                    }
                },
            }
            j += 1;
        }
        proof {
            assert(spansv.subrange(0, spansv.len() as int) =~= spansv);
        }
        Ok(line)
    }

    /// Converts the word-span document to the timeline output with space
    /// reconstruction: each synced line is aligned against the plain line
    /// standing at the same division and line position. Fails with a
    /// structural error when the plain document lacks a matching division
    /// or line.
    #[verifier::loop_isolation(false)]
    pub fn convert_to_json_with_space(
        synced_lyric_xml: &SynedLyricXML,
        lyric_xml: &LyricXML,
    ) -> (r: Result<LyricsJSON, ConvertError>)
        ensures
            timeline_spaced_doc(synced_lyric_xml.deep_view(), lyric_xml.deep_view()) matches Some(
                tl,
            ) ==> (r matches Ok(out) && out.deep_view() == tl),
            timeline_spaced_doc(synced_lyric_xml.deep_view(), lyric_xml.deep_view()) is None ==> (
            r matches Err(e) && e == ConvertError::StructuralError),
    {
        let ghost docv = synced_lyric_xml.deep_view();
        let ghost plainv = lyric_xml.deep_view();
        if synced_lyric_xml.body.div.len() > lyric_xml.body.div.len() {
            return Err(ConvertError::StructuralError);
        }
        let mut lyrics = LyricsJSON::new();
        let mut d: usize = 0;
        while d < synced_lyric_xml.body.div.len()
            invariant
                d <= docv.len(),
                timeline_spaced_doc(docv.subrange(0, d as int), plainv) == Some(
                    lyrics.deep_view(),
                ),
            decreases docv.len() - d,
        {
            let div = &synced_lyric_xml.body.div[d];
            let plain_div = &lyric_xml.body.div[d];
            let ghost psv = docv[d as int];
            let ghost plain_psv = plainv[d as int];
            let ghost acc = lyrics.deep_view();
            proof {
                assert(psv == synced_lyric_xml.body.div@[d as int].deep_view());
                assert(plain_psv == lyric_xml.body.div@[d as int].deep_view());
                assert(docv.subrange(0, d + 1).drop_last() =~= docv.subrange(0, d as int));
                assert(docv.subrange(0, d + 1).last() == psv);
                assert(lyrics.deep_view().skip(acc.len() as int)
                    =~= Seq::<crate::lyric_json::LineView>::empty());
                assert(lyrics.deep_view().take(acc.len() as int) =~= acc);
            }
            if div.p.len() > plain_div.p.len() {
                proof {
                    assert(timeline_spaced_ps(psv, plain_psv) is None);
                    assert(timeline_spaced_doc(docv.subrange(0, d + 1), plainv) is None);
                    lemma_timeline_spaced_doc_prefix_none(docv, plainv, d + 1);
                }
                return Err(ConvertError::StructuralError);
            }
            let mut i: usize = 0;
            while i < div.p.len()
                invariant
                    i <= psv.len(),
                    acc.len() <= lyrics.deep_view().len(),
                    lyrics.deep_view().take(acc.len() as int) == acc,
                    timeline_spaced_ps(psv.subrange(0, i as int), plain_psv) == Some(
                        lyrics.deep_view().skip(acc.len() as int),
                    ),
                decreases psv.len() - i,
            {
                proof {
                    assert(psv[i as int] == div.p@[i as int].deep_view());
                    assert(plain_psv[i as int] == plain_div.p@[i as int].deep_view());
                    assert(psv.subrange(0, i + 1).drop_last() =~= psv.subrange(0, i as int));
                    assert(psv.subrange(0, i + 1).last() == psv[i as int]);
                }
                match Self::classify_line_spaced(&div.p[i], plain_div.p[i].line.as_str()) {
                    Result::Ok(line) => {
                        let ghost pre = lyrics.deep_view();
                        lyrics.add_line(line);
                        proof {
                            assert(lyrics.deep_view().take(acc.len() as int) =~= acc);
                            assert(lyrics.deep_view().skip(acc.len() as int) =~= pre.skip(
                                acc.len() as int,
                            ).push(line.deep_view()));
                        }
                    },
                    Result::Err(e) => {
                        proof {
                            assert(timeline_spaced_ps(psv.subrange(0, i + 1), plain_psv)
                                is None);
                            lemma_timeline_spaced_ps_prefix_none(psv, plain_psv, i + 1);
                            assert(timeline_spaced_doc(docv.subrange(0, d + 1), plainv)
                                is None);
                            lemma_timeline_spaced_doc_prefix_none(docv, plainv, d + 1);
                        }
                        return Err(e);
                    },
                }
                i += 1;
            }
            proof {
                assert(psv.subrange(0, psv.len() as int) =~= psv);
                assert(lyrics.deep_view() =~= acc + lyrics.deep_view().skip(acc.len() as int));
            }
            d += 1;
        }
        proof {
            assert(docv.subrange(0, docv.len() as int) =~= docv);
        }
        Ok(lyrics)
    }

    /// Appends `<begin> text ` at the end of `out`, the begin time code in
    /// canonical form and the trailing space kept.
    fn push_lrc_word(out: &mut Vec<char>, begin: &str, text: &str)
        ensures
            final(out)@ == old(out)@ + lrc_word(begin@, text@),
    {
        out.push('<');
        let b = Self::convert_time_to_lrc_format(begin);
        let bc = chars_of(b.as_str());
        push_all(out, &bc);
        out.push('>');
        out.push(' ');
        let tc = chars_of(text);
        push_all(out, &tc);
        out.push(' ');
        proof {
            assert(out@ =~= old(out)@ + lrc_word(begin@, text@));
        }
    }

    /// Builds one line of the timestamped-text output:
    /// `[begin] <w.begin> w ... \n`, every word in document order, group
    /// children inline at their group's position. This output reads only
    /// each word's begin and text; an absent end attribute is no error
    /// here.
    #[verifier::loop_isolation(false)]
    fn line_to_lrc(p: &P) -> (r: Result<Vec<char>, ConvertError>)
        ensures
            lrc_line(p.deep_view()) matches Some(t) ==> (r matches Ok(v) && v@ == t),
            lrc_line(p.deep_view()) is None ==> (r matches Err(e) && e
                == ConvertError::StructuralError),
    {
        let ghost spansv = p.deep_view().spans;
        let mut out: Vec<char> = Vec::new();
        out.push('[');
        let b = Self::convert_time_to_lrc_format(p.begin.as_str());
        let bc = chars_of(b.as_str());
        push_all(&mut out, &bc);
        out.push(']');
        out.push(' ');
        let ghost header = seq!['['] + normalize_spec(p.deep_view().begin) + seq![']', ' '];
        proof {
            assert(out@ =~= header);
            assert(out@.skip(header.len() as int) =~= Seq::<char>::empty());
            assert(out@.take(header.len() as int) =~= header);
        }
        let mut j: usize = 0;
        while j < p.span.len()
            invariant
                j <= spansv.len(),
                header.len() <= out@.len(),
                out@.take(header.len() as int) == header,
                lrc_spans(spansv.subrange(0, j as int)) == Some(out@.skip(header.len() as int)),
            decreases spansv.len() - j,
        {
            let s = &p.span[j];
            proof {
                assert(spansv[j as int] == p.span@[j as int].deep_view());
                assert(spansv.subrange(0, j + 1).drop_last() =~= spansv.subrange(0, j as int));
                assert(spansv.subrange(0, j + 1).last() == spansv[j as int]);
            }
            match &s.span {
                Option::Some(background) => {
                    let ghost kids = spansv[j as int].children->Some_0;
                    let ghost acc = out@;
                    proof {
                        assert(out@.skip(acc.len() as int) =~= Seq::<char>::empty());
                        assert(out@.take(acc.len() as int) =~= acc);
                        assert(kids.subrange(0, 0) =~= Seq::<LeafView>::empty());
                    }
                    let mut k: usize = 0;
                    while k < background.len()
                        invariant
                            k <= kids.len(),
                            kids == background@.map_values(
                                |c: crate::synced_lyric_xml::Span| leaf_view(c),
                            ),
                            acc.len() <= out@.len(),
                            out@.take(acc.len() as int) == acc,
                            lrc_children(kids.subrange(0, k as int)) == Some(
                                out@.skip(acc.len() as int),
                            ),
                        decreases kids.len() - k,
                    {
                        let child = &background[k];
                        proof {
                            assert(kids[k as int] == leaf_view(background@[k as int]));
                            assert(kids.subrange(0, k + 1).drop_last() =~= kids.subrange(
                                0,
                                k as int,
                            ));
                            assert(kids.subrange(0, k + 1).last() == kids[k as int]);
                        }
                        if child.span.is_some() {
                            proof {
                                assert(lrc_leaf(kids[k as int]) is None);
                                assert(lrc_children(kids.subrange(0, k + 1)) is None);
                                lemma_lrc_children_prefix_none(kids, k + 1);
                                assert(lrc_spans(spansv.subrange(0, j + 1)) is None);
                                lemma_lrc_spans_prefix_none(spansv, j + 1);
                            }
                            return Err(ConvertError::StructuralError);
                        }
                        match (&child.begin, &child.word) {
                            (Option::Some(wb), Option::Some(ww)) => {
                                let ghost pre = out@;
                                Self::push_lrc_word(&mut out, wb.as_str(), ww.as_str());
                                proof {
                                    assert(out@.take(acc.len() as int) =~= acc);
                                    assert(out@.skip(acc.len() as int) =~= pre.skip(
                                        acc.len() as int,
                                    ) + lrc_leaf(kids[k as int])->Some_0);
                                }
                            },
                            _ => {
                                proof {
                                    assert(lrc_leaf(kids[k as int]) is None);
                                    assert(lrc_children(kids.subrange(0, k + 1)) is None);
                                    lemma_lrc_children_prefix_none(kids, k + 1);
                                    assert(lrc_spans(spansv.subrange(0, j + 1)) is None);
                                    lemma_lrc_spans_prefix_none(spansv, j + 1);
                                }
                                return Err(ConvertError::StructuralError);
                            },
                        }
                        k += 1;
                    }
                    proof {
                        assert(kids.subrange(0, kids.len() as int) =~= kids);
                        assert(out@.skip(header.len() as int) =~= acc.skip(header.len() as int)
                            + out@.skip(acc.len() as int));
                    }
                },
                Option::None => {
                    match (&s.begin, &s.word) {
                        (Option::Some(wb), Option::Some(ww)) => {
                            let ghost pre = out@;
                            Self::push_lrc_word(&mut out, wb.as_str(), ww.as_str());
                            proof {
                                assert(out@.take(header.len() as int) =~= header);
                                assert(out@.skip(header.len() as int) =~= pre.skip(
                                    header.len() as int,
                                ) + lrc_span(spansv[j as int])->Some_0);
                            }
                        },
                        _ => {
                            proof {
                                assert(lrc_span(spansv[j as int]) is None);
                                assert(lrc_spans(spansv.subrange(0, j + 1)) is None);
                                lemma_lrc_spans_prefix_none(spansv, j + 1);
                            }
                            return Err(ConvertError::StructuralError);
                        },
                    }
                },
            }
            j += 1;
        }
        out.push('\n');
        proof {
            assert(spansv.subrange(0, spansv.len() as int) =~= spansv);
            assert(out@ =~= lrc_line(p.deep_view())->Some_0);
        }
        Ok(out)
    }

    /// Converts the word-span document to the timestamped-text output, one
    /// formatted line per input line, concatenated in order.
    #[verifier::loop_isolation(false)]
    pub fn convert_to_lrc(synced_lyric_xml: &SynedLyricXML) -> (r: Result<String, ConvertError>)
        ensures
            lrc_doc(synced_lyric_xml.deep_view()) matches Some(t) ==> (r matches Ok(s) && s@
                == t),
            lrc_doc(synced_lyric_xml.deep_view()) is None ==> (r matches Err(e) && e
                == ConvertError::StructuralError),
    {
        let ghost docv = synced_lyric_xml.deep_view();
        let mut out: Vec<char> = Vec::new();
        let mut d: usize = 0;
        while d < synced_lyric_xml.body.div.len()
            invariant
                d <= docv.len(),
                lrc_doc(docv.subrange(0, d as int)) == Some(out@),
            decreases docv.len() - d,
        {
            let div = &synced_lyric_xml.body.div[d];
            let ghost psv = docv[d as int];
            let ghost acc = out@;
            proof {
                assert(psv == synced_lyric_xml.body.div@[d as int].deep_view());
                assert(docv.subrange(0, d + 1).drop_last() =~= docv.subrange(0, d as int));
                assert(docv.subrange(0, d + 1).last() == psv);
                assert(out@.skip(acc.len() as int) =~= Seq::<char>::empty());
                assert(out@.take(acc.len() as int) =~= acc);
            }
            let mut i: usize = 0;
            while i < div.p.len()
                invariant
                    i <= psv.len(),
                    acc.len() <= out@.len(),
                    out@.take(acc.len() as int) == acc,
                    lrc_ps(psv.subrange(0, i as int)) == Some(out@.skip(acc.len() as int)),
                decreases psv.len() - i,
            {
                proof {
                    assert(psv[i as int] == div.p@[i as int].deep_view());
                    assert(psv.subrange(0, i + 1).drop_last() =~= psv.subrange(0, i as int));
                    assert(psv.subrange(0, i + 1).last() == psv[i as int]);
                }
                match Self::line_to_lrc(&div.p[i]) {
                    Result::Ok(lv) => {
                        let ghost pre = out@;
                        push_all(&mut out, &lv);
                        proof {
                            assert(out@.take(acc.len() as int) =~= acc);
                            assert(out@.skip(acc.len() as int) =~= pre.skip(acc.len() as int)
                                + lrc_line(psv[i as int])->Some_0);
                        }
                    },
                    Result::Err(e) => {
                        proof {
                            assert(lrc_ps(psv.subrange(0, i + 1)) is None);
                            lemma_lrc_ps_prefix_none(psv, i + 1);
                            assert(lrc_doc(docv.subrange(0, d + 1)) is None);
                            lemma_lrc_doc_prefix_none(docv, d + 1);
                        }
                        return Err(e);
                    },
                }
                i += 1;
            }
            proof {
                assert(psv.subrange(0, psv.len() as int) =~= psv);
                assert(out@ =~= acc + out@.skip(acc.len() as int));
            }
            d += 1;
        }
        proof {
            assert(docv.subrange(0, docv.len() as int) =~= docv);
        }
        Ok(string_of(&out))
    }

    /// Extracts the word-span payload of the catalog envelope and parses
    /// it; an empty `data` array on the payload's path is missing data.
    pub fn extract_syned_lyric_xml(json: &AppleMusic) -> (r: Result<SynedLyricXML, ConvertError>)
        ensures
            synced_payload(*json) is None ==> (r matches Err(e) && e == ConvertError::MissingData),
            parsed_synced(*json) is Some ==> (r matches Ok(doc) && Some(doc.deep_view())
                == parsed_synced(*json)),
            synced_payload(*json) is Some && parsed_synced(*json) is None ==> (r matches Err(e)
                && e is Parse),
    {
        if json.data.len() == 0 {
            return Err(ConvertError::MissingData);
        }
        let data = &json.data[0];
        if data.relationships.syllable_lyrics.data.len() == 0 {
            return Err(ConvertError::MissingData);
        }
        parse_synced(data.relationships.syllable_lyrics.data[0].attributes.ttml.as_str())
    }

    /// Extracts the plain-line payload of the catalog envelope and parses
    /// it; an empty `data` array on the payload's path is missing data.
    pub fn extract_lyric_xml(json: &AppleMusic) -> (r: Result<LyricXML, ConvertError>)
        ensures
            plain_payload(*json) is None ==> (r matches Err(e) && e == ConvertError::MissingData),
            parsed_plain(*json) is Some ==> (r matches Ok(doc) && Some(doc.deep_view())
                == parsed_plain(*json)),
            plain_payload(*json) is Some && parsed_plain(*json) is None ==> (r matches Err(e)
                && e is Parse),
    {
        if json.data.len() == 0 {
            return Err(ConvertError::MissingData);
        }
        let data = &json.data[0];
        if data.relationships.lyrics.data.len() == 0 {
            return Err(ConvertError::MissingData);
        }
        parse_plain(data.relationships.lyrics.data[0].attributes.ttml.as_str())
    }

    /// Converts a catalog envelope to the timeline output. The plain
    /// payload is extracted and parsed only when `space` asks for
    /// alignment: without it, an absent or malformed plain payload causes
    /// no error. With `space` the words are aligned against the plain
    /// lines and may gain trailing spaces.
    pub fn extract_lyrics_to_json(envelope: &AppleMusic, space: bool) -> (r: Result<
        LyricsJSON,
        ConvertError,
    >)
        ensures
            synced_payload(*envelope) is None ==> (r matches Err(e) && e
                == ConvertError::MissingData),
            synced_payload(*envelope) is Some && parsed_synced(*envelope) is None ==> (
            r matches Err(e) && e is Parse),
            !space && parsed_synced(*envelope) is Some && timeline_of_doc(
                parsed_synced(*envelope)->Some_0,
            ) is Some ==> (r matches Ok(out) && Some(out.deep_view()) == timeline_of_doc(
                parsed_synced(*envelope)->Some_0,
            )),
            !space && parsed_synced(*envelope) is Some && timeline_of_doc(
                parsed_synced(*envelope)->Some_0,
            ) is None ==> (r matches Err(e) && e == ConvertError::StructuralError),
            space && parsed_synced(*envelope) is Some && plain_payload(*envelope) is None ==> (
            r matches Err(e) && e == ConvertError::MissingData),
            space && parsed_synced(*envelope) is Some && plain_payload(*envelope) is Some
                && parsed_plain(*envelope) is None ==> (r matches Err(e) && e is Parse),
            space && parsed_synced(*envelope) is Some && parsed_plain(*envelope) is Some
                && timeline_spaced_doc(
                parsed_synced(*envelope)->Some_0,
                parsed_plain(*envelope)->Some_0,
            ) is Some ==> (r matches Ok(out) && Some(out.deep_view()) == timeline_spaced_doc(
                parsed_synced(*envelope)->Some_0,
                parsed_plain(*envelope)->Some_0,
            )),
            space && parsed_synced(*envelope) is Some && parsed_plain(*envelope) is Some
                && timeline_spaced_doc(
                parsed_synced(*envelope)->Some_0,
                parsed_plain(*envelope)->Some_0,
            ) is None ==> (r matches Err(e) && e == ConvertError::StructuralError),
    {
        let synced_lyric_xml = match Self::extract_syned_lyric_xml(envelope) {
            Ok(doc) => doc,
            Err(e) => {
                return Err(e);
            },
        };
        if space {
            let lyric_xml = match Self::extract_lyric_xml(envelope) {
                Ok(doc) => doc,
                Err(e) => {
                    return Err(e);
                },
            };
            Self::convert_to_json_with_space(&synced_lyric_xml, &lyric_xml)
        } else {
            Self::convert_to_json(&synced_lyric_xml)
        }
    }

    /// Converts a catalog envelope to the timestamped-text output; only
    /// the word-span payload is extracted.
    pub fn extract_lyrics_to_lrc(envelope: &AppleMusic) -> (r: Result<String, ConvertError>)
        ensures
            synced_payload(*envelope) is None ==> (r matches Err(e) && e
                == ConvertError::MissingData),
            synced_payload(*envelope) is Some && parsed_synced(*envelope) is None ==> (
            r matches Err(e) && e is Parse),
            parsed_synced(*envelope) is Some && lrc_doc(parsed_synced(*envelope)->Some_0)
                is Some ==> (r matches Ok(s) && Some(s@) == lrc_doc(
                parsed_synced(*envelope)->Some_0,
            )),
            parsed_synced(*envelope) is Some && lrc_doc(parsed_synced(*envelope)->Some_0)
                is None ==> (r matches Err(e) && e == ConvertError::StructuralError),
    {
        let synced_lyric_xml = match Self::extract_syned_lyric_xml(envelope) {
            Ok(doc) => doc,
            Err(e) => {
                return Err(e);
            },
        };
        Self::convert_to_lrc(&synced_lyric_xml)
    }
}

} // verus!
