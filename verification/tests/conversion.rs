use vocasync::apple_music::{
    AppleMusic, AppleMusicData, Lyrics, LyricsDatum, Relationships, TentacledAttributes,
};
use vocasync::response_handler::Response;
use vocasync::synced_lyric_xml::{Body, Div, Span, SynedLyricXML, P};
use vocasync::ConvertError;

fn leaf(begin: &str, end: &str, word: &str) -> Span {
    Span {
        begin: Some(begin.to_string()),
        end: Some(end.to_string()),
        word: Some(word.to_string()),
        span: None,
    }
}

fn group(children: Vec<Span>) -> Span {
    Span { begin: None, end: None, word: None, span: Some(children) }
}

fn one_line_doc(begin: &str, end: &str, spans: Vec<Span>) -> SynedLyricXML {
    SynedLyricXML {
        body: Body {
            div: vec![Div {
                p: vec![P { begin: begin.to_string(), end: end.to_string(), span: spans }],
            }],
        },
    }
}

fn envelope(synced: &str, plain: &str) -> AppleMusic {
    let payload = |ttml: &str| Lyrics {
        href: String::new(),
        data: vec![LyricsDatum {
            id: String::new(),
            datum_type: String::new(),
            attributes: TentacledAttributes { ttml: ttml.to_string() },
        }],
    };
    AppleMusic {
        data: vec![AppleMusicData {
            relationships: Relationships {
                syllable_lyrics: payload(synced),
                lyrics: payload(plain),
            },
        }],
    }
}

#[test]
fn timestamps_are_normalized_to_canonical_form() {
    assert_eq!(Response::convert_time_to_lrc_format("0:12.345"), "00:12.34");
    assert_eq!(Response::convert_time_to_lrc_format("1:02:03.4"), "02:03.4");
    assert_eq!(Response::convert_time_to_lrc_format("5"), "00:05.");
}

#[test]
fn timestamp_normalization_edge_cases() {
    assert_eq!(Response::convert_time_to_lrc_format(""), "00:00.");
    assert_eq!(Response::convert_time_to_lrc_format("1:23"), "01:00.23");
    assert_eq!(Response::convert_time_to_lrc_format(".5"), "00:00.5");
    assert_eq!(Response::convert_time_to_lrc_format("12."), "00:12.");
    assert_eq!(Response::convert_time_to_lrc_format("1:02.3456"), "01:02.34");
    assert_eq!(Response::convert_time_to_lrc_format("00:01.50"), "00:01.50");
}

#[test]
fn classifier_splits_foreground_and_background_in_document_order() {
    let doc = one_line_doc(
        "00:01.00",
        "00:05.00",
        vec![
            leaf("00:01.00", "00:02.00", "first"),
            leaf("00:02.00", "00:03.00", "second"),
            group(vec![
                leaf("00:03.00", "00:03.50", "back1"),
                leaf("00:03.50", "00:04.00", "back2"),
            ]),
        ],
    );
    let lyrics = Response::convert_to_json(&doc).unwrap();
    assert_eq!(lyrics.lines.len(), 1);
    let line = &lyrics.lines[0];
    assert_eq!(line.words.len(), 2);
    assert_eq!(line.background.len(), 2);
    assert_eq!(line.words[0].text, "first");
    assert_eq!(line.words[1].text, "second");
    assert_eq!(line.background[0].text, "back1");
    assert_eq!(line.background[1].text, "back2");
    assert_eq!(line.begin, "00:01.00");
    assert_eq!(line.words[0].begin, "00:01.00");
    assert_eq!(line.words[0].end, "00:02.00");
}

#[test]
fn aligner_restores_spaces_from_plain_text() {
    let plain: Vec<char> = "I love you".chars().collect();
    let mut cursor: usize = 0;

    let mut w1: Vec<char> = "I".chars().collect();
    Response::add_spaces(&plain, &mut cursor, &mut w1);
    assert_eq!(w1.iter().collect::<String>(), "I ");

    let mut w2: Vec<char> = "love".chars().collect();
    Response::add_spaces(&plain, &mut cursor, &mut w2);
    assert_eq!(w2.iter().collect::<String>(), "love ");

    let mut w3: Vec<char> = "you".chars().collect();
    Response::add_spaces(&plain, &mut cursor, &mut w3);
    assert_eq!(w3.iter().collect::<String>(), "you");
    assert_eq!(cursor, plain.len());
}

#[test]
fn aligner_skips_mismatches_without_error() {
    let plain: Vec<char> = "ab cd".chars().collect();
    let mut cursor: usize = 0;
    let mut w: Vec<char> = "axb".chars().collect();
    Response::add_spaces(&plain, &mut cursor, &mut w);
    assert_eq!(w.iter().collect::<String>(), "axb ");
    assert_eq!(cursor, 3);
}

#[test]
fn spaced_conversion_aligns_words_against_plain_lines() {
    let synced =
        "<tt><body><div><p begin=\"0:01.00\" end=\"0:04.00\">\
         <span begin=\"0:01.00\" end=\"0:02.00\">I</span>\
         <span begin=\"0:02.00\" end=\"0:03.00\">love</span>\
         <span begin=\"0:03.00\" end=\"0:04.00\">you</span>\
         </p></div></body></tt>";
    let plain =
        "<tt><body><div><p begin=\"0:01.00\" end=\"0:04.00\">I love you</p></div></body></tt>";
    let lyrics = Response::extract_lyrics_to_json(&envelope(synced, plain), true).unwrap();
    assert_eq!(lyrics.lines.len(), 1);
    let line = &lyrics.lines[0];
    assert_eq!(line.words[0].text, "I ");
    assert_eq!(line.words[1].text, "love ");
    assert_eq!(line.words[2].text, "you");
}

#[test]
fn lrc_line_format_keeps_trailing_space() {
    let doc = one_line_doc(
        "00:01.50",
        "00:03.00",
        vec![leaf("00:01.50", "00:02.00", "La"), leaf("00:02.00", "00:03.00", "la")],
    );
    let lrc = Response::convert_to_lrc(&doc).unwrap();
    assert_eq!(lrc, "[00:01.50] <00:01.50> La <00:02.00> la \n");
}

#[test]
fn lrc_ignores_a_missing_end_attribute() {
    let mut span = leaf("00:01.50", "00:02.00", "La");
    span.end = None;
    let doc = one_line_doc("00:01.50", "00:03.00", vec![span]);
    let lrc = Response::convert_to_lrc(&doc).unwrap();
    assert_eq!(lrc, "[00:01.50] <00:01.50> La \n");

    let mut span2 = leaf("00:01.50", "00:02.00", "La");
    span2.end = None;
    let doc2 = one_line_doc("00:01.50", "00:03.00", vec![span2]);
    assert_eq!(Response::convert_to_json(&doc2).unwrap_err(), ConvertError::StructuralError);
}

#[test]
fn leaf_missing_text_is_a_structural_error() {
    let mut span = leaf("00:01.50", "00:02.00", "La");
    span.word = None;
    let doc = one_line_doc("00:01.50", "00:03.00", vec![span]);
    assert_eq!(Response::convert_to_json(&doc).unwrap_err(), ConvertError::StructuralError);
    let mut span2 = leaf("00:01.50", "00:02.00", "La");
    span2.word = None;
    let doc2 = one_line_doc("00:01.50", "00:03.00", vec![span2]);
    assert_eq!(Response::convert_to_lrc(&doc2).unwrap_err(), ConvertError::StructuralError);
}

#[test]
fn nesting_below_a_group_is_a_structural_error() {
    let nested = Span {
        begin: Some("00:01.00".to_string()),
        end: Some("00:02.00".to_string()),
        word: Some("deep".to_string()),
        span: Some(vec![leaf("00:01.00", "00:02.00", "deeper")]),
    };
    let doc = one_line_doc("00:01.00", "00:02.00", vec![group(vec![nested])]);
    assert_eq!(Response::convert_to_json(&doc).unwrap_err(), ConvertError::StructuralError);
}

#[test]
fn conversion_twice_is_byte_identical() {
    let synced =
        "<tt><body><div><p begin=\"0:01.50\" end=\"0:03.00\">\
         <span begin=\"0:01.50\" end=\"0:02.00\">La</span>\
         <span begin=\"0:02.00\" end=\"0:03.00\">la</span>\
         </p></div></body></tt>";
    let plain =
        "<tt><body><div><p begin=\"0:01.50\" end=\"0:03.00\">La la</p></div></body></tt>";
    let env = envelope(synced, plain);
    let first = Response::extract_lyrics_to_lrc(&env).unwrap();
    let second = Response::extract_lyrics_to_lrc(&env).unwrap();
    assert_eq!(first.as_bytes(), second.as_bytes());

    let t1 = Response::extract_lyrics_to_json(&env, true).unwrap();
    let t2 = Response::extract_lyrics_to_json(&env, true).unwrap();
    assert_eq!(t1.lines.len(), t2.lines.len());
    assert_eq!(t1.lines[0].words.len(), t2.lines[0].words.len());
    assert_eq!(t1.lines[0].words[0].text, t2.lines[0].words[0].text);
    assert_eq!(t1.lines[0].words[0].begin, t2.lines[0].words[0].begin);
}

#[test]
fn empty_syllable_data_is_missing_data() {
    let plain =
        "<tt><body><div><p begin=\"0:01.50\" end=\"0:03.00\">La la</p></div></body></tt>";
    let mut env = envelope("unused", plain);
    env.data[0].relationships.syllable_lyrics.data.clear();
    assert_eq!(
        Response::extract_lyrics_to_json(&env, false).unwrap_err(),
        ConvertError::MissingData
    );
    assert_eq!(Response::extract_lyrics_to_lrc(&env).unwrap_err(), ConvertError::MissingData);
}

#[test]
fn empty_envelope_data_is_missing_data() {
    let env = AppleMusic { data: vec![] };
    assert_eq!(
        Response::extract_lyrics_to_json(&env, false).unwrap_err(),
        ConvertError::MissingData
    );
    assert_eq!(Response::extract_lyrics_to_lrc(&env).unwrap_err(), ConvertError::MissingData);
}

#[test]
fn plain_payload_is_ignored_without_alignment() {
    let synced =
        "<tt><body><div><p begin=\"0:01.50\" end=\"0:03.00\">\
         <span begin=\"0:01.50\" end=\"0:02.00\">La</span>\
         </p></div></body></tt>";

    let mut empty_plain = envelope(synced, "unused");
    empty_plain.data[0].relationships.lyrics.data.clear();
    let lyrics = Response::extract_lyrics_to_json(&empty_plain, false).unwrap();
    assert_eq!(lyrics.lines.len(), 1);
    assert_eq!(lyrics.lines[0].words[0].text, "La");

    let bad_plain = envelope(synced, "<tt><body><div>");
    let lyrics = Response::extract_lyrics_to_json(&bad_plain, false).unwrap();
    assert_eq!(lyrics.lines.len(), 1);
}

#[test]
fn alignment_requires_the_plain_payload() {
    let synced =
        "<tt><body><div><p begin=\"0:01.50\" end=\"0:03.00\">\
         <span begin=\"0:01.50\" end=\"0:02.00\">La</span>\
         </p></div></body></tt>";

    let mut empty_plain = envelope(synced, "unused");
    empty_plain.data[0].relationships.lyrics.data.clear();
    assert_eq!(
        Response::extract_lyrics_to_json(&empty_plain, true).unwrap_err(),
        ConvertError::MissingData
    );

    let bad_plain = envelope(synced, "<tt><body><div>");
    assert!(matches!(
        Response::extract_lyrics_to_json(&bad_plain, true).unwrap_err(),
        ConvertError::Parse(_)
    ));
}

#[test]
fn malformed_markup_is_a_parse_error() {
    let plain =
        "<tt><body><div><p begin=\"0:01.50\" end=\"0:03.00\">La la</p></div></body></tt>";
    let env = envelope("<tt><body><div>", plain);
    assert!(matches!(
        Response::extract_lyrics_to_lrc(&env).unwrap_err(),
        ConvertError::Parse(_)
    ));
}
