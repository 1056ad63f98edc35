use vocasync::ttml_parser::{parse_plain, parse_synced};
use vocasync::ConvertError;

#[test]
fn parses_synced_markup_with_prolog_head_and_entities() {
    let text = "<?xml version=\"1.0\" encoding=\"UTF-8\"?>\n\
        <tt xmlns=\"http://www.w3.org/ns/ttml\">\n\
        <head><metadata><title>ignored</title></metadata></head>\n\
        <body dur=\"0:30.000\">\n\
        <div begin=\"0:01.00\" end=\"0:10.00\">\n\
        <p begin=\"0:01.00\" end=\"0:05.00\">\
        <span begin=\"0:01.00\" end=\"0:02.00\">rock</span> \
        <span begin=\"0:02.00\" end=\"0:03.00\">&amp;</span> \
        <span><span begin=\"0:03.00\" end=\"0:04.00\">roll</span></span>\
        </p>\n\
        </div>\n\
        </body>\n\
        </tt>\n";
    let doc = parse_synced(text).unwrap();
    assert_eq!(doc.body.div.len(), 1);
    assert_eq!(doc.body.div[0].p.len(), 1);
    let p = &doc.body.div[0].p[0];
    assert_eq!(p.begin, "0:01.00");
    assert_eq!(p.end, "0:05.00");
    assert_eq!(p.span.len(), 3);
    assert_eq!(p.span[0].word.as_deref(), Some("rock"));
    assert_eq!(p.span[0].begin.as_deref(), Some("0:01.00"));
    assert!(p.span[0].span.is_none());
    assert_eq!(p.span[1].word.as_deref(), Some("&"));
    let group = &p.span[2];
    assert!(group.word.is_none());
    let children = group.span.as_ref().unwrap();
    assert_eq!(children.len(), 1);
    assert_eq!(children[0].word.as_deref(), Some("roll"));
    assert!(children[0].span.is_none());
}

#[test]
fn parses_plain_markup_and_keeps_spacing() {
    let text = "<tt><body><div>\
        <p begin=\"0:01.00\" end=\"0:05.00\">I love  you</p>\
        <p begin=\"0:05.00\" end=\"0:09.00\">Me &amp; you</p>\
        </div></body></tt>";
    let doc = parse_plain(text).unwrap();
    assert_eq!(doc.body.div.len(), 1);
    assert_eq!(doc.body.div[0].p.len(), 2);
    assert_eq!(doc.body.div[0].p[0].line, "I love  you");
    assert_eq!(doc.body.div[0].p[1].line, "Me & you");
}

#[test]
fn self_closing_span_is_a_leaf_without_text() {
    let text = "<tt><body><div><p begin=\"0:01.00\" end=\"0:02.00\">\
        <span begin=\"0:01.00\" end=\"0:02.00\"/></p></div></body></tt>";
    let doc = parse_synced(text).unwrap();
    let span = &doc.body.div[0].p[0].span[0];
    assert!(span.word.is_none());
    assert!(span.span.is_none());
    assert_eq!(span.begin.as_deref(), Some("0:01.00"));
}

#[test]
fn unterminated_markup_is_rejected() {
    assert!(matches!(
        parse_synced("<tt><body><div>").unwrap_err(),
        ConvertError::Parse(_)
    ));
    assert!(matches!(parse_plain("").unwrap_err(), ConvertError::Parse(_)));
}

#[test]
fn wrong_root_element_is_rejected() {
    assert!(matches!(
        parse_synced("<html><body></body></html>").unwrap_err(),
        ConvertError::Parse(_)
    ));
}

#[test]
fn body_without_divisions_is_rejected() {
    assert!(matches!(
        parse_synced("<tt><body></body></tt>").unwrap_err(),
        ConvertError::Parse(_)
    ));
}

#[test]
fn line_without_begin_attribute_is_rejected() {
    assert!(matches!(
        parse_synced("<tt><body><div><p end=\"0:02.00\"></p></div></body></tt>").unwrap_err(),
        ConvertError::Parse(_)
    ));
}

#[test]
fn plain_line_without_text_is_rejected() {
    assert!(matches!(
        parse_plain("<tt><body><div><p begin=\"0:01.00\" end=\"0:02.00\"></p></div></body></tt>")
            .unwrap_err(),
        ConvertError::Parse(_)
    ));
}

#[test]
fn span_nested_below_a_group_child_is_rejected() {
    let text = "<tt><body><div><p begin=\"0:01.00\" end=\"0:02.00\">\
        <span><span begin=\"0:01.00\" end=\"0:02.00\">a<span>b</span></span></span>\
        </p></div></body></tt>";
    assert!(matches!(parse_synced(text).unwrap_err(), ConvertError::Parse(_)));
}

#[test]
fn unknown_entity_is_rejected() {
    let text = "<tt><body><div><p begin=\"0:01.00\" end=\"0:02.00\">\
        <span begin=\"0:01.00\" end=\"0:02.00\">a&copy;b</span></p></div></body></tt>";
    assert!(matches!(parse_synced(text).unwrap_err(), ConvertError::Parse(_)));
}

#[test]
fn attribute_values_may_use_single_quotes_and_entities() {
    let text = "<tt><body><div><p begin='0:01.00' end='0:02.00'>\
        <span begin='0:01.00' end='0:02.00'>don&apos;t</span></p></div></body></tt>";
    let doc = parse_synced(text).unwrap();
    assert_eq!(doc.body.div[0].p[0].span[0].word.as_deref(), Some("don't"));
}
