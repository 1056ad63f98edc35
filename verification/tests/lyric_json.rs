use vocasync::lyric_json::{Line, LyricsJSON, Word};

#[test]
fn builders_accumulate_lines_and_words() {
    let mut lyrics = LyricsJSON::new();
    let mut line = Line::new("00:01.00".to_string(), "00:02.00".to_string());
    line.add_words(Word::new("00:01.00".to_string(), "00:01.50".to_string(), "hey".to_string()));
    line.add_background(Word::new(
        "00:01.50".to_string(),
        "00:02.00".to_string(),
        "oh".to_string(),
    ));
    lyrics.add_line(line);
    assert_eq!(lyrics.lines.len(), 1);
    assert_eq!(lyrics.lines[0].begin, "00:01.00");
    assert_eq!(lyrics.lines[0].end, "00:02.00");
    assert_eq!(lyrics.lines[0].words.len(), 1);
    assert_eq!(lyrics.lines[0].words[0].text, "hey");
    assert_eq!(lyrics.lines[0].background.len(), 1);
    assert_eq!(lyrics.lines[0].background[0].text, "oh");
}
