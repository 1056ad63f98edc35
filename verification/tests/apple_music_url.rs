use vocasync::apple_music_url::Request;

#[test]
fn get_song_id_test() {
    let url_a = "https://music.apple.com/hk/album/%e7%84%a1%e7%ad%94%e6%a1%88/1729188120?i=1729188121&l=en-gb";
    let url_b = "https://music.apple.com/hk/album/%e7%84%a1%e7%ad%94%e6%a1%88/1729188120?i=1729188121&l=zh-hant-tw";
    assert_eq!("1729188121", Request::get_song_id(url_a));
    assert_eq!("1729188121", Request::get_song_id(url_b));
}

#[test]
fn get_song_id_test_empty() {
    assert_eq!("", Request::get_song_id(""));
    assert_eq!("", Request::get_song_id("https://music.apple.com/hk/album/%e7%84%a1%e7%ad%94%e6%a1%88/1729188120?i=&l=zh-hant-tw"));
    assert_eq!("", Request::get_song_id("https://music.apple.com/hk/album/%e7%84%a1%e7%ad%94%e6%a1%88/1729188120?l=zh-hant-tw"));
}

#[test]
fn lyrics_url_is_built_from_storefront_and_song() {
    let mut request = Request::new("Bearer token".to_string(), "user".to_string());
    request.storefront = "hk".to_string();
    assert_eq!(
        request.create_lyrics_url("1729188121"),
        "https://amp-api.music.apple.com/v1/catalog/hk/songs/1729188121?include[songs]=albums,lyrics,syllable-lyrics"
    );
}

#[test]
fn search_url_joins_song_and_artist_with_a_space() {
    let mut request = Request::new(String::new(), String::new());
    request.storefront = "us".to_string();
    assert_eq!(
        request.create_search_url("Song", "Artist"),
        "https://amp-api-edge.music.apple.com/v1/catalog/us/search?limit=5&platform=web&term=Song Artist&with=serverBubbles&types=songs%2Cactivities"
    );
}

#[test]
fn new_request_has_empty_storefront() {
    let request = Request::new("auth".to_string(), "token".to_string());
    assert_eq!(request.authorization, "auth");
    assert_eq!(request.user_token, "token");
    assert_eq!(request.storefront, "");
}
