use vstd::prelude::*;

use crate::text::chars_of;
use crate::text::string_of;
use vstd::string::StringExecFns;

verus! {

/// State of the song-id scan: whether the marker (`i`, then `=`) has been
/// matched so far, and the digits collected.
pub struct SongIdState {
    pub header: int,
    pub id: Seq<char>,
}

/// One step of the song-id scan. While the marker is fully matched,
/// digits are collected and any other character resets the scan without
/// being looked at again; otherwise an `i` arms the marker and an `=`
/// right after it completes the match.
pub open spec fn song_id_step(st: SongIdState, c: char) -> SongIdState {
    if st.header == 2 {
        if '0' <= c && c <= '9' {
            SongIdState { header: 2, id: st.id.push(c) }
        } else {
            SongIdState { header: 0, id: st.id }
        }
    } else if st.header == 1 && c == '=' {
        SongIdState { header: 2, id: st.id }
    } else if c == 'i' {
        SongIdState { header: 1, id: st.id }
    } else {
        SongIdState { header: st.header, id: st.id }
    }
}

/// The scan state after reading all of `s`, left to right.
pub open spec fn song_id_scan(s: Seq<char>) -> SongIdState
    decreases s.len(),
{
    if s.len() == 0 {
        SongIdState { header: 0, id: Seq::empty() }
    } else {
        song_id_step(song_id_scan(s.drop_last()), s.last())
    }
}

/// A catalog request in the making: the caller's credentials and the
/// storefront, empty until looked up.
#[derive(Debug, Clone)]
pub struct Request {
    pub authorization: String,
    pub user_token: String,
    pub storefront: String,
}

impl Request {
    /// A request with the given credentials and no storefront yet.
    pub fn new(authorization: String, user_token: String) -> (r: Self)
        ensures
            r.authorization@ == authorization@,
            r.user_token@ == user_token@,
            r.storefront@ == Seq::<char>::empty(),
    {
        Self { authorization, user_token, storefront: String::new() }
    }

    /// The digits standing after every `i=` marker of the url,
    /// concatenated: for a catalog song link, the song identifier of its
    /// `?i=` query parameter.
    pub fn get_song_id(url: &str) -> (r: String)
        ensures
            r@ == song_id_scan(url@).id,
    {
        let cs = chars_of(url);
        let mut match_header: i8 = 0;
        let mut id: Vec<char> = Vec::new();
        let mut i: usize = 0;
        while i < cs.len()
            invariant
                i <= cs.len(),
                cs@ == url@,
                match_header as int == song_id_scan(url@.subrange(0, i as int)).header,
                id@ == song_id_scan(url@.subrange(0, i as int)).id,
            decreases cs.len() - i,
        {
            let c = cs[i];
            if match_header == 2 {
                if '0' <= c && c <= '9' {
                    id.push(c);
                } else {
                    match_header = 0;
                }
            } else if match_header == 1 && c == '=' {
                match_header = 2;
            } else if c == 'i' {
                match_header = 1;
            }
            i += 1;
            proof {
                let pre = url@.subrange(0, i - 1);
                let cur = url@.subrange(0, i as int);
                assert(cur.drop_last() =~= pre);
                assert(cur.last() == url@[i - 1]);
            }
        }
        proof {
            assert(url@.subrange(0, url@.len() as int) =~= url@);
        }
        string_of(&id)
    }

    /// The catalog lyrics-lookup url for a song of this storefront.
    pub fn create_lyrics_url(&self, song_id: &str) -> (r: String)
        ensures
            r@ == "https://amp-api.music.apple.com/v1/catalog/"@ + self.storefront@ + "/songs/"@
                + song_id@ + "?include[songs]=albums,lyrics,syllable-lyrics"@,
    {
        let mut url = String::from_str("https://amp-api.music.apple.com/v1/catalog/");
        url.append(self.storefront.as_str());
        url.append("/songs/");
        url.append(song_id);
        url.append("?include[songs]=albums,lyrics,syllable-lyrics");
        url
    }

    /// The catalog search url for a song and artist of this storefront;
    /// the search term is the song name and the artist name joined by one
    /// space.
    pub fn create_search_url(&self, song_name: &str, artist_name: &str) -> (r: String)
        ensures
            r@ == "https://amp-api-edge.music.apple.com/v1/catalog/"@ + self.storefront@
                + "/search?limit=5&platform=web&term="@ + song_name@ + " "@ + artist_name@
                + "&with=serverBubbles&types=songs%2Cactivities"@,
    {
        let mut url = String::from_str("https://amp-api-edge.music.apple.com/v1/catalog/");
        url.append(self.storefront.as_str());
        url.append("/search?limit=5&platform=web&term=");
        url.append(song_name);
        url.append(" ");
        url.append(artist_name);
        url.append("&with=serverBubbles&types=songs%2Cactivities");
        url
    }
}

} // verus!
