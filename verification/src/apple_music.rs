use vstd::prelude::*;

verus! {

/// The catalog envelope handed over by the external catalog lookup: a
/// `data` array whose first element's relationships carry the two raw
/// timed-text payloads.
pub struct AppleMusic {
    pub data: Vec<AppleMusicData>,
}

/// One element of the envelope's `data` array.
pub struct AppleMusicData {
    pub relationships: Relationships,
}

/// The two lyric relationships of an envelope element: `syllable_lyrics`
/// holds the word-span markup, `lyrics` the plain-line markup.
pub struct Relationships {
    pub syllable_lyrics: Lyrics,
    pub lyrics: Lyrics,
}

/// One lyric relationship: a `data` array of lyric payloads.
pub struct Lyrics {
    pub href: String,
    pub data: Vec<LyricsDatum>,
}

/// One lyric payload of a relationship's `data` array.
pub struct LyricsDatum {
    pub id: String,
    pub datum_type: String,
    pub attributes: TentacledAttributes,
}

/// The attributes of a lyric payload: the raw timed-text markup string.
pub struct TentacledAttributes {
    pub ttml: String,
}

} // verus!
