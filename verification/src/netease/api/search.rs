//! Searching for songs.

use crate::json::{Json, JsonView};
use crate::netease::client::{ensure_ok, envelope_code, envelope_message};
use crate::netease::error::{NeteaseErr, NeteaseErrView};
use crate::text::{join, joined, views};
use vstd::prelude::*;

verus! {

/// Path of the search endpoint.
pub const PATH: &'static str = "cloudsearch/pc";

/// What a query is searching for. Only songs have a typed result; the rest hold
/// the numbers.
#[derive(Debug, Clone, Copy, PartialEq, Eq, Hash, Structural)]
pub enum SearchType {
    Song,
    Album,
    Artist,
    Playlist,
    User,
    Mv,
    /// Matches inside lyrics, but still returns songs.
    Lyrics,
    /// Radio and podcast channels.
    Radio,
    Video,
    /// Everything at once.
    Comprehensive,
}

impl Default for SearchType {
    fn default() -> (r: Self)
        ensures
            r == SearchType::Song,
    {
        SearchType::Song
    }
}

impl SearchType {
    /// The number that stands for this in a request.
    pub open spec fn number(self) -> int {
        match self {
            SearchType::Song => 1,
            SearchType::Album => 10,
            SearchType::Artist => 100,
            SearchType::Playlist => 1000,
            SearchType::User => 1002,
            SearchType::Mv => 1004,
            SearchType::Lyrics => 1006,
            SearchType::Radio => 1009,
            SearchType::Video => 1014,
            SearchType::Comprehensive => 1018,
        }
    }

    /// The number that stands for this in a request.
    pub fn code(self) -> (r: u32)
        ensures
            r == self.number(),
    {
        match self {
            SearchType::Song => 1,
            SearchType::Album => 10,
            SearchType::Artist => 100,
            SearchType::Playlist => 1000,
            SearchType::User => 1002,
            SearchType::Mv => 1004,
            SearchType::Lyrics => 1006,
            SearchType::Radio => 1009,
            SearchType::Video => 1014,
            SearchType::Comprehensive => 1018,
        }
    }

    /// The name of this.
    pub open spec fn named(self) -> Seq<char> {
        match self {
            SearchType::Song => "Song"@,
            SearchType::Album => "Album"@,
            SearchType::Artist => "Artist"@,
            SearchType::Playlist => "Playlist"@,
            SearchType::User => "User"@,
            SearchType::Mv => "Mv"@,
            SearchType::Lyrics => "Lyrics"@,
            SearchType::Radio => "Radio"@,
            SearchType::Video => "Video"@,
            SearchType::Comprehensive => "Comprehensive"@,
        }
    }

    /// The name of this.
    pub fn name(self) -> (r: &'static str)
        ensures
            r@ == self.named(),
    {
        match self {
            SearchType::Song => "Song",
            SearchType::Album => "Album",
            SearchType::Artist => "Artist",
            SearchType::Playlist => "Playlist",
            SearchType::User => "User",
            SearchType::Mv => "Mv",
            SearchType::Lyrics => "Lyrics",
            SearchType::Radio => "Radio",
            SearchType::Video => "Video",
            SearchType::Comprehensive => "Comprehensive",
        }
    }
}

/// One search request.
#[derive(Debug, Clone, PartialEq, Eq)]
pub struct SearchQuery {
    /// Free text, matched against title, artist and album at once.
    pub keywords: String,
    pub kind: SearchType,
    pub limit: u32,
    pub offset: u32,
}

impl SearchQuery {
    /// A song search for `keywords` with the web player's defaults.
    pub fn new(keywords: &str) -> (r: Self)
        ensures
            r.keywords@ == keywords@,
            r.kind == SearchType::Song,
            r.limit == 30,
            r.offset == 0,
    {
        Self { keywords: keywords.to_owned(), kind: SearchType::Song, limit: 30, offset: 0 }
    }

    /// Search for something other than songs.
    pub fn kind(self, kind: SearchType) -> (r: Self)
        ensures
            r == (SearchQuery { kind, ..self }),
    {
        Self { keywords: self.keywords, kind, limit: self.limit, offset: self.offset }
    }

    pub fn limit(self, limit: u32) -> (r: Self)
        ensures
            r == (SearchQuery { limit, ..self }),
    {
        Self { keywords: self.keywords, kind: self.kind, limit, offset: self.offset }
    }

    pub fn offset(self, offset: u32) -> (r: Self)
        ensures
            r == (SearchQuery { offset, ..self }),
    {
        Self { keywords: self.keywords, kind: self.kind, limit: self.limit, offset }
    }

    /// The request body, before encryption.
    pub fn payload(&self) -> (r: Json)
        ensures
            r@ == JsonView::empty().with("s"@, JsonView::Str(self.keywords@)).with(
                "type"@,
                JsonView::Int(self.kind.number()),
            ).with("limit"@, JsonView::Int(self.limit as int)).with(
                "offset"@,
                JsonView::Int(self.offset as int),
            ).with("total"@, JsonView::Bool(true)),
    {
        Json::empty().with("s", Json::string(self.keywords.as_str())).with(
            "type",
            Json::Int(self.kind.code() as i64),
        ).with("limit", Json::Int(self.limit as i64)).with(
            "offset",
            Json::Int(self.offset as i64),
        ).with("total", Json::Bool(true))
    }
}

/// An artist as it appears in a song.
#[derive(Debug, Clone, PartialEq, Eq)]
pub struct Artist {
    pub id: u64,
    pub name: String,
}

impl Default for Artist {
    fn default() -> (r: Self)
        ensures
            r.id == 0,
            r.name@.len() == 0,
    {
        Artist { id: 0, name: String::new() }
    }
}

/// A song's album.
#[derive(Debug, Clone, PartialEq, Eq)]
pub struct Album {
    pub id: u64,
    pub name: String,
    pub pic_url: Option<String>,
}

impl Default for Album {
    fn default() -> (r: Self)
        ensures
            r.id == 0,
            r.name@.len() == 0,
            r.pic_url is None,
    {
        Album { id: 0, name: String::new(), pic_url: None }
    }
}

/// A song in a search result.
#[derive(Debug, Clone, PartialEq, Eq)]
pub struct Song {
    pub id: u64,
    pub name: String,
    /// Every credited artist, in billing order.
    pub artists: Vec<Artist>,
    pub album: Option<Album>,
    /// Duration in milliseconds.
    pub duration_ms: u64,
    /// Not zero when this is a cloud-disk copy of another song.
    pub pst: i64,
}

impl Default for Song {
    fn default() -> (r: Self)
        ensures
            r.id == 0,
            r.name@.len() == 0,
            r.artists@.len() == 0,
            r.album is None,
            r.duration_ms == 0,
            r.pst == 0,
    {
        Song {
            id: 0,
            name: String::new(),
            artists: Vec::new(),
            album: None,
            duration_ms: 0,
            pst: 0,
        }
    }
}

/// The names of `artists`.
pub open spec fn names(artists: Seq<Artist>) -> Seq<Seq<char>> {
    artists.map_values(|a: Artist| a.name@)
}

impl Song {
    /// Artists joined the way NetEase's own player joins them.
    pub fn artist_names(&self) -> (r: String)
        ensures
            r@ == joined(names(self.artists@), " / "@),
    {
        let mut list: Vec<String> = Vec::new();
        let mut i: usize = 0;
        while i < self.artists.len()
            invariant
                i <= self.artists@.len(),
                list@.len() == i,
                forall|k: int| 0 <= k < i ==> (#[trigger] list@[k])@ == self.artists@[k].name@,
            decreases self.artists@.len() - i,
        {
            list.push(self.artists[i].name.clone());
            i += 1;
        }
        assert(views(list@) =~= names(self.artists@));
        join(&list, " / ")
    }

    /// Duration in milliseconds.
    pub fn duration(&self) -> (r: u64)
        ensures
            r == self.duration_ms,
    {
        self.duration_ms
    }
}

/// The result of a song search.
#[derive(Debug, Clone, PartialEq, Eq)]
pub struct SongSearchResult {
    pub songs: Vec<Song>,
    /// Total matches across all pages.
    pub song_count: u64,
}

impl Default for SongSearchResult {
    fn default() -> (r: Self)
        ensures
            r.songs@.len() == 0,
            r.song_count == 0,
    {
        SongSearchResult { songs: Vec::new(), song_count: 0 }
    }
}

/// The reply to a song search.
#[derive(Debug, Clone, PartialEq, Eq)]
pub struct SongSearchResponse {
    pub code: i64,
    /// Absent when nothing matched at all.
    pub result: Option<SongSearchResult>,
}

impl Default for SongSearchResponse {
    fn default() -> (r: Self)
        ensures
            r.code == 0,
            r.result is None,
    {
        SongSearchResponse { code: 0, result: None }
    }
}

/// Whether a query can have a typed result. Other types come back in a shape that
/// would silently read as empty, so they are refused before anything is sent.
pub fn check_kind(query: &SearchQuery) -> (r: Result<(), NeteaseErr>)
    ensures
        match r {
            Ok(_) => query.kind == SearchType::Song || query.kind == SearchType::Lyrics,
            Err(e) => query.kind != SearchType::Song && query.kind != SearchType::Lyrics && e@
                == NeteaseErrView::BadRequest(
                "search type "@ + query.kind.named() + " does not return songs; use search_raw"@,
            ),
        },
{
    if query.kind != SearchType::Song && query.kind != SearchType::Lyrics {
        let mut message = "search type ".to_owned();
        message.append(query.kind.name());
        message.append(" does not return songs; use search_raw");
        return Err(NeteaseErr::BadRequest(message));
    }
    Ok(())
}

/// The document that a search came back with, unless its envelope reports an
/// error.
pub fn search_raw(value: Json) -> (r: Result<Json, NeteaseErr>)
    ensures
        match r {
            Ok(doc) => doc == value && (envelope_code(value@) is None || envelope_code(value@)
                == Some(200int)),
            Err(e) => envelope_code(value@) matches Some(code) && code != 200 && e@
                == (NeteaseErrView::Api { code, message: envelope_message(value@) }),
        },
{
    match ensure_ok(&value) {
        Ok(_) => Ok(value),
        Err(e) => Err(e),
    }
}

/// The result of a reply. No match is an empty result, not an error.
pub fn search_songs_full(response: SongSearchResponse) -> (r: SongSearchResult)
    ensures
        match response.result {
            Some(result) => r == result,
            None => r.songs@.len() == 0 && r.song_count == 0,
        },
{
    match response.result {
        Some(result) => result,
        None => SongSearchResult::default(),
    }
}

/// The songs of a reply.
pub fn search_songs(response: SongSearchResponse) -> (r: Vec<Song>)
    ensures
        match response.result {
            Some(result) => r == result.songs,
            None => r@.len() == 0,
        },
{
    search_songs_full(response).songs
}

/// Each kind of search has a name of its own, and the number by which the service knows it.
pub proof fn each_kind_of_search_has_its_number(a: SearchType, b: SearchType)
    ensures
        a.number() == b.number() <==> a == b,
        a.named() == b.named() <==> a == b,
        a.number() == 1 <==> a == SearchType::Song,
        a.number() == 10 <==> a == SearchType::Album,
        a.number() == 100 <==> a == SearchType::Artist,
        a.number() == 1000 <==> a == SearchType::Playlist,
        a.number() == 1002 <==> a == SearchType::User,
        a.number() == 1004 <==> a == SearchType::Mv,
        a.number() == 1006 <==> a == SearchType::Lyrics,
        a.number() == 1009 <==> a == SearchType::Radio,
        a.number() == 1014 <==> a == SearchType::Video,
        a.number() == 1018 <==> a == SearchType::Comprehensive,
{
    reveal_strlit("Song");
    reveal_strlit("Album");
    reveal_strlit("Artist");
    reveal_strlit("Playlist");
    reveal_strlit("User");
    reveal_strlit("Mv");
    reveal_strlit("Lyrics");
    reveal_strlit("Radio");
    reveal_strlit("Video");
    reveal_strlit("Comprehensive");
    assert("Song"@.len() == 4 && "User"@.len() == 4 && "Song"@[0] != "User"@[0]);
    assert("Album"@.len() == 5 && "Radio"@.len() == 5 && "Video"@.len() == 5);
    assert("Album"@[0] != "Radio"@[0] && "Album"@[0] != "Video"@[0]);
    assert("Radio"@[0] != "Video"@[0]);
    assert("Artist"@.len() == 6 && "Lyrics"@.len() == 6 && "Artist"@[0] != "Lyrics"@[0]);
    assert("Playlist"@.len() == 8 && "Mv"@.len() == 2 && "Comprehensive"@.len() == 13);
}

/// The names of the artists are each artist's own, in order.
pub proof fn every_artist_is_named(artists: Seq<Artist>)
    ensures
        names(artists).len() == artists.len(),
        forall|i: int| 0 <= i < artists.len() ==> #[trigger] names(artists)[i] == artists[i].name@,
{
}

} // verus!
