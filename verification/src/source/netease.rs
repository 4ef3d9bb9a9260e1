//! NetEase Cloud Music as a source.
//!
//! A resolved URL is dead after about 20 minutes, so the speaker is never handed
//! one. It is handed a proxy URL on our own server, which resolves just in time.

use crate::brain::error::{BrainErr, BrainErrView};
use crate::brain::traits::{track_views, Playable, PlayableView, Track, TrackView};
use crate::decimal::{
    dec, dec_denotes, is_digit, parse_u64, parsed_nat, u64_text, written_number_reads_back,
};
use crate::json::{opt_string, opt_view};
use crate::netease::api::search::{names, SearchQuery, SearchType, Song};
use crate::netease::api::url::{Level, SongUrlErr, SongUrlErrView, SongUrlInfo};
use crate::netease::error::NeteaseErr;
use crate::netease::session::Session;
use crate::netease::stream::AudioStream;
use crate::random::below;
use crate::text::{
    contains, joined, joining_keeps_every_part, of_chars, same, to_chars, trim, trim_end_matches,
    trim_end_of, trimmed, what_is_put_in_is_contained,
};
use crate::tools::resolved_view;
use vstd::prelude::*;

verus! {

/// Name this source is known by.
pub const NAME: &'static str = "netease";

/// Path prefix of the streaming proxy.
pub const PROXY_PREFIX: &'static str = "netease";

/// Search hits reported.
pub const MAX_RESULTS: u32 = 10;

/// The track that a song is. Its id is what is needed to play it.
pub open spec fn song_track(song: Song) -> TrackView {
    TrackView {
        id: dec(song.id as nat),
        title: song.name@,
        artist: joined(names(song.artists@), " / "@),
        source: NAME@,
        duration_ms: if song.duration_ms > 0 {
            Some(song.duration_ms)
        } else {
            None
        },
    }
}

/// The track that a song is.
pub fn track_of(song: &Song) -> (r: Track)
    ensures
        r@ == song_track(*song),
{
    Track {
        id: u64_text(song.id),
        title: song.name.clone(),
        artist: song.artist_names(),
        source: NAME.to_owned(),
        duration_ms: if song.duration_ms > 0 {
            Some(song.duration_ms)
        } else {
            None
        },
    }
}

/// Why a track would not resolve, in a sentence a speaker can say.
pub open spec fn obstacle(title: Seq<char>, fee: int, free_trial: bool) -> Seq<char> {
    "《"@ + title + "》"@ + if free_trial {
        "只能试听，需要会员"@
    } else if fee == 1 || fee == 8 {
        "需要会员"@
    } else if fee == 4 {
        "需要购买专辑"@
    } else {
        "在网易云上无法播放（可能是版权下架或地区限制）"@
    }
}

/// Why a track would not resolve, in a sentence a speaker can say.
pub fn unavailable_message(title: &str, fee: i64, free_trial: bool) -> (r: String)
    ensures
        r@ == obstacle(title@, fee as int, free_trial),
{
    let mut out = "《".to_owned();
    out.append(title);
    out.append("》");
    if free_trial {
        out.append("只能试听，需要会员");
    } else if fee == 1 || fee == 8 {
        out.append("需要会员");
    } else if fee == 4 {
        out.append("需要购买专辑");
    } else {
        out.append("在网易云上无法播放（可能是版权下架或地区限制）");
    }
    out
}

/// The address of the streaming proxy for `id`.
pub open spec fn proxy_address(base: Seq<char>, id: nat) -> Seq<char> {
    base + "/"@ + PROXY_PREFIX@ + "/"@ + dec(id)
}

/// What resolving `title` to the proxy came to, given what NetEase said.
pub open spec fn playable_outcome(
    base: Seq<char>,
    id: nat,
    title: Seq<char>,
    e: Option<SongUrlErrView>,
) -> Result<PlayableView, BrainErrView> {
    match e {
        None => Ok(PlayableView::Url(proxy_address(base, id))),
        Some(SongUrlErrView::Unavailable { id: _, fee, free_trial }) => Err(
            BrainErrView::Backend(obstacle(title, fee, free_trial)),
        ),
        Some(SongUrlErrView::NotFound { id: missing }) => Err(
            BrainErrView::NotFound("网易云找不到编号 "@ + dec(missing as nat) + " 的歌曲"@),
        ),
        Some(SongUrlErrView::Netease(e)) => Err(BrainErrView::Backend(e.message())),
    }
}

/// The error of a resolution, if it is one.
pub open spec fn error_of(info: Result<SongUrlInfo, SongUrlErr>) -> Option<SongUrlErrView> {
    match info {
        Ok(_) => None,
        Err(e) => Some(e@),
    }
}

/// NetEase. The base URL is the speaker-facing prefix that the proxy is mounted
/// under.
#[derive(Debug, Clone)]
pub struct NeteaseSource {
    base_url: String,
    level: Level,
}

impl NeteaseSource {
    /// The speaker-facing prefix.
    pub closed spec fn base(&self) -> Seq<char> {
        self.base_url@
    }

    /// The quality asked for.
    pub closed spec fn quality(&self) -> Level {
        self.level
    }

    pub fn new(base_url: &str) -> (r: Self)
        ensures
            r.base() == trim_end_of(base_url@, '/'),
            r.quality() == Level::Exhigh,
    {
        NeteaseSource {
            base_url: trim_end_matches(base_url, '/').to_owned(),
            level: Level::Exhigh,
        }
    }

    /// The session to go on with, by what became of reading the cached one. Without
    /// one NetEase still answers searches and serves free tracks, so neither a
    /// missing file nor an unreadable one is fatal.
    pub fn from_session_file(loaded: Result<Option<Session>, NeteaseErr>) -> (r: Option<Session>)
        ensures
            r == match loaded {
                Ok(session) => session,
                Err(_) => None,
            },
    {
        match loaded {
            Ok(session) => session,
            Err(_) => None,
        }
    }

    /// Ask for a different audio quality.
    #[must_use]
    pub fn with_level(self, level: Level) -> (r: Self)
        ensures
            r.base() == self.base(),
            r.quality() == level,
    {
        NeteaseSource { base_url: self.base_url, level }
    }

    /// The quality asked for.
    pub fn level(&self) -> (r: Level)
        ensures
            r == self.quality(),
    {
        self.level
    }

    /// The name of this source.
    pub fn name(&self) -> (r: &'static str)
        ensures
            r@ == NAME@,
    {
        NAME
    }

    /// The URL the speaker is handed for `id`.
    pub fn proxy_url(&self, id: u64) -> (r: String)
        ensures
            r@ == proxy_address(self.base(), id as nat),
    {
        let mut url = self.base_url.clone();
        url.append("/");
        url.append(PROXY_PREFIX);
        url.append("/");
        url.append(u64_text(id).as_str());
        url
    }

    /// The request that a search makes.
    pub fn search(&self, query: &str) -> (r: Result<SearchQuery, BrainErr>)
        ensures
            match r {
                Err(e) => trimmed(query@).len() == 0 && e@ == BrainErrView::InvalidArguments(
                    "a search needs something to search for"@,
                ),
                Ok(request) => trimmed(query@).len() > 0 && request.keywords@ == trimmed(query@)
                    && request.kind == SearchType::Song && request.limit == MAX_RESULTS
                    && request.limit == 10 && request.offset == 0,
            },
    {
        let text = trim(query);
        if text.unicode_len() == 0 {
            return Err(
                BrainErr::InvalidArguments("a search needs something to search for".to_owned()),
            );
        }
        Ok(SearchQuery::new(text).limit(MAX_RESULTS))
    }

    /// The tracks that a search found, in NetEase's order.
    pub fn found(&self, songs: Result<Vec<Song>, NeteaseErr>) -> (r: Result<Vec<Track>, BrainErr>)
        ensures
            match songs {
                Ok(list) => r matches Ok(tracks) && track_views(tracks@) == list@.map_values(
                    |s: Song| song_track(s),
                ),
                Err(e) => r matches Err(err) && err@ == BrainErrView::Backend(e@.message()),
            },
    {
        let list = match songs {
            Ok(list) => list,
            Err(e) => {
                return Err(BrainErr::Backend(e.message()));
            },
        };
        let mut out: Vec<Track> = Vec::new();
        let mut i: usize = 0;
        while i < list.len()
            invariant
                i <= list@.len(),
                out@.len() == i,
                forall|k: int| 0 <= k < i ==> (#[trigger] out@[k])@ == song_track(list@[k]),
            decreases list@.len() - i,
        {
            out.push(track_of(&list[i]));
            i += 1;
        }
        assert(track_views(out@) =~= list@.map_values(|s: Song| song_track(s)));
        Ok(out)
    }

    /// The song id of a track of this source.
    pub fn song_id(&self, track: &Track) -> (r: Result<u64, BrainErr>)
        ensures
            if track@.source != NAME@ {
                r matches Err(e) && e@ == BrainErrView::NotFound(
                    track@.id + " is not a netease track"@,
                )
            } else {
                match parsed_nat(track@.id, u64::MAX as nat) {
                    Some(id) => r matches Ok(n) && n == id,
                    None => r matches Err(e) && e@ == BrainErrView::InvalidArguments(
                        "`"@ + track@.id + "` is not a netease song id"@,
                    ),
                }
            },
    {
        if !same(track.source.as_str(), NAME) {
            let mut message = track.id.clone();
            message.append(" is not a netease track");
            return Err(BrainErr::NotFound(message));
        }
        match parse_u64(track.id.as_str()) {
            Some(id) => Ok(id),
            None => {
                let mut message = "`".to_owned();
                message.append(track.id.as_str());
                message.append("` is not a netease song id");
                Err(BrainErr::InvalidArguments(message))
            },
        }
    }

    /// What plays `track`, given what NetEase said of its song. The answer is only
    /// about availability: the URL it holds is not handed out.
    pub fn resolve(&self, track: &Track, id: u64, info: Result<SongUrlInfo, SongUrlErr>) -> (r: Result<
        Playable,
        BrainErr,
    >)
        ensures
            resolved_view(r) == playable_outcome(
                self.base(),
                id as nat,
                track@.title,
                error_of(info),
            ),
    {
        match info {
            Ok(_) => Ok(Playable::Url(self.proxy_url(id))),
            Err(SongUrlErr::Unavailable { fee, free_trial, .. }) => Err(
                BrainErr::Backend(unavailable_message(track.title.as_str(), fee, free_trial)),
            ),
            Err(SongUrlErr::NotFound { id }) => {
                let mut message = "网易云找不到编号 ".to_owned();
                message.append(u64_text(id).as_str());
                message.append(" 的歌曲");
                Err(BrainErr::NotFound(message))
            },
            Err(SongUrlErr::Netease(e)) => Err(BrainErr::Backend(e.message())),
        }
    }

    /// What a random pick searches for. NetEase cannot pick without a filter; then
    /// there is nothing to pick, which is no error.
    pub fn random<'a>(&self, filter: Option<&'a str>) -> (r: Option<&'a str>)
        ensures
            opt_view(r) == match filter {
                Some(text) => if trimmed(text@).len() > 0 {
                    Some(trimmed(text@))
                } else {
                    None
                },
                None => None,
            },
    {
        match filter {
            Some(text) => {
                let text = trim(text);
                if text.unicode_len() > 0 {
                    Some(text)
                } else {
                    None
                }
            },
            None => None,
        }
    }
}

/// Some track out of `tracks`.
pub fn pick(tracks: &Vec<Track>) -> (r: Option<Track>)
    ensures
        r is None <==> tracks@.len() == 0,
        r matches Some(track) ==> track_views(tracks@).contains(track@),
{
    if tracks.len() == 0 {
        return None;
    }
    let k: usize = below(tracks.len());
    assert(track_views(tracks@)[k as int] == tracks@[k as int]@);
    Some(tracks[k].copy())
}

/// The last index of `c` in `s` below `end`, or -1.
pub open spec fn last_index(s: Seq<char>, c: char, end: int) -> int
    decreases end,
{
    if end <= 0 {
        -1
    } else if s[end - 1] == c {
        end - 1
    } else {
        last_index(s, c, end - 1)
    }
}

/// A requested name without its extension: what stands before its last dot.
pub open spec fn without_extension(name: Seq<char>) -> Seq<char> {
    let k = last_index(name, '.', name.len() as int);
    if k < 0 {
        name
    } else {
        name.take(k)
    }
}

/// The song that a request to the proxy asks for.
pub open spec fn requested_song(name: Seq<char>) -> Option<nat> {
    parsed_nat(without_extension(name), u64::MAX as nat)
}

/// A refusal of the proxy: a status and its words.
pub type ProxyRefusal = (u16, &'static str);

/// The song that a request to the proxy asks for; `186016.mp3` and `186016` are the
/// same one.
pub fn proxy(name: &str) -> (r: Result<u64, ProxyRefusal>)
    ensures
        match r {
            Ok(id) => requested_song(name@) == Some(id as nat),
            Err(refusal) => requested_song(name@) is None && refusal.0 == 400 && refusal.1@
                == "Not a netease song id"@,
        },
{
    let chars = to_chars(name);
    let mut k: usize = chars.len();
    while k > 0 && chars[k - 1] != '.'
        invariant
            k <= chars@.len(),
            chars@ == name@,
            last_index(name@, '.', name@.len() as int) == last_index(name@, '.', k as int),
        decreases k,
    {
        k -= 1;
    }
    let stem = if k == 0 {
        name.to_owned()
    } else {
        let s = of_chars(&chars, 0, k - 1);
        assert(s@ =~= name@.take(k - 1));
        s
    };
    match parse_u64(stem.as_str()) {
        Some(id) => Ok(id),
        None => Err((400, "Not a netease song id")),
    }
}

/// The URL to stream, given what NetEase said of the song, or the refusal.
pub fn proxy_resolved(info: &Result<SongUrlInfo, SongUrlErr>) -> (r: Result<String, ProxyRefusal>)
    ensures
        match *info {
            Ok(i) => match i.stream() {
                Some(url) => r matches Ok(u) && u@ == url,
                None => r matches Err(refusal) && refusal.0 == 403 && refusal.1@
                    == "Song is not streamable"@,
            },
            Err(SongUrlErr::NotFound { id }) => r matches Err(refusal) && refusal.0 == 404
                && refusal.1@ == "No such song"@,
            Err(SongUrlErr::Unavailable { id, fee, free_trial }) => r matches Err(refusal)
                && refusal.0 == 403 && refusal.1@ == "Song is not streamable"@,
            Err(SongUrlErr::Netease(e)) => r matches Err(refusal) && refusal.0 == 502 && refusal.1@
                == "Cannot resolve song"@,
        },
{
    match info {
        Ok(i) => match i.playable() {
            Ok(url) => Ok(url.to_owned()),
            Err(_) => Err((403, "Song is not streamable")),
        },
        Err(SongUrlErr::NotFound { .. }) => Err((404, "No such song")),
        Err(SongUrlErr::Unavailable { .. }) => Err((403, "Song is not streamable")),
        Err(SongUrlErr::Netease(_)) => Err((502, "Cannot resolve song")),
    }
}

/// The head of the proxy's response.
#[derive(Debug, Clone, PartialEq, Eq)]
pub struct ProxyHead {
    pub status: u16,
    pub content_type: String,
    pub content_length: Option<u64>,
    pub content_range: Option<String>,
    pub accept_ranges: Option<String>,
}

/// The head of the proxy's response, given the upstream's, or the refusal. Status
/// and range headers pass through: answering a ranged request with the whole makes
/// seeking silently do nothing.
pub fn proxy_response(opened: Result<AudioStream, NeteaseErr>) -> (r: Result<
    ProxyHead,
    ProxyRefusal,
>)
    ensures
        match opened {
            Err(_) => r matches Err(refusal) && refusal.0 == 502 && refusal.1@
                == "Cannot open audio stream"@,
            Ok(audio) => r matches Ok(head) && head.status == (if 100 <= audio.status < 1000 {
                audio.status
            } else {
                200
            }) && head.content_type@ == (match opt_string(audio.content_type) {
                Some(kind) => kind,
                None => "audio/mpeg"@,
            }) && head.content_length == audio.content_length && head.content_range
                == audio.content_range && head.accept_ranges == audio.accept_ranges,
        },
{
    match opened {
        Err(_) => Err((502, "Cannot open audio stream")),
        Ok(audio) => Ok(
            ProxyHead {
                status: if 100 <= audio.status && audio.status < 1000 {
                    audio.status
                } else {
                    200
                },
                content_type: match audio.content_type {
                    Some(kind) => kind,
                    None => "audio/mpeg".to_owned(),
                },
                content_length: audio.content_length,
                content_range: audio.content_range,
                accept_ranges: audio.accept_ranges,
            },
        ),
    }
}

proof fn no_such_char(s: Seq<char>, c: char, end: int)
    requires
        0 <= end <= s.len(),
        forall|i: int| 0 <= i < end ==> #[trigger] s[i] != c,
    ensures
        last_index(s, c, end) == -1,
    decreases end,
{
    if end > 0 {
        no_such_char(s, c, end - 1);
    }
}

proof fn last_dot(s: Seq<char>, c: char, at: int, end: int)
    requires
        0 <= at < end <= s.len(),
        s[at] == c,
        forall|i: int| at < i < end ==> #[trigger] s[i] != c,
    ensures
        last_index(s, c, end) == at,
    decreases end,
{
    if end - 1 > at {
        last_dot(s, c, at, end - 1);
    }
}

/// A track's id leads back to its song: read off the track, and asked of the proxy
/// with or without an extension, it is the number the song came with.
pub proof fn a_track_id_leads_back_to_its_song(song: Song, ext: Seq<char>)
    requires
        !ext.contains('.'),
    ensures
        parsed_nat(song_track(song).id, u64::MAX as nat) == Some(song.id as nat),
        requested_song(dec(song.id as nat)) == Some(song.id as nat),
        requested_song(dec(song.id as nat) + seq!['.'] + ext) == Some(song.id as nat),
{
    let text = dec(song.id as nat);
    written_number_reads_back(song.id);
    dec_denotes(song.id as nat);
    assert forall|i: int| 0 <= i < text.len() implies #[trigger] text[i] != '.' by {
        assert(is_digit(text[i]));
    }
    no_such_char(text, '.', text.len() as int);
    let name = text + seq!['.'] + ext;
    let k = text.len() as int;
    assert(name[k] == '.');
    assert forall|i: int| k < i < name.len() implies #[trigger] name[i] != '.' by {
        assert(name[i] == ext[i - k - 1]);
        assert(ext.contains(ext[i - k - 1]));
    }
    last_dot(name, '.', k, name.len() as int);
    assert(name.take(k) =~= text);
}

/// The speaker is never handed a URL of NetEase's: what a track resolves to is the
/// same whatever URL NetEase answered with.
pub proof fn a_resolved_url_never_leaves(
    base: Seq<char>,
    id: nat,
    title: Seq<char>,
    a: Result<SongUrlInfo, SongUrlErr>,
    b: Result<SongUrlInfo, SongUrlErr>,
)
    requires
        a is Ok,
        b is Ok,
    ensures
        playable_outcome(base, id, title, error_of(a)) == playable_outcome(
            base,
            id,
            title,
            error_of(b),
        ),
{
}

/// A song's track goes by the song's own title and names every one of its artists, and is
/// as long as the song where that is known. Its id is the song's.
pub proof fn a_song_is_described_as_it_is(song: Song)
    ensures
        ({
            let track = song_track(song);
            &&& parsed_nat(track.id, u64::MAX as nat) == Some(song.id as nat)
            &&& track.title == song.name@
            &&& track.source == "netease"@
            &&& forall|i: int|
                0 <= i < song.artists@.len() ==> contains(
                    track.artist,
                    (#[trigger] song.artists@[i]).name@,
                )
            &&& song.artists@.len() == 0 ==> track.artist.len() == 0
            &&& song.artists@.len() == 1 ==> track.artist == song.artists@[0].name@
            &&& song.artists@.len() == 2 ==> track.artist == song.artists@[0].name@ + " / "@
                + song.artists@[1].name@
            &&& song.duration_ms > 0 ==> track.duration_ms == Some(song.duration_ms)
            &&& song.duration_ms == 0 ==> track.duration_ms is None
        }),
{
    written_number_reads_back(song.id);
    let list = names(song.artists@);
    joining_keeps_every_part(list, Seq::empty(), " / "@);
    assert forall|i: int| 0 <= i < song.artists@.len() implies contains(
        song_track(song).artist,
        (#[trigger] song.artists@[i]).name@,
    ) by {
        assert(list[i] == song.artists@[i].name@);
    }
    if list.len() == 0 {
        assert(list =~= Seq::empty());
    }
    if list.len() == 1 {
        joining_keeps_every_part(list, list[0], " / "@);
        assert(list =~= seq![list[0]]);
    }
    if list.len() == 2 {
        joining_keeps_every_part(seq![list[0]], list[1], " / "@);
        joining_keeps_every_part(seq![list[0]], list[0], " / "@);
        assert(list =~= seq![list[0]].push(list[1]));
    }
}

/// Why a song cannot be played names the song and tells the reasons apart: a trial that
/// asks for a membership, a membership, an album to buy, or no reason that is known. A
/// trial is said to be one whatever the fee.
pub proof fn an_obstacle_names_the_song_and_the_reason(title: Seq<char>, fee: int, other: int)
    ensures
        contains(obstacle(title, fee, true), title),
        contains(obstacle(title, fee, false), title),
        obstacle(title, fee, true) == obstacle(title, other, true),
        obstacle(title, fee, true) != obstacle(title, other, false),
        (fee == 1 || fee == 8) && (other == 1 || other == 8) ==> obstacle(title, fee, false)
            == obstacle(title, other, false),
        (fee == 1 || fee == 8) && other != 1 && other != 8 ==> obstacle(title, fee, false)
            != obstacle(title, other, false),
        fee == 4 && other != 4 ==> obstacle(title, fee, false) != obstacle(title, other, false),
{
    reveal_strlit("只能试听，需要会员");
    reveal_strlit("需要会员");
    reveal_strlit("需要购买专辑");
    reveal_strlit("在网易云上无法播放（可能是版权下架或地区限制）");
    let start = "《"@ + title + "》"@;
    let n = start.len() as int;
    let trial = obstacle(title, fee, true);
    let a = obstacle(title, fee, false);
    let b = obstacle(title, other, false);
    what_is_put_in_is_contained("《"@, title, "》"@ + "只能试听，需要会员"@);
    assert(trial =~= "《"@ + title + ("》"@ + "只能试听，需要会员"@));
    what_is_put_in_is_contained("《"@, title, "》"@ + a.skip(n));
    assert(a =~= "《"@ + title + ("》"@ + a.skip(n)));
    assert(trial.len() == n + 9);
    let la = if fee == 1 || fee == 8 {
        4int
    } else if fee == 4 {
        6
    } else {
        23
    };
    let lb = if other == 1 || other == 8 {
        4int
    } else if other == 4 {
        6
    } else {
        23
    };
    assert(a.len() == n + la);
    assert(b.len() == n + lb);
}

/// The address that is handed out is the proxy's own, and asks it for the very song.
pub proof fn a_proxy_address_asks_for_its_song(base: Seq<char>, id: u64)
    ensures
        ({
            let start = base + "/netease/"@;
            let url = proxy_address(base, id as nat);
            &&& start.is_prefix_of(url)
            &&& requested_song(url.skip(start.len() as int)) == Some(id as nat)
        }),
{
    reveal_strlit("/");
    reveal_strlit("netease");
    reveal_strlit("/netease/");
    let start = base + "/netease/"@;
    let url = proxy_address(base, id as nat);
    assert("/"@ + "netease"@ + "/"@ =~= "/netease/"@);
    assert(url =~= start + dec(id as nat));
    assert(url.skip(start.len() as int) =~= dec(id as nat));
    assert(start =~= url.take(start.len() as int));
    written_number_reads_back(id);
    dec_denotes(id as nat);
    let name = dec(id as nat);
    assert forall|i: int| 0 <= i < name.len() implies #[trigger] name[i] != '.' by {
        assert(is_digit(name[i]));
    }
    no_such_char(name, '.', name.len() as int);
}

/// A song that can be had plays from the proxy's address for it. One that cannot is
/// refused by title and reason, one that does not exist by its number, and any other
/// failure in its own words.
pub proof fn a_song_that_cannot_be_had_is_refused_with_the_reason(
    base: Seq<char>,
    id: nat,
    title: Seq<char>,
    e: SongUrlErrView,
)
    ensures
        playable_outcome(base, id, title, None) == Ok::<PlayableView, BrainErrView>(
            PlayableView::Url(proxy_address(base, id)),
        ),
        match e {
            SongUrlErrView::Unavailable { id: song, fee, free_trial } => playable_outcome(
                base,
                id,
                title,
                Some(e),
            ) == Err::<PlayableView, BrainErrView>(
                BrainErrView::Backend(obstacle(title, fee, free_trial)),
            ),
            SongUrlErrView::NotFound { id: missing } => playable_outcome(base, id, title, Some(e))
                matches Err(BrainErrView::NotFound(why)) && contains(why, dec(missing as nat)),
            SongUrlErrView::Netease(cause) => playable_outcome(base, id, title, Some(e)) == Err::<
                PlayableView,
                BrainErrView,
            >(BrainErrView::Backend(cause.message())),
        },
{
    if let SongUrlErrView::NotFound { id: missing } = e {
        what_is_put_in_is_contained(
            "网易云找不到编号 "@,
            dec(missing as nat),
            " 的歌曲"@,
        );
    }
}

/// A name is cut at its last dot and nowhere else; a name without a dot is left whole.
pub proof fn only_the_extension_is_cut(name: Seq<char>, ext: Seq<char>)
    requires
        !ext.contains('.'),
    ensures
        without_extension(name + seq!['.'] + ext) == name,
        !name.contains('.') ==> without_extension(name) == name,
{
    let whole = name + seq!['.'] + ext;
    let n = name.len() as int;
    assert forall|i: int| n < i < whole.len() implies #[trigger] whole[i] != '.' by {
        assert(ext.contains(ext[i - n - 1]));
    }
    last_dot(whole, '.', n, whole.len() as int);
    assert(whole.take(n) =~= name);
    if !name.contains('.') {
        assert forall|i: int| 0 <= i < name.len() implies #[trigger] name[i] != '.' by {
            assert(name.contains(name[i]));
        }
        no_such_char(name, '.', n);
    }
}

} // verus!
