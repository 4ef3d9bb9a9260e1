//! Resolving a song to a URL.
//!
//! The URL is short-lived: resolve it just before playing and never cache it. It is
//! missing for tracks the session may not stream, which is a typed outcome here.

use crate::decimal::{dec, dec_int, i64_text, u64_text};
use crate::json::{opt_string, Json, JsonView};
use crate::netease::error::{NeteaseErr, NeteaseErrView};
use crate::text::{
    contains, join, joined, joining_keeps_every_part, occurs_at, views, what_is_put_in_is_contained,
};
use vstd::prelude::*;

verus! {

/// Path of the endpoint.
pub const PATH: &'static str = "song/enhance/player/url/v1";

/// Audio quality. Asking for more than the account is entitled to does not fail:
/// NetEase downgrades, or returns no URL.
#[derive(Debug, Clone, Copy, PartialEq, Eq, Hash, Structural)]
pub enum Level {
    Standard,
    Higher,
    /// The best a plain membership reliably gets.
    Exhigh,
    Lossless,
    Hires,
    Jyeffect,
    Sky,
    Jymaster,
}

impl Default for Level {
    fn default() -> (r: Self)
        ensures
            r == Level::Exhigh,
    {
        Level::Exhigh
    }
}

impl Level {
    /// The word for this in a request.
    pub open spec fn word(self) -> Seq<char> {
        match self {
            Level::Standard => "standard"@,
            Level::Higher => "higher"@,
            Level::Exhigh => "exhigh"@,
            Level::Lossless => "lossless"@,
            Level::Hires => "hires"@,
            Level::Jyeffect => "jyeffect"@,
            Level::Sky => "sky"@,
            Level::Jymaster => "jymaster"@,
        }
    }

    /// The word for this in a request.
    pub fn as_str(self) -> (r: &'static str)
        ensures
            r@ == self.word(),
    {
        match self {
            Level::Standard => "standard",
            Level::Higher => "higher",
            Level::Exhigh => "exhigh",
            Level::Lossless => "lossless",
            Level::Hires => "hires",
            Level::Jyeffect => "jyeffect",
            Level::Sky => "sky",
            Level::Jymaster => "jymaster",
        }
    }
}

/// Numbers in decimal.
pub open spec fn decimals(ids: Seq<u64>) -> Seq<Seq<char>> {
    ids.map_values(|id: u64| dec(id as nat))
}

/// The request body for `ids` at `level`.
pub open spec fn body(ids: Seq<u64>, level: Level) -> JsonView {
    let base = JsonView::empty().with(
        "ids"@,
        JsonView::Str("["@ + joined(decimals(ids), ","@) + "]"@),
    ).with("level"@, JsonView::Str(level.word())).with("encodeType"@, JsonView::Str("flac"@));
    if level == Level::Sky {
        base.with("immerseType"@, JsonView::Str("c51"@))
    } else {
        base
    }
}

/// Build the request body for `ids` at `level`. The server wants the ids as an
/// array written into a string, and one more field for `sky`.
pub fn payload(ids: &Vec<u64>, level: Level) -> (r: Json)
    ensures
        r@ == body(ids@, level),
{
    let mut list: Vec<String> = Vec::new();
    let mut i: usize = 0;
    while i < ids.len()
        invariant
            i <= ids@.len(),
            list@.len() == i,
            forall|k: int| 0 <= k < i ==> (#[trigger] list@[k])@ == dec(ids@[k] as nat),
        decreases ids@.len() - i,
    {
        list.push(u64_text(ids[i]));
        i += 1;
    }
    assert(views(list@) =~= decimals(ids@));
    let mut text = "[".to_owned();
    text.append(join(&list, ",").as_str());
    text.append("]");
    let base = Json::empty().with("ids", Json::Str(text)).with(
        "level",
        Json::string(level.as_str()),
    ).with("encodeType", Json::string("flac"));
    if level == Level::Sky {
        base.with("immerseType", Json::string("c51"))
    } else {
        base
    }
}

/// One entry of the reply. The URL may be missing.
#[derive(Debug, Clone, PartialEq, Eq)]
pub struct SongUrlInfo {
    pub id: u64,
    /// Missing when the track is not streamable for this session.
    pub url: Option<String>,
    /// Bits per second.
    pub br: u32,
    /// Bytes.
    pub size: u64,
    pub md5: Option<String>,
    /// Container.
    pub format: Option<String>,
    /// How long the URL stays valid, in seconds.
    pub expi: u64,
    /// 0 free, 1 members only, 4 album purchase, 8 free for members.
    pub fee: i64,
    /// The quality actually served.
    pub level: Option<String>,
    /// Present when only a preview clip is available.
    pub free_trial_info: Option<Json>,
}

impl Default for SongUrlInfo {
    fn default() -> (r: Self)
        ensures
            r.id == 0,
            r.url is None,
            r.br == 0,
            r.size == 0,
            r.md5 is None,
            r.format is None,
            r.expi == 0,
            r.fee == 0,
            r.level is None,
            r.free_trial_info is None,
    {
        SongUrlInfo {
            id: 0,
            url: None,
            br: 0,
            size: 0,
            md5: None,
            format: None,
            expi: 0,
            fee: 0,
            level: None,
            free_trial_info: None,
        }
    }
}

/// Why a song could not be turned into a playable URL. "Members only" is an
/// ordinary outcome, handled by trying the next hit.
#[derive(Debug, Clone, PartialEq, Eq)]
pub enum SongUrlErr {
    /// The request itself failed.
    Netease(NeteaseErr),
    /// The reply held no entry for the song.
    NotFound { id: u64 },
    /// There is no URL: gated, region-locked or withdrawn.
    Unavailable { id: u64, fee: i64, free_trial: bool },
}

/// What a [`SongUrlErr`] says.
pub enum SongUrlErrView {
    Netease(NeteaseErrView),
    NotFound { id: int },
    Unavailable { id: int, fee: int, free_trial: bool },
}

impl View for SongUrlErr {
    type V = SongUrlErrView;

    open spec fn view(&self) -> SongUrlErrView {
        match *self {
            SongUrlErr::Netease(e) => SongUrlErrView::Netease(e@),
            SongUrlErr::NotFound { id } => SongUrlErrView::NotFound { id: id as int },
            SongUrlErr::Unavailable { id, fee, free_trial } => SongUrlErrView::Unavailable {
                id: id as int,
                fee: fee as int,
                free_trial,
            },
        }
    }
}

/// The word for a truth value.
pub open spec fn truth_word(b: bool) -> Seq<char> {
    if b {
        "true"@
    } else {
        "false"@
    }
}

impl SongUrlErrView {
    /// The error in words.
    pub open spec fn message(self) -> Seq<char> {
        match self {
            SongUrlErrView::Netease(e) => e.message(),
            SongUrlErrView::NotFound { id } => "netease returned no url entry for song "@ + dec(
                id as nat,
            ),
            SongUrlErrView::Unavailable { id, fee, free_trial } => "song "@ + dec(id as nat)
                + " is not streamable (fee="@ + dec_int(fee) + ", preview_only="@ + truth_word(
                free_trial,
            ) + ")"@,
        }
    }
}

impl SongUrlErr {
    /// The error in words.
    pub fn message(&self) -> (r: String)
        ensures
            r@ == self@.message(),
    {
        match self {
            SongUrlErr::Netease(e) => e.message(),
            SongUrlErr::NotFound { id } => {
                let mut out = "netease returned no url entry for song ".to_owned();
                out.append(u64_text(*id).as_str());
                out
            },
            SongUrlErr::Unavailable { id, fee, free_trial } => {
                let mut out = "song ".to_owned();
                out.append(u64_text(*id).as_str());
                out.append(" is not streamable (fee=");
                out.append(i64_text(*fee).as_str());
                out.append(", preview_only=");
                if *free_trial {
                    out.append("true");
                } else {
                    out.append("false");
                }
                out.append(")");
                out
            },
        }
    }
}

impl SongUrlInfo {
    /// The URL, when there is one.
    pub open spec fn stream(&self) -> Option<Seq<char>> {
        match opt_string(self.url) {
            Some(url) => if url.len() > 0 {
                Some(url)
            } else {
                None
            },
            None => None,
        }
    }

    /// Whether a preview clip was offered.
    pub open spec fn previewed(&self) -> bool {
        self.free_trial_info matches Some(info) && !(info@ is Null)
    }

    /// Why there is no URL.
    pub open spec fn gate(&self) -> SongUrlErrView {
        SongUrlErrView::Unavailable {
            id: self.id as int,
            fee: self.fee as int,
            free_trial: self.previewed(),
        }
    }

    /// Whether a full-length stream is available.
    pub fn is_available(&self) -> (r: bool)
        ensures
            r == (self.stream() is Some),
    {
        match &self.url {
            Some(url) => url.as_str().unicode_len() > 0,
            None => false,
        }
    }

    /// Whether a preview clip was offered: then the track is paid, not missing.
    pub fn has_free_trial(&self) -> (r: bool)
        ensures
            r == self.previewed(),
    {
        match &self.free_trial_info {
            Some(info) => !info.is_null(),
            None => false,
        }
    }

    /// How long the URL stays valid, in seconds from when the reply arrived.
    pub fn ttl(&self) -> (r: u64)
        ensures
            r == self.expi,
    {
        self.expi
    }

    /// The playable URL, or a typed reason why there is none.
    pub fn playable(&self) -> (r: Result<&str, SongUrlErr>)
        ensures
            match r {
                Ok(url) => self.stream() == Some(url@),
                Err(e) => self.stream() is None && e@ == self.gate(),
            },
    {
        if self.is_available() {
            match &self.url {
                Some(url) => {
                    return Ok(url.as_str());
                },
                None => {},
            }
        }
        Err(
            SongUrlErr::Unavailable {
                id: self.id,
                fee: self.fee,
                free_trial: self.has_free_trial(),
            },
        )
    }
}

/// The reply.
#[derive(Debug, Clone, PartialEq, Eq)]
pub struct SongUrlResponse {
    pub code: i64,
    pub data: Vec<SongUrlInfo>,
}

impl Default for SongUrlResponse {
    fn default() -> (r: Self)
        ensures
            r.code == 0,
            r.data@.len() == 0,
    {
        SongUrlResponse { code: 0, data: Vec::new() }
    }
}

/// Whether there is anything to resolve.
pub fn check_ids(ids: &Vec<u64>) -> (r: Result<(), NeteaseErr>)
    ensures
        match r {
            Ok(_) => ids@.len() > 0,
            Err(e) => ids@.len() == 0 && e@ == NeteaseErrView::BadRequest("no song ids given"@),
        },
{
    if ids.len() == 0 {
        Err(NeteaseErr::BadRequest("no song ids given".to_owned()))
    } else {
        Ok(())
    }
}

/// The first entry for `id` at or after `from`.
pub open spec fn entry(data: Seq<SongUrlInfo>, id: u64, from: int) -> Option<SongUrlInfo>
    decreases data.len() - from,
{
    if from < 0 || from >= data.len() {
        None
    } else if data[from].id == id {
        Some(data[from])
    } else {
        entry(data, id, from + 1)
    }
}

/// The playable entry for `id`. A gated track is an error; on success
/// [`SongUrlInfo::playable`] cannot fail.
pub fn song_url(data: Vec<SongUrlInfo>, id: u64) -> (r: Result<SongUrlInfo, SongUrlErr>)
    ensures
        match entry(data@, id, 0) {
            None => r matches Err(e) && e@ == (SongUrlErrView::NotFound { id: id as int }),
            Some(info) => if info.stream() is Some {
                r == Ok::<SongUrlInfo, SongUrlErr>(info)
            } else {
                r matches Err(e) && e@ == info.gate()
            },
        },
        r matches Ok(info) ==> info.id == id && info.stream() is Some,
{
    let mut data = data;
    let ghost all = data@;
    let mut i: usize = 0;
    while i < data.len() && data[i].id != id
        invariant
            i <= data@.len(),
            data@ == all,
            entry(all, id, 0) == entry(all, id, i as int),
        decreases data@.len() - i,
    {
        i += 1;
    }
    if i == data.len() {
        return Err(SongUrlErr::NotFound { id });
    }
    let info = data.remove(i);
    let blocked = match info.playable() {
        Ok(_) => None,
        Err(e) => Some(e),
    };
    match blocked {
        Some(e) => Err(e),
        None => Ok(info),
    }
}

/// Each quality has a word of its own.
pub proof fn each_level_has_its_word(a: Level, b: Level)
    ensures
        a.word() == b.word() <==> a == b,
{
    reveal_strlit("standard");
    reveal_strlit("higher");
    reveal_strlit("exhigh");
    reveal_strlit("lossless");
    reveal_strlit("hires");
    reveal_strlit("jyeffect");
    reveal_strlit("sky");
    reveal_strlit("jymaster");
    assert("standard"@.len() == 8 && "lossless"@.len() == 8);
    assert("jyeffect"@.len() == 8 && "jymaster"@.len() == 8);
    assert("standard"@[0] != "lossless"@[0] && "standard"@[0] != "jyeffect"@[0]);
    assert("standard"@[0] != "jymaster"@[0] && "lossless"@[0] != "jyeffect"@[0]);
    assert("lossless"@[0] != "jymaster"@[0] && "jyeffect"@[2] != "jymaster"@[2]);
    assert("higher"@.len() == 6 && "exhigh"@.len() == 6 && "higher"@[0] != "exhigh"@[0]);
    assert("hires"@.len() == 5 && "sky"@.len() == 3);
}

/// A request asks for every song that was given, by its number and in order, in the quality
/// that was asked for; only the immersive one says what kind of it is wanted.
pub proof fn a_request_asks_for_every_song(ids: Seq<u64>, id: u64, level: Level)
    ensures
        body(seq![id], level).get("ids"@) == Some(
            JsonView::Str(seq!['['] + dec(id as nat) + seq![']']),
        ),
        match (body(ids, level).get("ids"@), body(ids.push(id), level).get("ids"@)) {
            (Some(JsonView::Str(less)), Some(JsonView::Str(more))) => {
                &&& ids.len() > 0 ==> more == less.drop_last() + seq![','] + dec(id as nat) + seq![
                    ']',
                ]
                &&& forall|i: int|
                    0 <= i < ids.len() ==> contains(less, dec(#[trigger] ids[i] as nat))
            },
            _ => false,
        },
        body(ids, level).get("level"@) == Some(JsonView::Str(level.word())),
        body(ids, level).get("encodeType"@) == Some(JsonView::Str("flac"@)),
        body(ids, level).get("immerseType"@) is Some <==> level == Level::Sky,
{
    reveal_strlit("ids");
    reveal_strlit("level");
    reveal_strlit("encodeType");
    reveal_strlit("immerseType");
    reveal_strlit("[");
    reveal_strlit("]");
    reveal_strlit(",");
    reveal_with_fuel(crate::json::member, 6);
    assert("ids"@.len() == 3 && "level"@.len() == 5 && "encodeType"@.len() == 10);
    assert("immerseType"@.len() == 11);
    assert("["@ =~= seq!['[']);
    assert("]"@ =~= seq![']']);
    assert(","@ =~= seq![',']);
    let d = dec(id as nat);
    let list = decimals(ids);
    assert(decimals(seq![id]) =~= seq![d]);
    assert(decimals(ids.push(id)) =~= list.push(d));
    joining_keeps_every_part(list, d, ","@);
    let less = "["@ + joined(list, ","@) + "]"@;
    let more = "["@ + joined(list.push(d), ","@) + "]"@;
    assert(body(ids, level).get("ids"@) == Some(JsonView::Str(less)));
    assert(body(ids.push(id), level).get("ids"@) == Some(JsonView::Str(more)));
    assert(body(seq![id], level).get("ids"@) == Some(
        JsonView::Str("["@ + joined(seq![d], ","@) + "]"@),
    ));
    if ids.len() > 0 {
        assert(more =~= less.drop_last() + seq![','] + d + seq![']']);
    }
    assert forall|i: int| 0 <= i < ids.len() implies contains(
        less,
        dec(#[trigger] ids[i] as nat),
    ) by {
        let part = dec(ids[i] as nat);
        assert(list[i] == part);
        let all = joined(list, ","@);
        let k = choose|k: int| occurs_at(all, part, k);
        assert(less.subrange(k + 1, k + 1 + part.len()) =~= all.subrange(k, k + part.len()));
        assert(occurs_at(less, part, k + 1));
    }
}

/// A song streams from the address it came with, where that is not empty. It is a preview
/// where it comes with any word of a trial. What cannot be streamed is refused under its
/// own number, fee and trial.
pub proof fn a_song_streams_from_its_own_address(info: SongUrlInfo)
    ensures
        match info.url {
            Some(url) => info.stream() == if url@.len() > 0 {
                Some(url@)
            } else {
                None
            },
            None => info.stream() is None,
        },
        info.previewed() <==> (info.free_trial_info matches Some(trial) && trial@
            != JsonView::Null),
        info.gate() matches SongUrlErrView::Unavailable { id, fee, free_trial } && id == info.id
            && fee == info.fee && free_trial == info.previewed(),
{
}

/// Of entries for one song the first counts, and a song without an entry is not found.
pub proof fn the_first_entry_of_a_song_counts(data: Seq<SongUrlInfo>, id: u64, from: int)
    requires
        0 <= from <= data.len(),
    ensures
        match entry(data, id, from) {
            Some(info) => exists|i: int|
                from <= i < data.len() && #[trigger] data[i] == info && info.id == id && forall|
                    j: int,
                |
                    from <= j < i ==> (#[trigger] data[j]).id != id,
            None => forall|i: int| from <= i < data.len() ==> (#[trigger] data[i]).id != id,
        },
    decreases data.len() - from,
{
    if from < data.len() {
        if data[from].id == id {
            assert(data[from] == data[from]);
        } else {
            the_first_entry_of_a_song_counts(data, id, from + 1);
            if let Some(info) = entry(data, id, from + 1) {
                let i = choose|i: int|
                    from + 1 <= i < data.len() && #[trigger] data[i] == info && info.id == id
                        && forall|j: int| from + 1 <= j < i ==> (#[trigger] data[j]).id != id;
                assert(data[i] == info);
            }
        }
    }
}

/// What is wrong with a song names the song, and why it cannot be streamed names the fee.
pub proof fn a_failure_names_the_song(id: u64, fee: i64, free_trial: bool, e: NeteaseErrView)
    ensures
        dec(id as nat).is_suffix_of(SongUrlErrView::NotFound { id: id as int }.message()),
        contains(
            SongUrlErrView::Unavailable {
                id: id as int,
                fee: fee as int,
                free_trial,
            }.message(),
            dec(id as nat),
        ),
        contains(
            SongUrlErrView::Unavailable {
                id: id as int,
                fee: fee as int,
                free_trial,
            }.message(),
            dec_int(fee as int),
        ),
        contains(
            SongUrlErrView::Unavailable {
                id: id as int,
                fee: fee as int,
                free_trial,
            }.message(),
            if free_trial {
                "true"@
            } else {
                "false"@
            },
        ),
        SongUrlErrView::Netease(e).message() == e.message(),
{
    let missing = SongUrlErrView::NotFound { id: id as int }.message();
    let d = dec(id as nat);
    assert(d =~= missing.skip(missing.len() - d.len()));
    let f = dec_int(fee as int);
    let w = truth_word(free_trial);
    let said = SongUrlErrView::Unavailable { id: id as int, fee: fee as int, free_trial }.message();
    let a = "song "@;
    let b = " is not streamable (fee="@;
    let c = ", preview_only="@;
    what_is_put_in_is_contained(a, d, b + f + c + w + ")"@);
    assert(said =~= a + d + (b + f + c + w + ")"@));
    what_is_put_in_is_contained(a + d + b, f, c + w + ")"@);
    assert(said =~= a + d + b + f + (c + w + ")"@));
    what_is_put_in_is_contained(a + d + b + f + c, w, ")"@);
}

/// Each quality is asked for by the word that the service knows it by.
pub proof fn each_word_is_the_services_own(level: Level)
    ensures
        level == Level::Standard ==> level.word() == "standard"@,
        level == Level::Higher ==> level.word() == "higher"@,
        level == Level::Exhigh ==> level.word() == "exhigh"@,
        level == Level::Lossless ==> level.word() == "lossless"@,
        level == Level::Hires ==> level.word() == "hires"@,
        level == Level::Jyeffect ==> level.word() == "jyeffect"@,
        level == Level::Sky ==> level.word() == "sky"@,
        level == Level::Jymaster ==> level.word() == "jymaster"@,
{
}

/// What is said of a failure is its kind and what it holds.
pub proof fn a_failure_shows_its_song(e: SongUrlErr)
    ensures
        match e {
            SongUrlErr::Netease(cause) => e@ == SongUrlErrView::Netease(cause@),
            SongUrlErr::NotFound { id } => e@ == (SongUrlErrView::NotFound { id: id as int }),
            SongUrlErr::Unavailable { id, fee, free_trial } => e@ == (SongUrlErrView::Unavailable {
                id: id as int,
                fee: fee as int,
                free_trial,
            }),
        },
{
}

} // verus!
