//! The capabilities the model may invoke.
//!
//! Everything the model learns about a capability is its description and its
//! parameters, written for the model and in Chinese.
//!
//! An error is for genuine failures: the speaker is unreachable, the arguments
//! are unusable. "No such song" and "that one needs a membership" are ordinary
//! answers.

use crate::brain::error::{outcome, BrainErr, BrainErrView};
use crate::brain::registry::Tool;
use crate::brain::traits::{track_views, Playable, PlayableView, Track, TrackView};
use crate::decimal::{
    dec, dec_denotes, dec_int, is_digit, parse_i64, parsed_i64, u64_text,
    written_signed_number_reads_back,
};
use crate::json::{json_text, json_views, opt_string, opt_view, Json, JsonView};
use crate::text::{
    contains, join, joined, joining_keeps_every_part, occurs_at, same, trim, trimmed,
    trimming_cuts_only_white_space, trimming_ignores_white_space_around, views,
    what_is_put_in_is_contained, white_space,
};
use vstd::prelude::*;

verus! {

/// How many search hits are tried before giving up on a source. The first hit is
/// regularly a cover or a gated original; the user is standing there waiting.
pub const MAX_ATTEMPTS: usize = 3;

/// Where music comes from.
#[derive(Debug, Clone, Copy, PartialEq, Eq, Structural)]
pub enum SourceId {
    /// The user's own collection.
    Local,
    Netease,
}

impl SourceId {
    /// The name of the source.
    pub open spec fn named(self) -> Seq<char> {
        match self {
            SourceId::Local => "local"@,
            SourceId::Netease => "netease"@,
        }
    }

    /// The name of the source.
    pub fn name(&self) -> (r: &'static str)
        ensures
            r@ == self.named(),
    {
        match self {
            SourceId::Local => "local",
            SourceId::Netease => "netease",
        }
    }
}

/// The text of an argument, trimmed, when there is any.
pub open spec fn text_argument(args: JsonView, key: Seq<char>) -> Option<Seq<char>> {
    match args.text_of(key) {
        Some(text) => if trimmed(text).len() > 0 {
            Some(trimmed(text))
        } else {
            None
        },
        None => None,
    }
}

/// The text of an argument, trimmed, when there is any.
fn argument(args: &Json, key: &str) -> (r: Option<String>)
    ensures
        opt_string(r) == text_argument(args@, key@),
{
    match args.text_of(key) {
        Some(text) => {
            let text = trim(text);
            if text.unicode_len() > 0 {
                Some(text.to_owned())
            } else {
                None
            }
        },
        None => None,
    }
}

/// The sources to try in order, and a note that says why it is not the one asked
/// for.
pub open spec fn planned(netease: bool, requested: Option<Seq<char>>) -> (
    Seq<SourceId>,
    Seq<char>,
) {
    if requested == Some("netease"@) {
        if netease {
            (seq![SourceId::Netease], ""@)
        } else {
            (seq![SourceId::Local], "网易云音乐未配置，"@)
        }
    } else if requested == Some("local"@) || !netease {
        (seq![SourceId::Local], ""@)
    } else {
        (seq![SourceId::Local, SourceId::Netease], ""@)
    }
}

/// The artist as it is said after a title, or nothing.
pub open spec fn artist_phrase(artist: Seq<char>) -> Seq<char> {
    if artist.len() == 0 {
        ""@
    } else {
        "— "@ + artist
    }
}

/// What is said before a track plays.
pub open spec fn announcement(note: Seq<char>, track: TrackView) -> Seq<char> {
    note + "正在播放《"@ + track.title + "》"@ + artist_phrase(track.artist)
}

/// What has to happen next in a request for music.
pub enum PlayPhase {
    /// The current source is to be asked for candidates.
    Looking,
    /// The first candidate left is to be resolved.
    Resolving,
    /// This is to be said, then this URL played.
    Announcing { announcement: Seq<char>, url: Seq<char> },
    /// The request is answered.
    Done(Result<Seq<char>, BrainErrView>),
}

/// A request for music under way.
pub struct PlayView {
    pub query: Option<Seq<char>>,
    pub random: bool,
    pub note: Seq<char>,
    pub sources: Seq<SourceId>,
    /// The source being tried.
    pub at: int,
    /// The candidates of that source that are left.
    pub tracks: Seq<TrackView>,
    /// Why each candidate so far was passed over.
    pub skipped: Seq<Seq<char>>,
    pub phase: PlayPhase,
}

impl PlayView {
    /// There is a source, and a candidate to resolve when one is to be resolved.
    pub open spec fn wf(self) -> bool {
        &&& 0 <= self.at < self.sources.len()
        &&& self.phase is Resolving ==> self.tracks.len() > 0
        &&& self.query is None ==> self.random
    }

    /// The answer when nothing could be played.
    pub open spec fn nothing_played(self) -> Seq<char> {
        if self.skipped.len() > 0 {
            self.note + "没能播放："@ + joined(self.skipped, "；"@)
        } else {
            match self.query {
                Some(query) => self.note + "没有找到和「"@ + query + "」有关的歌曲"@,
                None => self.note + "曲库里没有可播放的歌曲"@,
            }
        }
    }

    /// Go on with the candidates that are left, else with the next source, else
    /// answer that nothing was played.
    pub open spec fn go_on(self) -> PlayView {
        if self.tracks.len() > 0 {
            PlayView { phase: PlayPhase::Resolving, ..self }
        } else if self.at + 1 < self.sources.len() {
            PlayView { at: self.at + 1, phase: PlayPhase::Looking, ..self }
        } else {
            PlayView { phase: PlayPhase::Done(Ok(self.nothing_played())), ..self }
        }
    }

    /// The current source offered `found`. One source failing does not sink the
    /// request.
    pub open spec fn after_found(self, found: Result<Seq<TrackView>, BrainErrView>) -> PlayView {
        match found {
            Ok(tracks) => PlayView {
                tracks: if tracks.len() > MAX_ATTEMPTS {
                    tracks.take(MAX_ATTEMPTS as int)
                } else {
                    tracks
                },
                ..self
            }.go_on(),
            Err(e) => PlayView {
                tracks: Seq::empty(),
                skipped: self.skipped.push(
                    self.sources[self.at].named() + "："@ + e.message(),
                ),
                ..self
            }.go_on(),
        }
    }

    /// The first candidate came to `resolved`.
    pub open spec fn after_resolved(self, resolved: Result<PlayableView, BrainErrView>) -> PlayView {
        let track = self.tracks[0];
        let rest = self.tracks.skip(1);
        match resolved {
            Ok(PlayableView::Url(url)) => PlayView {
                tracks: rest,
                phase: PlayPhase::Announcing { announcement: announcement(self.note, track), url },
                ..self
            },
            Ok(PlayableView::LocalFile(_)) => PlayView {
                tracks: rest,
                skipped: self.skipped.push("《"@ + track.title + "》无法通过网络播放"@),
                ..self
            }.go_on(),
            Err(e) => PlayView {
                tracks: rest,
                skipped: self.skipped.push(e.message()),
                ..self
            }.go_on(),
        }
    }

    /// The device was told to play. Its failure is a real one: another song would
    /// not help.
    pub open spec fn after_played(self, played: Result<(), BrainErrView>) -> PlayView {
        match self.phase {
            PlayPhase::Announcing { announcement, url } => PlayView {
                phase: PlayPhase::Done(
                    match played {
                        Ok(_) => Ok(announcement),
                        Err(e) => Err(e),
                    },
                ),
                ..self
            },
            _ => self,
        }
    }
}

#[derive(Debug)]
enum PlayStage {
    Looking,
    Resolving,
    Announcing { announcement: String, url: String },
    Done(Result<String, BrainErr>),
}

/// What the driver of a request for music has to do next.
#[derive(Debug)]
pub enum PlayStep<'a> {
    /// Search `source` for `query`, then [`Playing::on_found`].
    Search { source: SourceId, query: &'a str },
    /// Ask `source` for a random track, then [`Playing::on_picked`].
    Random { source: SourceId, filter: Option<&'a str> },
    /// Resolve `track` with `source`, then [`Playing::on_resolved`].
    Resolve { source: SourceId, track: &'a Track },
    /// Say the announcement and play the URL, then [`Playing::on_played`].
    Announce { announcement: &'a str, url: &'a str },
    /// Nothing: this is the answer.
    Answer(&'a Result<String, BrainErr>),
}

/// A request for music under way.
#[derive(Debug)]
pub struct Playing {
    query: Option<String>,
    random: bool,
    note: &'static str,
    sources: Vec<SourceId>,
    at: usize,
    tracks: Vec<Track>,
    skipped: Vec<String>,
    stage: PlayStage,
}

impl View for Playing {
    type V = PlayView;

    closed spec fn view(&self) -> PlayView {
        PlayView {
            query: opt_string(self.query),
            random: self.random,
            note: self.note@,
            sources: self.sources@,
            at: self.at as int,
            tracks: track_views(self.tracks@),
            skipped: views(self.skipped@),
            phase: match self.stage {
                PlayStage::Looking => PlayPhase::Looking,
                PlayStage::Resolving => PlayPhase::Resolving,
                PlayStage::Announcing { announcement, url } => PlayPhase::Announcing {
                    announcement: announcement@,
                    url: url@,
                },
                PlayStage::Done(r) => PlayPhase::Done(outcome(r)),
            },
        }
    }
}

/// What an offer of tracks says.
pub open spec fn found_view(found: Result<Vec<Track>, BrainErr>) -> Result<
    Seq<TrackView>,
    BrainErrView,
> {
    match found {
        Ok(tracks) => Ok(track_views(tracks@)),
        Err(e) => Err(e@),
    }
}

/// What an offer of one track, or none, says.
pub open spec fn picked_view(picked: Result<Option<Track>, BrainErr>) -> Result<
    Seq<TrackView>,
    BrainErrView,
> {
    match picked {
        Ok(Some(track)) => Ok(seq![track@]),
        Ok(None) => Ok(Seq::empty()),
        Err(e) => Err(e@),
    }
}

/// What a resolution says.
pub open spec fn resolved_view(resolved: Result<Playable, BrainErr>) -> Result<
    PlayableView,
    BrainErrView,
> {
    match resolved {
        Ok(playable) => Ok(playable@),
        Err(e) => Err(e@),
    }
}

/// What the device's reply says.
pub open spec fn played_view(played: Result<(), BrainErr>) -> Result<(), BrainErrView> {
    match played {
        Ok(_) => Ok(()),
        Err(e) => Err(e@),
    }
}

impl Playing {
    /// What to do next.
    pub fn step(&self) -> (r: PlayStep<'_>)
        requires
            self@.wf(),
        ensures
            match r {
                PlayStep::Search { source, query } => self@.phase is Looking && !self@.random
                    && source == self@.sources[self@.at] && self@.query == Some(query@),
                PlayStep::Random { source, filter } => self@.phase is Looking && self@.random
                    && source == self@.sources[self@.at] && self@.query == opt_view(filter),
                PlayStep::Resolve { source, track } => self@.phase is Resolving && source
                    == self@.sources[self@.at] && track@ == self@.tracks[0],
                PlayStep::Announce { announcement, url } => self@.phase
                    == (PlayPhase::Announcing { announcement: announcement@, url: url@ }),
                PlayStep::Answer(r) => self@.phase == PlayPhase::Done(outcome(*r)),
            },
    {
        let source = self.sources[self.at];
        match &self.stage {
            PlayStage::Looking => match &self.query {
                Some(query) => if self.random {
                    PlayStep::Random { source, filter: Some(query.as_str()) }
                } else {
                    PlayStep::Search { source, query: query.as_str() }
                },
                None => PlayStep::Random { source, filter: None },
            },
            PlayStage::Resolving => {
                assert(track_views(self.tracks@)[0] == self.tracks@[0]@);
                PlayStep::Resolve { source, track: &self.tracks[0] }
            },
            PlayStage::Announcing { announcement, url } => PlayStep::Announce {
                announcement: announcement.as_str(),
                url: url.as_str(),
            },
            PlayStage::Done(r) => PlayStep::Answer(r),
        }
    }

    /// The answer when nothing could be played.
    fn nothing_played(&self) -> (r: String)
        ensures
            r@ == self@.nothing_played(),
    {
        let mut out = self.note.to_owned();
        if self.skipped.len() > 0 {
            out.append("没能播放：");
            out.append(join(&self.skipped, "；").as_str());
            return out;
        }
        match &self.query {
            Some(query) => {
                out.append("没有找到和「");
                out.append(query.as_str());
                out.append("」有关的歌曲");
            },
            None => {
                out.append("曲库里没有可播放的歌曲");
            },
        }
        out
    }

    /// Go on with the next candidate, the next source, or the answer.
    fn go_on(&mut self)
        requires
            0 <= old(self)@.at < old(self)@.sources.len(),
            old(self)@.query is None ==> old(self)@.random,
        ensures
            final(self)@ == old(self)@.go_on(),
            final(self)@.wf(),
    {
        if self.tracks.len() > 0 {
            self.stage = PlayStage::Resolving;
        } else if self.sources.len() - self.at > 1 {
            self.at = self.at + 1;
            self.stage = PlayStage::Looking;
        } else {
            let text = self.nothing_played();
            self.stage = PlayStage::Done(Ok(text));
        }
    }

    /// A candidate or a source was passed over, for this reason.
    fn skip(&mut self, reason: String)
        ensures
            final(self)@ == (PlayView {
                skipped: old(self)@.skipped.push(reason@),
                ..old(self)@
            }),
    {
        let ghost before = self@.skipped;
        self.skipped.push(reason);
        assert(self@.skipped =~= before.push(reason@));
    }

    /// The search that [`Playing::step`] asked for found this.
    pub fn on_found(&mut self, found: Result<Vec<Track>, BrainErr>)
        requires
            old(self)@.wf(),
            old(self)@.phase is Looking,
        ensures
            final(self)@ == old(self)@.after_found(found_view(found)),
            final(self)@.wf(),
    {
        match found {
            Ok(tracks) => {
                let mut tracks = tracks;
                let ghost all = track_views(tracks@);
                if tracks.len() > MAX_ATTEMPTS {
                    tracks.truncate(MAX_ATTEMPTS);
                    assert(track_views(tracks@) =~= all.take(MAX_ATTEMPTS as int));
                }
                self.tracks = tracks;
                self.go_on();
            },
            Err(e) => {
                self.tracks = Vec::new();
                assert(self@.tracks =~= Seq::<TrackView>::empty());
                let mut reason = self.sources[self.at].name().to_owned();
                reason.append("：");
                reason.append(e.message().as_str());
                self.skip(reason);
                self.go_on();
            },
        }
    }

    /// The random pick that [`Playing::step`] asked for came to this.
    pub fn on_picked(&mut self, picked: Result<Option<Track>, BrainErr>)
        requires
            old(self)@.wf(),
            old(self)@.phase is Looking,
        ensures
            final(self)@ == old(self)@.after_found(picked_view(picked)),
            final(self)@.wf(),
    {
        let mut tracks: Vec<Track> = Vec::new();
        match picked {
            Ok(Some(track)) => {
                tracks.push(track);
                assert(track_views(tracks@) =~= seq![track@]);
                self.on_found(Ok(tracks));
            },
            Ok(None) => {
                assert(track_views(tracks@) =~= Seq::<TrackView>::empty());
                self.on_found(Ok(tracks));
            },
            Err(e) => {
                self.on_found(Err(e));
            },
        }
    }

    /// The track that [`Playing::step`] named resolved to this.
    pub fn on_resolved(&mut self, resolved: Result<Playable, BrainErr>)
        requires
            old(self)@.wf(),
            old(self)@.phase is Resolving,
        ensures
            final(self)@ == old(self)@.after_resolved(resolved_view(resolved)),
            final(self)@.wf(),
    {
        let ghost all = self@.tracks;
        let track = self.tracks.remove(0);
        assert(all[0] == track@);
        assert(self@.tracks =~= all.skip(1));
        match resolved {
            Ok(Playable::Url(url)) => {
                let mut announcement = self.note.to_owned();
                announcement.append("正在播放《");
                announcement.append(track.title.as_str());
                announcement.append("》");
                announcement.append(artist(&track).as_str());
                self.stage = PlayStage::Announcing { announcement, url };
            },
            Ok(Playable::LocalFile(_)) => {
                let mut reason = "《".to_owned();
                reason.append(track.title.as_str());
                reason.append("》无法通过网络播放");
                self.skip(reason);
                self.go_on();
            },
            Err(e) => {
                self.skip(e.message());
                self.go_on();
            },
        }
    }

    /// The device said this to the announcement and the URL.
    pub fn on_played(&mut self, played: Result<(), BrainErr>)
        requires
            old(self)@.wf(),
            old(self)@.phase is Announcing,
        ensures
            final(self)@ == old(self)@.after_played(played_view(played)),
            final(self)@.wf(),
    {
        let said = match &self.stage {
            PlayStage::Announcing { announcement, .. } => announcement.clone(),
            _ => String::new(),
        };
        match played {
            Ok(_) => {
                self.stage = PlayStage::Done(Ok(said));
            },
            Err(e) => {
                self.stage = PlayStage::Done(Err(e));
            },
        }
    }
}

/// The artist as it is said after a title, or nothing.
pub fn artist(track: &Track) -> (r: String)
    ensures
        r@ == artist_phrase(track.artist@),
{
    if track.artist.as_str().unicode_len() == 0 {
        "".to_owned()
    } else {
        let mut out = "— ".to_owned();
        out.append(track.artist.as_str());
        out
    }
}

/// Play music, preferring the local library.
///
/// The order is a product decision: the local library is the user's own
/// collection and never asks for a membership. NetEase is the fallback, unless
/// the user names it.
#[derive(Debug, Clone, Copy)]
pub struct PlayMusic {
    pub netease: bool,
}

impl PlayMusic {
    /// Local library only.
    pub fn new() -> (r: Self)
        ensures
            !r.netease,
    {
        Self { netease: false }
    }

    /// The same with NetEase as a second source.
    #[must_use]
    pub fn with_netease(self) -> (r: Self)
        ensures
            r.netease,
    {
        Self { netease: true }
    }

    /// The sources to try, in order, and a note for the answer.
    pub fn plan(&self, requested: Option<&str>) -> (r: (Vec<SourceId>, &'static str))
        ensures
            (r.0@, r.1@) == planned(self.netease, opt_view(requested)),
    {
        let mut order: Vec<SourceId> = Vec::new();
        let mut note: &'static str = "";
        match requested {
            Some(name) => {
                if same(name, "netease") {
                    if self.netease {
                        order.push(SourceId::Netease);
                    } else {
                        order.push(SourceId::Local);
                        note = "网易云音乐未配置，";
                    }
                    assert(order@ =~= planned(self.netease, opt_view(requested)).0);
                    return (order, note);
                }
                if same(name, "local") {
                    order.push(SourceId::Local);
                    proof {
                        reveal_strlit("local");
                        reveal_strlit("netease");
                    }
                    assert(order@ =~= planned(self.netease, opt_view(requested)).0);
                    return (order, note);
                }
            },
            None => {},
        }
        order.push(SourceId::Local);
        if self.netease {
            order.push(SourceId::Netease);
        }
        assert(order@ =~= planned(self.netease, opt_view(requested)).0);
        (order, note)
    }

    /// Begin the request that `args` makes.
    pub fn call(&self, args: &Json) -> (r: Result<Playing, BrainErr>)
        ensures
            ({
                let query = text_argument(args@, "query"@);
                let random = flag(args@, "random"@);
                let plan = planned(self.netease, args@.text_of("source"@));
                match r {
                    Err(e) => query is None && !random && e@ == BrainErrView::InvalidArguments(
                        "要播放什么？请给出 query（歌名或歌手），或者把 random 设为 true"@,
                    ),
                    Ok(playing) => {
                        &&& query is Some || random
                        &&& playing@ == (PlayView {
                            query,
                            random,
                            note: plan.1,
                            sources: plan.0,
                            at: 0,
                            tracks: Seq::empty(),
                            skipped: Seq::empty(),
                            phase: PlayPhase::Looking,
                        })
                        &&& playing@.wf()
                    },
                }
            }),
    {
        let query = argument(args, "query");
        let random: bool = match args.get("random") {
            Some(value) => match value.as_bool() {
                Some(b) => b,
                None => false,
            },
            None => false,
        };
        if query.is_none() && !random {
            return Err(
                BrainErr::InvalidArguments(
                    "要播放什么？请给出 query（歌名或歌手），或者把 random 设为 true".to_owned(),
                ),
            );
        }
        let (sources, note) = self.plan(args.text_of("source"));
        let playing = Playing {
            query,
            random,
            note,
            sources,
            at: 0,
            tracks: Vec::new(),
            skipped: Vec::new(),
            stage: PlayStage::Looking,
        };
        assert(playing@.tracks =~= Seq::<TrackView>::empty());
        assert(playing@.skipped =~= Seq::<Seq<char>>::empty());
        Ok(playing)
    }
}

/// Whether the argument `key` is `true`.
pub open spec fn flag(args: JsonView, key: Seq<char>) -> bool {
    match args.get(key) {
        Some(value) => value.truth() == Some(true),
        None => false,
    }
}

/// One property of an argument schema.
pub open spec fn property(kind: Seq<char>, description: Seq<char>) -> JsonView {
    JsonView::empty().with("type"@, JsonView::Str(kind)).with(
        "description"@,
        JsonView::Str(description),
    )
}

/// One property of an argument schema.
fn make_property(kind: &str, description: &str) -> (r: Json)
    ensures
        r@ == property(kind@, description@),
{
    Json::empty().with("type", Json::string(kind)).with("description", Json::string(description))
}

/// An object schema with these properties.
pub open spec fn object_schema(properties: JsonView) -> JsonView {
    JsonView::empty().with("type"@, JsonView::Str("object"@)).with("properties"@, properties)
}

/// An object schema with these properties.
fn make_object(properties: Json) -> (r: Json)
    ensures
        r@ == object_schema(properties@),
{
    Json::empty().with("type", Json::string("object")).with("properties", properties)
}

impl Tool for PlayMusic {
    open spec fn called(&self) -> Seq<char> {
        "play_music"@
    }

    open spec fn described(&self) -> Seq<char> {
        "播放音乐。用户想听某首歌、某个歌手，或者想随便听点什么时调用。默认先在本地曲库里找，找不到才去网易云音乐；只有用户明确说了「网易云」之类的话，才把 source 设成 netease。调用成功表示音箱已经开始播放，不需要再做别的。"@
    }

    open spec fn takes(&self) -> JsonView {
        object_schema(
            JsonView::empty().with(
                "query"@,
                property(
                    "string"@,
                    "要找的歌名、歌手名，或者两者一起，例如「周杰伦 晴天」。random 为 true 时，这里可以只写歌手名当作筛选条件，也可以不写。"@,
                ),
            ).with(
                "source"@,
                property(
                    "string"@,
                    "指定曲库来源。不填就是先本地、后网易云。只有用户明确要求时才填。"@,
                ).with(
                    "enum"@,
                    JsonView::Array(seq![JsonView::Str("local"@), JsonView::Str("netease"@)]),
                ),
            ).with(
                "random"@,
                property(
                    "boolean"@,
                    "用户说「随便放一首」「来点音乐」这类没有具体目标的请求时设为 true。"@,
                ),
            ),
        ).with("required"@, JsonView::Array(Seq::empty()))
    }

    fn name(&self) -> (r: &str) {
        "play_music"
    }

    fn description(&self) -> (r: &str) {
        "播放音乐。用户想听某首歌、某个歌手，或者想随便听点什么时调用。默认先在本地曲库里找，找不到才去网易云音乐；只有用户明确说了「网易云」之类的话，才把 source 设成 netease。调用成功表示音箱已经开始播放，不需要再做别的。"
    }

    fn parameters(&self) -> (r: Json) {
        let mut names: Vec<Json> = Vec::new();
        names.push(Json::string("local"));
        names.push(Json::string("netease"));
        assert(json_views(names@) =~= seq![
            JsonView::Str("local"@),
            JsonView::Str("netease"@),
        ]);
        let required: Vec<Json> = Vec::new();
        assert(json_views(required@) =~= Seq::<JsonView>::empty());
        make_object(
            Json::empty().with(
                "query",
                make_property(
                    "string",
                    "要找的歌名、歌手名，或者两者一起，例如「周杰伦 晴天」。random 为 true 时，这里可以只写歌手名当作筛选条件，也可以不写。",
                ),
            ).with(
                "source",
                make_property(
                    "string",
                    "指定曲库来源。不填就是先本地、后网易云。只有用户明确要求时才填。",
                ).with("enum", Json::array(names)),
            ).with(
                "random",
                make_property(
                    "boolean",
                    "用户说「随便放一首」「来点音乐」这类没有具体目标的请求时设为 true。",
                ),
            ),
        ).with("required", Json::array(required))
    }
}

/// Stop whatever is playing.
#[derive(Debug, Clone, Copy)]
pub struct Stop;

impl Stop {
    pub fn new() -> (r: Self) {
        Stop
    }

    /// The answer, given what the speaker said to being stopped.
    pub fn call(&self, stopped: Result<(), BrainErr>) -> (r: Result<String, BrainErr>)
        ensures
            outcome(r) == match stopped {
                Ok(_) => Ok::<Seq<char>, BrainErrView>("已停止播放"@),
                Err(e) => Err(e@),
            },
    {
        match stopped {
            Ok(_) => Ok("已停止播放".to_owned()),
            Err(e) => Err(e),
        }
    }
}

impl Tool for Stop {
    open spec fn called(&self) -> Seq<char> {
        "stop"@
    }

    open spec fn described(&self) -> Seq<char> {
        "停止播放。用户说「停」「别放了」「安静」这类话时调用。没有在播放时调用也是安全的。"@
    }

    open spec fn takes(&self) -> JsonView {
        object_schema(JsonView::empty())
    }

    fn name(&self) -> (r: &str) {
        "stop"
    }

    fn description(&self) -> (r: &str) {
        "停止播放。用户说「停」「别放了」「安静」这类话时调用。没有在播放时调用也是安全的。"
    }

    fn parameters(&self) -> (r: Json) {
        make_object(Json::empty())
    }
}

/// The volume a model asked for. Models emit `30`, `30.0` and `"30"` for the same
/// intent.
#[derive(Debug, Clone, PartialEq, Eq)]
pub enum Level {
    Whole(i64),
    /// A number that is no integer, still to be rounded to the nearest one.
    Fraction(String),
}

/// What a [`Level`] says.
pub enum LevelView {
    Whole(int),
    Fraction(Seq<char>),
}

impl View for Level {
    type V = LevelView;

    open spec fn view(&self) -> LevelView {
        match *self {
            Level::Whole(n) => LevelView::Whole(n as int),
            Level::Fraction(text) => LevelView::Fraction(text@),
        }
    }
}

/// The volume that `args` asks for. A number above the range of `i64` stands for
/// the largest one.
pub open spec fn level_asked(args: JsonView) -> Result<LevelView, BrainErrView> {
    match args.get("level"@) {
        None => Err(
            BrainErrView::InvalidArguments("要把音量调到多少？请给出 0 到 100 的 level"@),
        ),
        Some(JsonView::Int(n)) => Ok(
            LevelView::Whole(
                if n > i64::MAX {
                    i64::MAX as int
                } else {
                    n
                },
            ),
        ),
        Some(JsonView::Float(text)) => Ok(LevelView::Fraction(text)),
        Some(other) => match other {
            JsonView::Str(text) => match parsed_i64(trimmed(text)) {
                Some(n) => Ok(LevelView::Whole(n)),
                None => Err(not_a_level(other)),
            },
            _ => Err(not_a_level(other)),
        },
    }
}

/// What a model is told that asked for something else than a volume.
pub open spec fn not_a_level(value: JsonView) -> BrainErrView {
    BrainErrView::InvalidArguments(
        "`"@ + json_text(value) + "` 不是一个音量数字，请给 0 到 100"@,
    )
}

/// What a level or an error says.
pub open spec fn level_view(r: Result<Level, BrainErr>) -> Result<LevelView, BrainErrView> {
    match r {
        Ok(level) => Ok(level@),
        Err(e) => Err(e@),
    }
}

/// `n` within 0 to 100.
pub open spec fn clamped(n: int) -> int {
    if n < 0 {
        0
    } else if n > 100 {
        100
    } else {
        n
    }
}

/// Set the speaker volume.
#[derive(Debug, Clone, Copy)]
pub struct SetVolume;

impl SetVolume {
    pub fn new() -> (r: Self) {
        SetVolume
    }

    /// The volume that `args` asks for.
    pub fn level(&self, args: &Json) -> (r: Result<Level, BrainErr>)
        ensures
            level_view(r) == level_asked(args@),
    {
        let value = match args.get("level") {
            Some(value) => value,
            None => {
                return Err(
                    BrainErr::InvalidArguments(
                        "要把音量调到多少？请给出 0 到 100 的 level".to_owned(),
                    ),
                );
            },
        };
        match value {
            Json::Int(n) => {
                return Ok(Level::Whole(*n));
            },
            Json::UInt(n) => {
                return Ok(
                    Level::Whole(
                        if *n > i64::MAX as u64 {
                            i64::MAX
                        } else {
                            *n as i64
                        },
                    ),
                );
            },
            Json::Float(text) => {
                return Ok(Level::Fraction(text.clone()));
            },
            Json::Str(text) => match parse_i64(trim(text.as_str())) {
                Some(n) => {
                    return Ok(Level::Whole(n));
                },
                None => {},
            },
            _ => {},
        }
        let mut message = "`".to_owned();
        message.append(value.render().as_str());
        message.append("` 不是一个音量数字，请给 0 到 100");
        Err(BrainErr::InvalidArguments(message))
    }

    /// The volume to set. Clamped, never rejected: "把音量调到 200" plainly means
    /// as loud as it goes.
    pub fn clamp(level: i64) -> (r: u8)
        ensures
            r == clamped(level as int),
            r <= 100,
            0 <= level <= 100 ==> r == level,
            level < 0 ==> r == 0,
            level > 100 ==> r == 100,
    {
        if level < 0 {
            0
        } else if level > 100 {
            100
        } else {
            level as u8
        }
    }

    /// The answer, given what the speaker said to the volume `level`.
    pub fn call(&self, level: u8, set: Result<(), BrainErr>) -> (r: Result<String, BrainErr>)
        ensures
            outcome(r) == match set {
                Ok(_) => Ok::<Seq<char>, BrainErrView>("音量已调到 "@ + dec(level as nat)),
                Err(e) => Err(e@),
            },
    {
        match set {
            Ok(_) => {
                let mut out = "音量已调到 ".to_owned();
                out.append(u64_text(level as u64).as_str());
                Ok(out)
            },
            Err(e) => Err(e),
        }
    }
}

impl Tool for SetVolume {
    open spec fn called(&self) -> Seq<char> {
        "set_volume"@
    }

    open spec fn described(&self) -> Seq<char> {
        "设置音箱音量，0 到 100。用户说「大声点」「小声点」「音量调到 30」时调用。「大声点」这类相对的说法，自己估一个绝对值（比如比现在高 20）填进去。"@
    }

    open spec fn takes(&self) -> JsonView {
        object_schema(
            JsonView::empty().with(
                "level"@,
                property("integer"@, "目标音量，0 是静音，100 最大。"@).with(
                    "minimum"@,
                    JsonView::Int(0),
                ).with("maximum"@, JsonView::Int(100)),
            ),
        ).with("required"@, JsonView::Array(seq![JsonView::Str("level"@)]))
    }

    fn name(&self) -> (r: &str) {
        "set_volume"
    }

    fn description(&self) -> (r: &str) {
        "设置音箱音量，0 到 100。用户说「大声点」「小声点」「音量调到 30」时调用。「大声点」这类相对的说法，自己估一个绝对值（比如比现在高 20）填进去。"
    }

    fn parameters(&self) -> (r: Json) {
        let mut required: Vec<Json> = Vec::new();
        required.push(Json::string("level"));
        assert(json_views(required@) =~= seq![JsonView::Str("level"@)]);
        make_object(
            Json::empty().with(
                "level",
                make_property("integer", "目标音量，0 是静音，100 最大。").with(
                    "minimum",
                    Json::Int(0),
                ).with("maximum", Json::Int(100)),
            ),
        ).with("required", Json::array(required))
    }
}

/// The brief that lets the model tell a story.
pub open spec fn story_brief(topic: Option<Seq<char>>) -> Seq<char> {
    let subject = match topic {
        Some(topic) => "主题是「"@ + topic + "」。"@,
        None => "题材你自己定，选一个大多数人都会喜欢的。"@,
    };
    "现在直接开始讲故事，"@ + subject
        + "要求：有开头、经过和结尾，一次讲完，不要问用户想不想听；300 到 600 字，这一次不受「不超过三句话」的限制；口语化、适合朗读，不要用 Markdown、编号、括号注释或表情符号。"@
}

/// Tell a story.
///
/// The story is the model's to write. What this contributes is permission: the
/// system prompt keeps answers to about three sentences, which is right for every
/// request except this one.
#[derive(Debug, Default, Clone, Copy)]
pub struct TellStory;

impl TellStory {
    pub fn new() -> (r: Self) {
        TellStory
    }

    /// The brief, with the topic that `args` name.
    pub fn call(&self, args: &Json) -> (r: String)
        ensures
            r@ == story_brief(text_argument(args@, "topic"@)),
    {
        let subject = match argument(args, "topic") {
            Some(topic) => {
                let mut s = "主题是「".to_owned();
                s.append(topic.as_str());
                s.append("」。");
                s
            },
            None => "题材你自己定，选一个大多数人都会喜欢的。".to_owned(),
        };
        let mut out = "现在直接开始讲故事，".to_owned();
        out.append(subject.as_str());
        out.append(
            "要求：有开头、经过和结尾，一次讲完，不要问用户想不想听；300 到 600 字，这一次不受「不超过三句话」的限制；口语化、适合朗读，不要用 Markdown、编号、括号注释或表情符号。",
        );
        out
    }
}

impl Tool for TellStory {
    open spec fn called(&self) -> Seq<char> {
        "tell_story"@
    }

    open spec fn described(&self) -> Seq<char> {
        "用户想听故事时调用，比如「讲个故事」「讲个关于小狗的故事」。这个工具不会返回故事内容，它返回的是讲故事的要求——拿到之后由你把故事讲出来。闲聊、辩论、回答问题都不要调用它，直接回答即可。"@
    }

    open spec fn takes(&self) -> JsonView {
        object_schema(
            JsonView::empty().with(
                "topic"@,
                property("string"@, "用户指定的主题、角色或题材。用户没说就不要填。"@),
            ),
        ).with("required"@, JsonView::Array(Seq::empty()))
    }

    fn name(&self) -> (r: &str) {
        "tell_story"
    }

    fn description(&self) -> (r: &str) {
        "用户想听故事时调用，比如「讲个故事」「讲个关于小狗的故事」。这个工具不会返回故事内容，它返回的是讲故事的要求——拿到之后由你把故事讲出来。闲聊、辩论、回答问题都不要调用它，直接回答即可。"
    }

    fn parameters(&self) -> (r: Json) {
        let required: Vec<Json> = Vec::new();
        assert(json_views(required@) =~= Seq::<JsonView>::empty());
        make_object(
            Json::empty().with(
                "topic",
                make_property("string", "用户指定的主题、角色或题材。用户没说就不要填。"),
            ),
        ).with("required", Json::array(required))
    }
}

/// Any of the capabilities.
#[derive(Debug, Clone, Copy)]
pub enum VoiceTool {
    PlayMusic(PlayMusic),
    Stop(Stop),
    SetVolume(SetVolume),
    TellStory(TellStory),
}

impl Tool for VoiceTool {
    open spec fn called(&self) -> Seq<char> {
        match *self {
            VoiceTool::PlayMusic(t) => t.called(),
            VoiceTool::Stop(t) => t.called(),
            VoiceTool::SetVolume(t) => t.called(),
            VoiceTool::TellStory(t) => t.called(),
        }
    }

    open spec fn described(&self) -> Seq<char> {
        match *self {
            VoiceTool::PlayMusic(t) => t.described(),
            VoiceTool::Stop(t) => t.described(),
            VoiceTool::SetVolume(t) => t.described(),
            VoiceTool::TellStory(t) => t.described(),
        }
    }

    open spec fn takes(&self) -> JsonView {
        match *self {
            VoiceTool::PlayMusic(t) => t.takes(),
            VoiceTool::Stop(t) => t.takes(),
            VoiceTool::SetVolume(t) => t.takes(),
            VoiceTool::TellStory(t) => t.takes(),
        }
    }

    fn name(&self) -> (r: &str) {
        match self {
            VoiceTool::PlayMusic(t) => t.name(),
            VoiceTool::Stop(t) => t.name(),
            VoiceTool::SetVolume(t) => t.name(),
            VoiceTool::TellStory(t) => t.name(),
        }
    }

    fn description(&self) -> (r: &str) {
        match self {
            VoiceTool::PlayMusic(t) => t.description(),
            VoiceTool::Stop(t) => t.description(),
            VoiceTool::SetVolume(t) => t.description(),
            VoiceTool::TellStory(t) => t.description(),
        }
    }

    fn parameters(&self) -> (r: Json) {
        match self {
            VoiceTool::PlayMusic(t) => t.parameters(),
            VoiceTool::Stop(t) => t.parameters(),
            VoiceTool::SetVolume(t) => t.parameters(),
            VoiceTool::TellStory(t) => t.parameters(),
        }
    }
}

/// A request driven until it announces a track or is answered, when sources offer
/// `found` and tracks resolve to `resolves`.
pub open spec fn driven(
    play: PlayView,
    found: spec_fn(SourceId) -> Result<Seq<TrackView>, BrainErrView>,
    resolves: spec_fn(SourceId, TrackView) -> Result<PlayableView, BrainErrView>,
) -> PlayView
    decreases
            play.sources.len() - play.at,
            if play.phase is Looking {
                1int
            } else {
                0
            },
            play.tracks.len(),
{
    if !play.wf() {
        play
    } else {
        match play.phase {
            PlayPhase::Looking => driven(
                play.after_found(found(play.sources[play.at])),
                found,
                resolves,
            ),
            PlayPhase::Resolving => driven(
                play.after_resolved(resolves(play.sources[play.at], play.tracks[0])),
                found,
                resolves,
            ),
            _ => play,
        }
    }
}

/// The first of `tracks` that has a URL, with that URL.
pub open spec fn first_playable(
    source: SourceId,
    tracks: Seq<TrackView>,
    resolves: spec_fn(SourceId, TrackView) -> Result<PlayableView, BrainErrView>,
) -> Option<(TrackView, Seq<char>)>
    decreases tracks.len(),
{
    if tracks.len() == 0 {
        None
    } else {
        match resolves(source, tracks[0]) {
            Ok(PlayableView::Url(url)) => Some((tracks[0], url)),
            _ => first_playable(source, tracks.skip(1), resolves),
        }
    }
}

/// The candidates that a source's offer comes to.
pub open spec fn candidates(offer: Result<Seq<TrackView>, BrainErrView>) -> Seq<TrackView> {
    match offer {
        Ok(tracks) => if tracks.len() > MAX_ATTEMPTS {
            tracks.take(MAX_ATTEMPTS as int)
        } else {
            tracks
        },
        Err(_) => Seq::empty(),
    }
}

/// The track to play: the first candidate with a URL, of the first source from
/// `at` on that has one.
pub open spec fn choice(
    sources: Seq<SourceId>,
    at: int,
    found: spec_fn(SourceId) -> Result<Seq<TrackView>, BrainErrView>,
    resolves: spec_fn(SourceId, TrackView) -> Result<PlayableView, BrainErrView>,
) -> Option<(TrackView, Seq<char>)>
    decreases sources.len() - at,
{
    if at < 0 || at >= sources.len() {
        None
    } else {
        match first_playable(sources[at], candidates(found(sources[at])), resolves) {
            Some(hit) => Some(hit),
            None => choice(sources, at + 1, found, resolves),
        }
    }
}

/// A request plays the first candidate with a URL, in the order of the plan, and
/// announces that very track. Only when no candidate of any source has a URL is it
/// answered without playing anything, and that is an ordinary answer.
pub proof fn the_first_playable_candidate_plays(
    play: PlayView,
    found: spec_fn(SourceId) -> Result<Seq<TrackView>, BrainErrView>,
    resolves: spec_fn(SourceId, TrackView) -> Result<PlayableView, BrainErrView>,
)
    requires
        play.wf(),
        play.phase is Looking,
    ensures
        match choice(play.sources, play.at, found, resolves) {
            Some((track, url)) => driven(play, found, resolves).phase == (PlayPhase::Announcing {
                announcement: announcement(play.note, track),
                url,
            }),
            None => driven(play, found, resolves).phase matches PlayPhase::Done(Ok(_)),
        },
    decreases play.sources.len() - play.at,
{
    let source = play.sources[play.at];
    let next = play.after_found(found(source));
    let list = candidates(found(source));
    assert(driven(play, found, resolves) == driven(next, found, resolves));
    if list.len() > 0 {
        assert(next.tracks == list);
        candidates_in_order(next, found, resolves);
    } else if play.at + 1 < play.sources.len() {
        the_first_playable_candidate_plays(next, found, resolves);
    }
}

proof fn candidates_in_order(
    play: PlayView,
    found: spec_fn(SourceId) -> Result<Seq<TrackView>, BrainErrView>,
    resolves: spec_fn(SourceId, TrackView) -> Result<PlayableView, BrainErrView>,
)
    requires
        play.wf(),
        play.phase is Resolving,
    ensures
        match first_playable(play.sources[play.at], play.tracks, resolves) {
            Some((track, url)) => driven(play, found, resolves).phase == (PlayPhase::Announcing {
                announcement: announcement(play.note, track),
                url,
            }),
            None => match choice(play.sources, play.at + 1, found, resolves) {
                Some((track, url)) => driven(play, found, resolves).phase
                    == (PlayPhase::Announcing {
                    announcement: announcement(play.note, track),
                    url,
                }),
                None => driven(play, found, resolves).phase matches PlayPhase::Done(Ok(_)),
            },
        },
    decreases play.sources.len() - play.at, play.tracks.len(),
{
    let source = play.sources[play.at];
    let next = play.after_resolved(resolves(source, play.tracks[0]));
    assert(driven(play, found, resolves) == driven(next, found, resolves));
    if !(resolves(source, play.tracks[0]) matches Ok(PlayableView::Url(_))) {
        if next.tracks.len() > 0 {
            candidates_in_order(next, found, resolves);
        } else {
            reveal_with_fuel(first_playable, 2);
            if play.at + 1 < play.sources.len() {
                the_first_playable_candidate_plays(next, found, resolves);
            }
        }
    }
}

/// The user's own collection comes first: unless NetEase was asked for by name, it
/// is only ever the second source.
pub proof fn the_local_library_is_tried_first(netease: bool, requested: Option<Seq<char>>)
    ensures
        planned(netease, requested).0.len() > 0,
        requested != Some("netease"@) ==> planned(netease, requested).0[0] == SourceId::Local,
        requested == Some("local"@) ==> !planned(netease, requested).0.contains(SourceId::Netease),
        !netease ==> !planned(netease, requested).0.contains(SourceId::Netease),
{
    reveal_strlit("local");
    reveal_strlit("netease");
    assert("local"@ != "netease"@) by {
        assert("local"@.len() != "netease"@.len());
    }
}

/// A level on the speaker's scale is used as it is; one off the scale becomes the end of
/// the scale that it lies beyond, which no level on the scale is nearer to. A louder level
/// never becomes a quieter one.
pub proof fn a_level_on_the_scale_is_used_as_it_is(n: int, m: int)
    ensures
        0 <= clamped(n) <= 100,
        0 <= n <= 100 ==> clamped(n) == n,
        n < 0 ==> clamped(n) == 0,
        n > 100 ==> clamped(n) == 100,
        n <= m ==> clamped(n) <= clamped(m),
        0 <= m <= 100 && clamped(n) <= n ==> n - clamped(n) <= if m <= n {
            n - m
        } else {
            m - n
        },
        0 <= m <= 100 && clamped(n) >= n ==> clamped(n) - n <= if m <= n {
            n - m
        } else {
            m - n
        },
{
}

/// A level means the same number whether it is given as a number or written out as text,
/// with any white space around it. One above the range of `i64` is as loud as can be.
pub proof fn a_level_is_understood_however_it_is_given(
    args: JsonView,
    n: i64,
    before: Seq<char>,
    behind: Seq<char>,
)
    requires
        forall|i: int| 0 <= i < before.len() ==> white_space(#[trigger] before[i]),
        forall|i: int| 0 <= i < behind.len() ==> white_space(#[trigger] behind[i]),
    ensures
        args.get("level"@) == Some(JsonView::Int(n as int)) ==> level_asked(args) == Ok::<
            LevelView,
            BrainErrView,
        >(LevelView::Whole(n as int)),
        args.get("level"@) == Some(JsonView::Str(before + dec_int(n as int) + behind))
            ==> level_asked(args) == Ok::<LevelView, BrainErrView>(LevelView::Whole(n as int)),
        forall|big: int|
            big > i64::MAX && args.get("level"@) == Some(JsonView::Int(big)) ==> (level_asked(args)
                matches Ok(LevelView::Whole(k)) && clamped(k) == #[trigger] clamped(big)),
{
    written_signed_number_reads_back(n);
    let text = dec_int(n as int);
    let m: nat = if n < 0 {
        (-(n as int)) as nat
    } else {
        n as nat
    };
    dec_denotes(m);
    assert(is_digit(dec(m).last()) && is_digit(dec(m)[0]));
    assert(text.last() == dec(m).last());
    not_white(text[0]);
    not_white(text.last());
    trimming_ignores_white_space_around(before, text, behind);
}

proof fn not_white(c: char)
    ensures
        is_digit(c) || c == '-' ==> !white_space(c),
{
}

/// A level that is missing is asked for, and a value that is no number is refused by
/// name; a number with a fraction is handed on as it is written.
pub proof fn what_is_no_level_is_refused(args: JsonView)
    ensures
        args.get("level"@) is None ==> (level_asked(args) matches Err(
            BrainErrView::InvalidArguments(_),
        )),
        forall|value: JsonView|
            args.get("level"@) == Some(value) && (value is Null || value is Bool || value is Array
                || value is Object || (value matches JsonView::Str(text) && parsed_i64(
                trimmed(text),
            ) is None)) ==> (level_asked(args) matches Err(BrainErrView::InvalidArguments(why))
                && contains(why, #[trigger] json_text(value))),
        args.get("level"@) matches Some(JsonView::Float(text)) ==> level_asked(args) == Ok::<
            LevelView,
            BrainErrView,
        >(LevelView::Fraction(text)),
{
    assert forall|value: JsonView|
        args.get("level"@) == Some(value) && (value is Null || value is Bool || value is Array
            || value is Object || (value matches JsonView::Str(text) && parsed_i64(trimmed(text))
            is None)) implies (level_asked(args) matches Err(BrainErrView::InvalidArguments(why))
        && contains(why, #[trigger] json_text(value))) by {
        what_is_put_in_is_contained(
            "`"@,
            json_text(value),
            "` 不是一个音量数字，请给 0 到 100"@,
        );
    }
}

/// A text argument is taken as it is given but for white space around it. One that is not
/// there, is not text or is white space alone counts as not given.
pub proof fn a_text_argument_is_taken_as_given(
    args: JsonView,
    key: Seq<char>,
    before: Seq<char>,
    text: Seq<char>,
    behind: Seq<char>,
)
    requires
        forall|i: int| 0 <= i < before.len() ==> white_space(#[trigger] before[i]),
        forall|i: int| 0 <= i < behind.len() ==> white_space(#[trigger] behind[i]),
        text.len() > 0 ==> !white_space(text[0]) && !white_space(text.last()),
    ensures
        args.get(key) == Some(JsonView::Str(before + text + behind)) ==> text_argument(args, key)
            == if text.len() > 0 {
            Some(text)
        } else {
            None
        },
        !(args.get(key) matches Some(JsonView::Str(_))) ==> text_argument(args, key) is None,
{
    let all = before + text + behind;
    if text.len() > 0 {
        trimming_ignores_white_space_around(before, text, behind);
    } else {
        trimming_cuts_only_white_space(all);
        assert forall|i: int| 0 <= i < all.len() implies white_space(#[trigger] all[i]) by {
            if i < before.len() {
                assert(all[i] == before[i]);
            } else {
                assert(all[i] == behind[i - before.len()]);
            }
        }
    }
}

/// A flag counts only where it is there and is true.
pub proof fn a_flag_counts_only_when_true(args: JsonView, key: Seq<char>)
    ensures
        flag(args, key) <==> args.get(key) == Some(JsonView::Bool(true)),
{
}

/// A source that is asked for by name is the only one tried, where it can be had; where it
/// cannot, the user is told so. Asked for nothing, or for anything else, every source there
/// is gets its turn, and nothing is noted.
pub proof fn a_source_asked_for_is_the_one_tried(netease: bool, requested: Option<Seq<char>>)
    ensures
        requested == Some("netease"@) && netease ==> planned(netease, requested).0 == seq![
            SourceId::Netease,
        ],
        requested == Some("netease"@) && !netease ==> planned(netease, requested).0 == seq![
            SourceId::Local,
        ] && planned(netease, requested).1.len() > 0,
        requested == Some("local"@) ==> planned(netease, requested).0 == seq![SourceId::Local],
        requested != Some("netease"@) && requested != Some("local"@) ==> planned(
            netease,
            requested,
        ).0 == if netease {
            seq![SourceId::Local, SourceId::Netease]
        } else {
            seq![SourceId::Local]
        },
        requested != Some("netease"@) || netease ==> planned(netease, requested).1.len() == 0,
{
    reveal_strlit("");
    reveal_strlit("网易云音乐未配置，");
    reveal_strlit("local");
    reveal_strlit("netease");
    assert("local"@.len() != "netease"@.len());
}

/// An announcement opens with what there is to note, then names the title and, where it is
/// known, the artist. Nothing stands behind the artist.
pub proof fn an_announcement_names_the_track(note: Seq<char>, track: TrackView)
    ensures
        note.is_prefix_of(announcement(note, track)),
        contains(announcement(note, track).skip(note.len() as int), track.title),
        track.artist.len() > 0 ==> track.artist.is_suffix_of(announcement(note, track)),
        track.artist.len() == 0 ==> track.title.is_suffix_of(
            announcement(note, track).drop_last(),
        ),
        forall|other: Seq<char>| #[trigger]
            announcement(other, track) == other + announcement(note, track).skip(note.len() as int),
{
    reveal_strlit("》");
    reveal_strlit("");
    let said = announcement(note, track);
    let open = "正在播放《"@;
    let rest = "》"@ + artist_phrase(track.artist);
    assert(note =~= said.take(note.len() as int));
    assert(said.skip(note.len() as int) =~= open + track.title + rest);
    what_is_put_in_is_contained(open, track.title, rest);
    if track.artist.len() > 0 {
        assert(track.artist =~= said.skip(said.len() - track.artist.len()));
    } else {
        let cut = said.drop_last();
        assert(track.title =~= cut.skip(cut.len() - track.title.len()));
    }
    assert forall|other: Seq<char>| #[trigger] announcement(other, track) == other + said.skip(
        note.len() as int,
    ) by {
        assert(announcement(other, track) =~= other + said.skip(note.len() as int));
    }
}

/// When nothing played, the user hears why: every reason for passing a track or a source
/// over, or, where nothing was found at all, what was looked for. What there is to note
/// comes first.
pub proof fn nothing_is_passed_over_in_silence(play: PlayView, i: int)
    requires
        0 <= i < play.skipped.len() || play.skipped.len() == 0,
    ensures
        play.note.is_prefix_of(play.nothing_played()),
        play.skipped.len() > 0 ==> contains(play.nothing_played(), play.skipped[i]),
        play.skipped.len() == 0 && play.query is Some ==> contains(
            play.nothing_played(),
            play.query->0,
        ),
        play.nothing_played() == play.note + if play.skipped.len() > 0 {
            "没能播放："@ + joined(play.skipped, "；"@)
        } else {
            match play.query {
                Some(query) => "没有找到和「"@ + query + "」有关的歌曲"@,
                None => "曲库里没有可播放的歌曲"@,
            }
        },
{
    let said = play.nothing_played();
    assert(play.note =~= said.take(play.note.len() as int));
    if play.skipped.len() > 0 {
        let all = joined(play.skipped, "；"@);
        joining_keeps_every_part(play.skipped, Seq::empty(), "；"@);
        let part = play.skipped[i];
        assert(contains(all, part));
        let k = choose|k: int| occurs_at(all, part, k);
        let start = (play.note + "没能播放："@).len() as int;
        assert(said.subrange(start + k, start + k + part.len()) =~= all.subrange(
            k,
            k + part.len(),
        ));
        assert(occurs_at(said, part, start + k));
    } else if let Some(query) = play.query {
        what_is_put_in_is_contained(
            play.note + "没有找到和「"@,
            query,
            "」有关的歌曲"@,
        );
    }
}

/// Of what a source found, the first three are tried, in the order found; a source that
/// found nothing, or failed, hands over to the next, and after the last the user is told.
/// A failure is kept for that, with the source's name and its own words. What was asked
/// for stays what it was.
pub proof fn the_first_three_finds_are_tried(
    play: PlayView,
    found: Result<Seq<TrackView>, BrainErrView>,
)
    requires
        play.wf(),
        play.phase is Looking,
    ensures
        ({
            let now = play.after_found(found);
            &&& now.query == play.query
            &&& now.random == play.random
            &&& now.note == play.note
            &&& now.sources == play.sources
            &&& match found {
                Ok(tracks) => {
                    &&& now.skipped == play.skipped
                    &&& now.tracks.is_prefix_of(tracks)
                    &&& now.tracks.len() <= 3
                    &&& now.tracks.len() < 3 ==> now.tracks == tracks
                },
                Err(e) => {
                    &&& now.tracks.len() == 0
                    &&& now.skipped.len() == play.skipped.len() + 1
                    &&& now.skipped.drop_last() == play.skipped
                    &&& play.sources[play.at].named().is_prefix_of(now.skipped.last())
                    &&& e.message().is_suffix_of(now.skipped.last())
                },
            }
            &&& now.tracks.len() > 0 ==> now.phase is Resolving && now.at == play.at
            &&& now.tracks.len() == 0 && play.at + 1 < play.sources.len() ==> now.phase is Looking
                && now.at == play.at + 1
            &&& now.tracks.len() == 0 && play.at + 1 == play.sources.len() ==> now.phase
                == PlayPhase::Done(Ok(now.nothing_played()))
        }),
{
    let now = play.after_found(found);
    match found {
        Ok(tracks) => {
            assert(now.tracks =~= tracks.take(now.tracks.len() as int));
        },
        Err(e) => {
            assert(now.skipped.drop_last() =~= play.skipped);
            let why = now.skipped.last();
            let name = play.sources[play.at].named();
            assert(name =~= why.take(name.len() as int));
            assert(e.message() =~= why.skip(why.len() - e.message().len()));
        },
    }
}

/// A track that comes out as a URL is announced and played from that URL, and only it. One
/// that does not is passed over for the next, or the next source, or the end, and why is
/// kept: the error's own words, or the title of what cannot be played over the network.
pub proof fn a_track_plays_from_its_own_url(
    play: PlayView,
    resolved: Result<PlayableView, BrainErrView>,
)
    requires
        play.wf(),
        play.phase is Resolving,
    ensures
        ({
            let now = play.after_resolved(resolved);
            &&& now.query == play.query
            &&& now.random == play.random
            &&& now.note == play.note
            &&& now.sources == play.sources
            &&& now.tracks == play.tracks.skip(1)
            &&& match resolved {
                Ok(PlayableView::Url(found)) => {
                    &&& now.at == play.at
                    &&& now.skipped == play.skipped
                    &&& now.phase matches PlayPhase::Announcing { announcement: said, url } && url
                        == found && said == announcement(play.note, play.tracks[0])
                },
                Ok(PlayableView::LocalFile(_)) => {
                    &&& now.skipped.len() == play.skipped.len() + 1
                    &&& now.skipped.drop_last() == play.skipped
                    &&& contains(now.skipped.last(), play.tracks[0].title)
                    &&& !(now.phase is Announcing)
                },
                Err(e) => {
                    &&& now.skipped == play.skipped.push(e.message())
                    &&& !(now.phase is Announcing)
                },
            }
            &&& now.phase is Resolving ==> now.at == play.at && now.tracks.len() > 0
            &&& now.phase is Looking ==> now.at == play.at + 1 && now.tracks.len() == 0
            &&& now.phase is Done ==> now.tracks.len() == 0 && play.at + 1 == play.sources.len()
                && now.phase == PlayPhase::Done(Ok(now.nothing_played()))
        }),
{
    let now = play.after_resolved(resolved);
    if let Ok(PlayableView::LocalFile(_)) = resolved {
        assert(now.skipped.drop_last() =~= play.skipped);
        what_is_put_in_is_contained(
            "《"@,
            play.tracks[0].title,
            "》无法通过网络播放"@,
        );
    }
}

/// What was announced is what is answered once it plays; a speaker that fails is answered
/// with its own error.
pub proof fn what_was_announced_is_answered(play: PlayView, e: BrainErrView)
    requires
        play.phase is Announcing,
    ensures
        play.phase matches PlayPhase::Announcing { announcement, url } ==> play.after_played(
            Ok(()),
        ).phase == PlayPhase::Done(Ok::<Seq<char>, BrainErrView>(announcement)),
        play.after_played(Err(e)).phase == PlayPhase::Done(Err::<Seq<char>, BrainErrView>(e)),
{
}

/// What plays is the first candidate that comes out as a URL: it was offered, every
/// candidate before it did not come out so, and where none plays none did.
pub proof fn the_first_that_resolves_is_chosen(
    source: SourceId,
    tracks: Seq<TrackView>,
    resolves: spec_fn(SourceId, TrackView) -> Result<PlayableView, BrainErrView>,
)
    ensures
        match first_playable(source, tracks, resolves) {
            Some((track, url)) => exists|i: int|
                0 <= i < tracks.len() && #[trigger] tracks[i] == track && resolves(source, track)
                    == Ok::<PlayableView, BrainErrView>(PlayableView::Url(url)) && forall|j: int|
                    0 <= j < i ==> !(resolves(source, #[trigger] tracks[j]) matches Ok(
                        PlayableView::Url(_),
                    )),
            None => forall|i: int|
                0 <= i < tracks.len() ==> !(resolves(source, #[trigger] tracks[i]) matches Ok(
                    PlayableView::Url(_),
                )),
        },
    decreases tracks.len(),
{
    if tracks.len() > 0 {
        if let Ok(PlayableView::Url(url)) = resolves(source, tracks[0]) {
            assert(tracks[0] == tracks[0]);
        } else {
            let rest = tracks.skip(1);
            the_first_that_resolves_is_chosen(source, rest, resolves);
            match first_playable(source, rest, resolves) {
                Some((track, url)) => {
                    let i = choose|i: int|
                        0 <= i < rest.len() && #[trigger] rest[i] == track && resolves(
                            source,
                            track,
                        ) == Ok::<PlayableView, BrainErrView>(PlayableView::Url(url)) && forall|
                            j: int,
                        |
                            0 <= j < i ==> !(resolves(source, #[trigger] rest[j]) matches Ok(
                                PlayableView::Url(_),
                            ));
                    assert(tracks[i + 1] == track);
                    assert forall|j: int| 0 <= j < i + 1 implies !(resolves(
                        source,
                        #[trigger] tracks[j],
                    ) matches Ok(PlayableView::Url(_))) by {
                        if j > 0 {
                            assert(rest[j - 1] == tracks[j]);
                        }
                    }
                },
                None => {
                    assert forall|i: int| 0 <= i < tracks.len() implies !(resolves(
                        source,
                        #[trigger] tracks[i],
                    ) matches Ok(PlayableView::Url(_))) by {
                        if i > 0 {
                            assert(rest[i - 1] == tracks[i]);
                        }
                    }
                },
            }
        }
    }
}

/// A story on a topic is asked for on that topic; without one the model is left to choose.
pub proof fn a_story_is_about_its_topic(topic: Seq<char>)
    ensures
        contains(story_brief(Some(topic)), topic),
        story_brief(Some(topic)) != story_brief(None),
{
    reveal_strlit("现在直接开始讲故事，");
    reveal_strlit("主题是「");
    reveal_strlit("题材你自己定，选一个大多数人都会喜欢的。");
    let open = "现在直接开始讲故事，"@;
    let brief = story_brief(Some(topic));
    let start = open + "主题是「"@;
    let rest = brief.skip((start.len() + topic.len()) as int);
    what_is_put_in_is_contained(start, topic, rest);
    assert(brief =~= start + topic + rest);
    let n = open.len() as int;
    assert(brief[n] == "主题是「"@[0]);
    assert(story_brief(None)[n] == "题材你自己定，选一个大多数人都会喜欢的。"@[0]);
}

/// A declared argument says its type and what it is for.
pub proof fn an_argument_declares_its_type(kind: Seq<char>, description: Seq<char>)
    ensures
        property(kind, description).get("type"@) == Some(JsonView::Str(kind)),
        property(kind, description).get("description"@) == Some(JsonView::Str(description)),
        property(kind, description) is Object,
{
    reveal_strlit("type");
    reveal_strlit("description");
    reveal_with_fuel(crate::json::member, 3);
    assert("type"@.len() == 4 && "description"@.len() == 11);
}

/// The volume tool asks for one whole number, on the very scale that a level is held to.
pub proof fn the_volume_tool_asks_for_a_level(tool: SetVolume, n: int)
    ensures
        tool.takes().get("required"@) == Some(JsonView::Array(seq![JsonView::Str("level"@)])),
        match tool.takes().get("properties"@) {
            Some(properties) => match properties.get("level"@) {
                Some(level) => {
                    &&& level.get("type"@) == Some(JsonView::Str("integer"@))
                    &&& level.get("minimum"@) matches Some(JsonView::Int(low)) && (n < low
                        ==> clamped(n) == low) && clamped(low) == low
                    &&& level.get("maximum"@) matches Some(JsonView::Int(high)) && (n > high
                        ==> clamped(n) == high) && clamped(high) == high
                },
                None => false,
            },
            None => false,
        },
{
    reveal_strlit("type");
    reveal_strlit("description");
    reveal_strlit("minimum");
    reveal_strlit("maximum");
    reveal_strlit("properties");
    reveal_strlit("required");
    reveal_strlit("level");
    reveal_with_fuel(crate::json::member, 6);
    assert("type"@.len() == 4 && "description"@.len() == 11 && "properties"@.len() == 10);
    assert("minimum"@.len() == 7 && "maximum"@.len() == 7 && "minimum"@[1] != "maximum"@[1]);
    assert("required"@.len() == 8);
    let properties = tool.takes().get("properties"@)->0;
    let level = properties.get("level"@)->0;
    assert(level.get("minimum"@) == Some(JsonView::Int(0)));
    assert(level.get("maximum"@) == Some(JsonView::Int(100)));
}

/// The music tool offers exactly the sources there are, by the names they go by, and needs
/// no argument.
pub proof fn the_music_tool_offers_the_sources_there_are(tool: PlayMusic, source: SourceId)
    ensures
        tool.takes().get("required"@) == Some(JsonView::Array(Seq::empty())),
        match tool.takes().get("properties"@) {
            Some(properties) => {
                &&& properties.get("query"@) matches Some(query) && query.get("type"@) == Some(
                    JsonView::Str("string"@),
                )
                &&& properties.get("random"@) matches Some(random) && random.get("type"@) == Some(
                    JsonView::Str("boolean"@),
                )
                &&& properties.get("source"@) matches Some(offer) && offer.get("type"@) == Some(
                    JsonView::Str("string"@),
                ) && (offer.get("enum"@) matches Some(JsonView::Array(names)) && names.len() == 2
                    && names.contains(JsonView::Str(source.named())))
            },
            None => false,
        },
{
    reveal_strlit("type");
    reveal_strlit("description");
    reveal_strlit("enum");
    reveal_strlit("properties");
    reveal_strlit("required");
    reveal_strlit("query");
    reveal_strlit("source");
    reveal_strlit("random");
    reveal_with_fuel(crate::json::member, 6);
    assert("type"@.len() == 4 && "description"@.len() == 11 && "properties"@.len() == 10);
    assert("enum"@.len() == 4 && "enum"@[0] != "type"@[0]);
    assert("required"@.len() == 8 && "query"@.len() == 5);
    assert("source"@.len() == 6 && "random"@.len() == 6 && "source"@[0] != "random"@[0]);
    let properties = tool.takes().get("properties"@)->0;
    let offer = properties.get("source"@)->0;
    let names = seq![JsonView::Str("local"@), JsonView::Str("netease"@)];
    assert(offer.get("enum"@) == Some(JsonView::Array(names)));
    assert(names[0] == JsonView::Str(SourceId::Local.named()));
    assert(names[1] == JsonView::Str(SourceId::Netease.named()));
    assert(properties.get("query"@)->0.get("type"@) == Some(JsonView::Str("string"@)));
    assert(properties.get("random"@)->0.get("type"@) == Some(JsonView::Str("boolean"@)));
}

/// No two kinds of tool go by one name, so each call reaches the tool it was meant for.
pub proof fn no_two_tools_share_a_name(
    music: PlayMusic,
    stop: Stop,
    volume: SetVolume,
    story: TellStory,
)
    ensures
        VoiceTool::PlayMusic(music).called() != VoiceTool::Stop(stop).called(),
        VoiceTool::PlayMusic(music).called() != VoiceTool::SetVolume(volume).called(),
        VoiceTool::PlayMusic(music).called() != VoiceTool::TellStory(story).called(),
        VoiceTool::Stop(stop).called() != VoiceTool::SetVolume(volume).called(),
        VoiceTool::Stop(stop).called() != VoiceTool::TellStory(story).called(),
        VoiceTool::SetVolume(volume).called() != VoiceTool::TellStory(story).called(),
        VoiceTool::PlayMusic(music).takes() == music.takes(),
        VoiceTool::Stop(stop).takes() == stop.takes(),
        VoiceTool::SetVolume(volume).takes() == volume.takes(),
        VoiceTool::TellStory(story).takes() == story.takes(),
        VoiceTool::PlayMusic(music).described() == music.described(),
        VoiceTool::Stop(stop).described() == stop.described(),
        VoiceTool::SetVolume(volume).described() == volume.described(),
        VoiceTool::TellStory(story).described() == story.described(),
{
    reveal_strlit("play_music");
    reveal_strlit("stop");
    reveal_strlit("set_volume");
    reveal_strlit("tell_story");
    assert("play_music"@[0] != "set_volume"@[0]);
    assert("play_music"@[0] != "tell_story"@[0]);
    assert("set_volume"@[0] != "tell_story"@[0]);
    assert("stop"@.len() == 4);
}

/// What is said of a level is the number or the text that it holds, and what is said of a
/// source's answer is that answer.
pub proof fn levels_and_answers_show_what_they_hold(
    level: Level,
    tracks: Vec<Track>,
    track: Track,
    playable: Playable,
    e: BrainErr,
)
    ensures
        match level {
            Level::Whole(n) => level@ == LevelView::Whole(n as int),
            Level::Fraction(text) => level@ == LevelView::Fraction(text@),
        },
        found_view(Ok(tracks)) == Ok::<Seq<TrackView>, BrainErrView>(track_views(tracks@)),
        found_view(Err(e)) == Err::<Seq<TrackView>, BrainErrView>(e@),
        picked_view(Ok(Some(track))) == Ok::<Seq<TrackView>, BrainErrView>(seq![track@]),
        picked_view(Ok(None)) == Ok::<Seq<TrackView>, BrainErrView>(Seq::empty()),
        picked_view(Err(e)) == Err::<Seq<TrackView>, BrainErrView>(e@),
        resolved_view(Ok(playable)) == Ok::<PlayableView, BrainErrView>(playable@),
        resolved_view(Err(e)) == Err::<PlayableView, BrainErrView>(e@),
        played_view(Ok(())) == Ok::<(), BrainErrView>(()),
        played_view(Err(e)) == Err::<(), BrainErrView>(e@),
{
}

/// The story tool may be told a topic, as text, and needs none; the stopping tool takes
/// nothing.
pub proof fn a_story_may_be_told_its_topic(story: TellStory, stop: Stop)
    ensures
        story.takes().get("required"@) == Some(JsonView::Array(Seq::empty())),
        match story.takes().get("properties"@) {
            Some(properties) => properties.get("topic"@) matches Some(topic) && topic.get("type"@)
                == Some(JsonView::Str("string"@)),
            None => false,
        },
        stop.takes().get("properties"@) == Some(JsonView::Object(Seq::empty())),
        story.takes().get("type"@) == Some(JsonView::Str("object"@)),
        stop.takes().get("type"@) == Some(JsonView::Str("object"@)),
{
    reveal_strlit("type");
    reveal_strlit("description");
    reveal_strlit("properties");
    reveal_strlit("required");
    reveal_with_fuel(crate::json::member, 5);
    assert("type"@.len() == 4 && "description"@.len() == 11 && "properties"@.len() == 10);
    assert("required"@.len() == 8);
    let properties = story.takes().get("properties"@)->0;
    let topic = properties.get("topic"@)->0;
    assert(topic.get("type"@) == Some(JsonView::Str("string"@)));
}

} // verus!
