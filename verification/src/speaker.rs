//! The XiaoAi speaker as a voice output and as a source of utterances.
//!
//! Three facts about the hardware shape everything here:
//! - There is no push API. Nothing tells that the user spoke or that a track
//!   ended, so the speaker is asked again every few seconds.
//! - Xiaomi's own assistant answers first, out loud, and its reply is reported as
//!   ordinary playback. It is cut short, and only audio started here is waited out.
//! - Speech and music share one channel: speech replaces a song, which is not
//!   resumed. So a track is announced before it starts, and a confirmation that
//!   comes after is dropped.

use crate::brain::traits::{Utterance, UtteranceView};
use crate::decimal::{dec, u64_text};
use crate::gate::{enabled_after, verdict, Decision, Gate, Verdict};
use crate::json::JsonView;
use crate::xiaoai::account::AuthData;
use crate::xiaoai::op::{
    carries, is_request_id, status_of, Device, Message, OpPayload, OpPayloadBuilder, OpResponse,
    Play, PlayUrl, Speak, Status, Volume, XiaoaiStatus,
};
use vstd::prelude::*;

verus! {

/// The shortest gap between two polls, in milliseconds. It also paces the wait for
/// the end of a track.
pub const MIN_POLL_INTERVAL: u64 = 3000;

/// The longest gap between two polls.
pub const MAX_POLL_INTERVAL: u64 = 10000;

/// What a poll that hears nothing new adds to the gap.
pub const POLL_BACKOFF: u64 = 1000;

/// The longest wait for the end of a track. A track that never starts leaves the
/// device paused for good.
pub const MAX_PLAYBACK_WAIT: u64 = 1200000;

/// The speaker: credentials, the device id, and what was last put on its channel.
#[derive(Debug)]
pub struct XiaoaiSpeaker {
    auth_data: AuthData,
    device_id: String,
    /// Set when we put sound on the speaker, cleared when it is waited out.
    we_are_playing: bool,
    /// Set when a track starts: the next words would replace it.
    suppress_next_say: bool,
}

/// What an [`XiaoaiSpeaker`] is.
pub struct SpeakerView {
    pub user_id: int,
    pub service_token: Seq<char>,
    pub device_id: Seq<char>,
    pub we_are_playing: bool,
    pub suppress_next_say: bool,
}

impl View for XiaoaiSpeaker {
    type V = SpeakerView;

    closed spec fn view(&self) -> SpeakerView {
        SpeakerView {
            user_id: self.auth_data.user_id as int,
            service_token: self.auth_data.service_token@,
            device_id: self.device_id@,
            we_are_playing: self.we_are_playing,
            suppress_next_say: self.suppress_next_say,
        }
    }
}

/// Whether `builder` is for this speaker and account.
pub open spec fn addressed(builder: OpPayloadBuilder, speaker: SpeakerView) -> bool {
    &&& builder.user_id == speaker.user_id
    &&& builder.service_token@ == speaker.service_token
    &&& builder.device_id@ == speaker.device_id
    &&& is_request_id(builder.request_id@)
}

/// Whether `payload` says `text` on this speaker.
pub open spec fn says(payload: OpPayload<Speak>, speaker: SpeakerView, text: Seq<char>) -> bool {
    exists|b: OpPayloadBuilder|
        addressed(b, speaker) && #[trigger] carries(
            payload,
            b,
            "mibrain"@,
            "text_to_speech"@,
            JsonView::empty().with("text"@, JsonView::Str(text)),
        )
}

/// Whether `payload` plays `url` on this speaker.
pub open spec fn plays(payload: OpPayload<PlayUrl>, speaker: SpeakerView, url: Seq<char>) -> bool {
    exists|b: OpPayloadBuilder|
        addressed(b, speaker) && #[trigger] carries(
            payload,
            b,
            "mediaplayer"@,
            "player_play_url"@,
            JsonView::empty().with("url"@, JsonView::Str(url)).with("type"@, JsonView::Int(1)),
        )
}

/// Whether `payload` pauses this speaker.
pub open spec fn pauses(payload: OpPayload<Play>, speaker: SpeakerView) -> bool {
    exists|b: OpPayloadBuilder|
        addressed(b, speaker) && #[trigger] carries(
            payload,
            b,
            "mediaplayer"@,
            "player_play_operation"@,
            JsonView::empty().with("action"@, JsonView::Str("pause"@)),
        )
}

/// Whether `payload` sets this speaker's volume.
pub open spec fn sets_volume(payload: OpPayload<Volume>, speaker: SpeakerView, level: int) -> bool {
    exists|b: OpPayloadBuilder|
        addressed(b, speaker) && #[trigger] carries(
            payload,
            b,
            "mediaplayer"@,
            "player_set_volume"@,
            JsonView::empty().with("volume"@, JsonView::Int(level)),
        )
}

/// Whether `payload` asks this speaker for its status.
pub open spec fn asks_status(payload: OpPayload<Status>, speaker: SpeakerView) -> bool {
    exists|b: OpPayloadBuilder|
        addressed(b, speaker) && #[trigger] carries(
            payload,
            b,
            "mediaplayer"@,
            "player_get_play_status"@,
            JsonView::empty(),
        )
}

impl XiaoaiSpeaker {
    pub fn new(auth_data: AuthData, device: &Device) -> (r: Self)
        ensures
            r@ == (SpeakerView {
                user_id: auth_data.user_id as int,
                service_token: auth_data.service_token@,
                device_id: device.device_id@,
                we_are_playing: false,
                suppress_next_say: false,
            }),
    {
        Self {
            auth_data,
            device_id: device.device_id.clone(),
            we_are_playing: false,
            suppress_next_say: false,
        }
    }

    /// A fresh operation for this speaker.
    fn op(&self) -> (r: OpPayloadBuilder)
        ensures
            addressed(r, self@),
    {
        OpPayloadBuilder::new(&self.auth_data, self.device_id.as_str())
    }

    /// Record that we started audio which the poll loop should wait out.
    pub fn note_our_playback(&mut self)
        ensures
            final(self)@ == (SpeakerView { we_are_playing: true, ..old(self)@ }),
    {
        self.we_are_playing = true;
    }

    /// Whether we started audio since last asked, clearing the flag.
    pub fn took_our_playback(&mut self) -> (r: bool)
        ensures
            r == old(self)@.we_are_playing,
            final(self)@ == (SpeakerView { we_are_playing: false, ..old(self)@ }),
    {
        let was: bool = self.we_are_playing;
        self.we_are_playing = false;
        was
    }

    /// Have the next words dropped.
    pub fn arm_say_suppression(&mut self)
        ensures
            final(self)@ == (SpeakerView { suppress_next_say: true, ..old(self)@ }),
    {
        self.suppress_next_say = true;
    }

    /// Whether these words should be dropped, clearing the flag.
    pub fn take_say_suppression(&mut self) -> (r: bool)
        ensures
            r == old(self)@.suppress_next_say,
            final(self)@ == (SpeakerView { suppress_next_say: false, ..old(self)@ }),
    {
        let was: bool = self.suppress_next_say;
        self.suppress_next_say = false;
        was
    }

    /// Cancel a suppression that no words consumed, which would otherwise eat the
    /// next command's reply.
    pub fn discard_suppressed_say(&mut self)
        ensures
            final(self)@ == (SpeakerView { suppress_next_say: false, ..old(self)@ }),
    {
        self.suppress_next_say = false;
    }

    /// What silences the built-in assistant: it runs through the same media player
    /// as music.
    pub fn hush(&self) -> (r: OpPayload<Play>)
        ensures
            pauses(r, self@),
    {
        let b = self.op();
        let r = b.pause();
        assert(carries(
            r,
            b,
            "mediaplayer"@,
            "player_play_operation"@,
            JsonView::empty().with("action"@, JsonView::Str("pause"@)),
        ));
        r
    }

    /// What says `text`, or nothing when it is the confirmation of a track that has
    /// just started. The words right after a track are dropped once.
    pub fn say(&mut self, text: &str) -> (r: Option<OpPayload<Speak>>)
        ensures
            r is None <==> old(self)@.suppress_next_say,
            r matches Some(payload) ==> says(payload, old(self)@, text@),
            final(self)@ == (SpeakerView { suppress_next_say: false, ..old(self)@ }),
    {
        if self.take_say_suppression() {
            return None;
        }
        Some(self.speak(text))
    }

    /// What says `text`, come what may.
    fn speak(&self, text: &str) -> (r: OpPayload<Speak>)
        ensures
            says(r, self@, text@),
    {
        let b = self.op();
        let r = b.speak(text);
        assert(carries(
            r,
            b,
            "mibrain"@,
            "text_to_speech"@,
            JsonView::empty().with("text"@, JsonView::Str(text@)),
        ));
        r
    }

    /// What plays `url`: first a pause, which clears a reply still being spoken,
    /// then the URL. Once accepted, [`XiaoaiSpeaker::on_playing`] follows.
    pub fn play(&self, url: &str) -> (r: (OpPayload<Play>, OpPayload<PlayUrl>))
        ensures
            pauses(r.0, self@),
            plays(r.1, self@, url@),
    {
        (self.hush(), self.play_url(url))
    }

    fn play_url(&self, url: &str) -> (r: OpPayload<PlayUrl>)
        ensures
            plays(r, self@, url@),
    {
        let b = self.op();
        let r = b.play_url(url);
        assert(carries(
            r,
            b,
            "mediaplayer"@,
            "player_play_url"@,
            JsonView::empty().with("url"@, JsonView::Str(url@)).with("type"@, JsonView::Int(1)),
        ));
        r
    }

    /// What announces a track and plays it: the words, how long to hold the channel
    /// for them in milliseconds, and the URL. There is no signal for the end of
    /// speech, so time is the only lever.
    pub fn announce_then_play(&self, announcement: &str, url: &str) -> (r: (
        OpPayload<Speak>,
        u64,
        OpPayload<PlayUrl>,
    ))
        ensures
            says(r.0, self@, announcement@),
            r.1 == speech_time(announcement@),
            plays(r.2, self@, url@),
    {
        (self.speak(announcement), estimated_speech(announcement), self.play_url(url))
    }

    /// The speaker accepted a track: it is ours to wait out, and words right after
    /// it would replace it.
    pub fn on_playing(&mut self)
        ensures
            final(self)@ == (SpeakerView {
                we_are_playing: true,
                suppress_next_say: true,
                ..old(self)@
            }),
    {
        self.note_our_playback();
        self.arm_say_suppression();
    }

    /// What stops playback. There is no such operation, and pausing an idle speaker
    /// does nothing.
    pub fn stop(&self) -> (r: OpPayload<Play>)
        ensures
            pauses(r, self@),
    {
        self.hush()
    }

    /// What sets the volume. The scale is the speaker's own, from 0 to 100: a level
    /// above it is as loud as it goes.
    pub fn set_volume(&self, level: u8) -> (r: OpPayload<Volume>)
        ensures
            sets_volume(
                r,
                self@,
                if level > 100 {
                    100
                } else {
                    level as int
                },
            ),
    {
        let used: usize = if level > 100 {
            100
        } else {
            level as usize
        };
        let b = self.op();
        let r = b.volume(used);
        assert(carries(
            r,
            b,
            "mediaplayer"@,
            "player_set_volume"@,
            JsonView::empty().with("volume"@, JsonView::Int(used as int)),
        ));
        r
    }

    /// What asks for the status.
    pub fn status(&self) -> (r: OpPayload<Status>)
        ensures
            asks_status(r, self@),
    {
        let b = self.op();
        let r = b.status();
        assert(carries(
            r,
            b,
            "mediaplayer"@,
            "player_get_play_status"@,
            JsonView::empty(),
        ));
        r
    }

    /// Whether a playback session is in progress, by the reply to a status query.
    /// A pause counts: whoever waits must not resume in the middle of a song.
    pub fn is_playing(resp: &OpResponse) -> (r: bool)
        ensures
            r == (status_of(resp.code()) == XiaoaiStatus::Playing || status_of(resp.code())
                == XiaoaiStatus::Paused),
    {
        resp.status().in_session()
    }
}

/// How long reading `text` aloud is given, in milliseconds: a start-up allowance,
/// time for every character, and a cap.
pub open spec fn speech_time(text: Seq<char>) -> int {
    if 2500 + 320 * text.len() > 10000 {
        10000
    } else {
        (2500 + 320 * text.len()) as int
    }
}

/// Roughly how long to hold the channel for the speaker to read `text` aloud.
/// Counted in characters, so that Chinese is timed by spoken length.
pub fn estimated_speech(text: &str) -> (r: u64)
    ensures
        r == speech_time(text@),
{
    let n: usize = text.unicode_len();
    if n > 23 {
        10000
    } else {
        2500 + 320 * (n as u64)
    }
}

/// What an [`XiaoaiSource`] is.
pub struct SourceView {
    /// Whether the agent is listening.
    pub enabled: bool,
    /// The time of the newest record dealt with. `None` until the first poll.
    pub last_seen: Option<int>,
    /// The gap before the next poll, in milliseconds.
    pub poll_interval: int,
}

impl SourceView {
    /// The gap is within its bounds.
    pub open spec fn wf(self) -> bool {
        MIN_POLL_INTERVAL <= self.poll_interval <= MAX_POLL_INTERVAL
    }

    /// The gap halved, but not below its floor.
    pub open spec fn faster(self) -> int {
        if self.poll_interval / 2 < MIN_POLL_INTERVAL {
            MIN_POLL_INTERVAL as int
        } else {
            self.poll_interval / 2
        }
    }

    /// The gap a step longer, but not above its ceiling.
    pub open spec fn slower(self) -> int {
        if self.poll_interval + POLL_BACKOFF > MAX_POLL_INTERVAL {
            MAX_POLL_INTERVAL as int
        } else {
            self.poll_interval + POLL_BACKOFF
        }
    }

    /// Whether a record of this time is past the cursor.
    pub open spec fn is_new(self, time: int) -> bool {
        self.last_seen matches Some(seen) && time > seen
    }

    /// What a record is worth. Only a new one is looked at.
    pub open spec fn judged(self, time: int, query: Seq<char>) -> Verdict {
        if self.is_new(time) {
            verdict(self.enabled, query)
        } else {
            Verdict::Ignore
        }
    }

    /// The source after judging a record. The cursor moves the instant a record is
    /// recognised as new, however it is then handled; the first record only sets
    /// it.
    pub open spec fn seen(self, time: int, query: Seq<char>) -> SourceView {
        if self.is_new(time) {
            SourceView {
                enabled: enabled_after(self.enabled, query),
                last_seen: Some(time),
                ..self
            }
        } else if self.last_seen is None {
            SourceView { last_seen: Some(time), ..self }
        } else {
            self
        }
    }

    /// The source after a poll. An empty history sets the cursor, so that the first
    /// real utterance is a command. A failed poll says nothing about the user.
    pub open spec fn polled(self, latest: Poll) -> SourceView {
        match latest {
            Poll::Failed => self,
            Poll::Empty => SourceView {
                last_seen: match self.last_seen {
                    Some(seen) => Some(seen),
                    None => Some(0),
                },
                poll_interval: self.slower(),
                ..self
            },
            Poll::Record { time, query } => SourceView {
                poll_interval: if self.is_new(time) {
                    self.faster()
                } else {
                    self.slower()
                },
                ..self.seen(time, query)
            },
        }
    }
}

/// What a poll of the history came to.
pub enum Poll {
    Failed,
    Empty,
    Record { time: int, query: Seq<char> },
}

/// The newest record of the history: its time in milliseconds, and what was said.
#[derive(Debug, Clone, PartialEq, Eq)]
pub struct Latest {
    pub time: usize,
    pub query: String,
}

/// What a poll says.
pub open spec fn poll_of(latest: Result<Option<Latest>, String>) -> Poll {
    match latest {
        Err(_) => Poll::Failed,
        Ok(None) => Poll::Empty,
        Ok(Some(record)) => Poll::Record { time: record.time as int, query: record.query@ },
    }
}

/// What to do after a poll.
#[derive(Debug, Clone, PartialEq, Eq)]
pub enum Heard {
    /// Nothing: poll again.
    Nothing,
    /// Say this, then poll again.
    Say(&'static str),
    /// Silence the built-in assistant and hand this on.
    Forward(Utterance),
}

/// What to do when the gap before a poll is over.
#[derive(Debug)]
pub enum Due {
    /// Wait until the speaker falls silent, and only then poll: the audio is ours.
    Wait(PlaybackWait),
    /// Poll the history.
    Poll,
}

/// The speaker's conversation history as a stream of utterances: the newest record
/// is handed on when it is new and the [`Gate`] finds it worth a call.
#[derive(Debug)]
pub struct XiaoaiSource {
    gate: Gate,
    last_seen: Option<usize>,
    poll_interval: u64,
}

impl View for XiaoaiSource {
    type V = SourceView;

    closed spec fn view(&self) -> SourceView {
        SourceView {
            enabled: self.gate@,
            last_seen: match self.last_seen {
                Some(seen) => Some(seen as int),
                None => None,
            },
            poll_interval: self.poll_interval as int,
        }
    }
}

impl XiaoaiSource {
    pub fn new() -> (r: Self)
        ensures
            r@ == (SourceView {
                enabled: true,
                last_seen: None,
                poll_interval: MIN_POLL_INTERVAL as int,
            }),
            r@.wf(),
    {
        Self { gate: Gate::new(), last_seen: None, poll_interval: MIN_POLL_INTERVAL }
    }

    /// The time of the newest record dealt with.
    pub fn last_seen(&self) -> (r: Option<usize>)
        ensures
            match r {
                Some(seen) => self@.last_seen == Some(seen as int),
                None => self@.last_seen is None,
            },
    {
        self.last_seen
    }

    /// The gap before the next poll, in milliseconds.
    pub fn poll_interval(&self) -> (r: u64)
        ensures
            r == self@.poll_interval,
    {
        self.poll_interval
    }

    /// A new record showed up: halve the gap. Activity predicts more activity.
    pub fn speed_up(&mut self)
        requires
            old(self)@.wf(),
        ensures
            final(self)@ == (SourceView { poll_interval: old(self)@.faster(), ..old(self)@ }),
            final(self)@.wf(),
    {
        let half: u64 = self.poll_interval / 2;
        self.poll_interval = if half < MIN_POLL_INTERVAL {
            MIN_POLL_INTERVAL
        } else {
            half
        };
    }

    /// Nothing new this poll: back off one step.
    pub fn slow_down(&mut self)
        requires
            old(self)@.wf(),
        ensures
            final(self)@ == (SourceView { poll_interval: old(self)@.slower(), ..old(self)@ }),
            final(self)@.wf(),
    {
        let longer: u64 = self.poll_interval + POLL_BACKOFF;
        self.poll_interval = if longer > MAX_POLL_INTERVAL {
            MAX_POLL_INTERVAL
        } else {
            longer
        };
    }

    /// The history is empty: set the cursor below any real timestamp, unless it is
    /// set already.
    pub fn consider_nothing(&mut self)
        ensures
            final(self)@ == (SourceView {
                last_seen: match old(self)@.last_seen {
                    Some(seen) => Some(seen),
                    None => Some(0),
                },
                ..old(self)@
            }),
    {
        match self.last_seen {
            None => {
                self.last_seen = Some(0);
            },
            Some(_) => {},
        }
    }

    /// Decide what to do with the newest record. It is marked seen before anything
    /// is done about it.
    pub fn consider(&mut self, time: usize, query: &str) -> (r: Decision)
        ensures
            r@ == old(self)@.judged(time as int, query@),
            final(self)@ == old(self)@.seen(time as int, query@),
    {
        match self.last_seen {
            None => {
                self.last_seen = Some(time);
                return Decision::Ignore;
            },
            Some(seen) => {
                if time <= seen {
                    return Decision::Ignore;
                }
            },
        }
        self.last_seen = Some(time);
        self.gate.decide(query)
    }

    /// What to do now that the gap before a poll is over. The history is never polled
    /// over our own playback: while a track plays, the words that asked for it are
    /// the newest record, and our announcements may become one. Audio that we did not
    /// start is not waited for. What is waited out is not waited out again.
    pub fn before_poll(&self, speaker: &mut XiaoaiSpeaker) -> (r: Due)
        ensures
            match r {
                Due::Wait(wait) => old(speaker)@.we_are_playing && wait@ == 0,
                Due::Poll => !old(speaker)@.we_are_playing,
            },
            final(speaker)@ == (SpeakerView { we_are_playing: false, ..old(speaker)@ }),
    {
        if speaker.took_our_playback() {
            Due::Wait(PlaybackWait::new())
        } else {
            Due::Poll
        }
    }

    /// What a poll of the history comes to. A new command closes the window in which
    /// the words after a track are dropped.
    pub fn next(
        &mut self,
        speaker: &mut XiaoaiSpeaker,
        latest: Result<Option<Latest>, String>,
    ) -> (r: Heard)
        requires
            old(self)@.wf(),
        ensures
            final(self)@ == old(self)@.polled(poll_of(latest)),
            final(self)@.wf(),
            ({
                let decided = match poll_of(latest) {
                    Poll::Record { time, query } => old(self)@.judged(time, query),
                    _ => Verdict::Ignore,
                };
                &&& final(speaker)@ == if decided is Ignore {
                    old(speaker)@
                } else {
                    SpeakerView { suppress_next_say: false, ..old(speaker)@ }
                }
                &&& match decided {
                    Verdict::Ignore => r is Nothing,
                    Verdict::Reply(text) => r matches Heard::Say(words) && words@ == text,
                    Verdict::Forward => r matches Heard::Forward(u) && latest matches Ok(
                        Some(record),
                    ) && u@ == (UtteranceView {
                        id: dec(record.time as nat),
                        text: record.query@,
                        timestamp_ms: record.time as int,
                    }),
                }
            }),
    {
        let record = match latest {
            Err(_) => {
                return Heard::Nothing;
            },
            Ok(None) => {
                self.consider_nothing();
                self.slow_down();
                return Heard::Nothing;
            },
            Ok(Some(record)) => record,
        };
        let is_new: bool = match self.last_seen {
            Some(seen) => record.time > seen,
            None => false,
        };
        let decision = self.consider(record.time, record.query.as_str());
        if is_new {
            self.speed_up();
        } else {
            self.slow_down();
        }
        match decision {
            Decision::Ignore => Heard::Nothing,
            Decision::Reply(text) => {
                speaker.discard_suppressed_say();
                Heard::Say(text)
            },
            Decision::Forward => {
                speaker.discard_suppressed_say();
                let id = u64_text(record.time as u64);
                Heard::Forward(
                    Utterance::new(id.as_str(), record.query.as_str(), record.time as u64),
                )
            },
        }
    }
}

/// Whether a speaker is asked again after a wait this long and this report.
pub open spec fn asks_again(waited: int, playing: bool) -> bool {
    playing && waited < MAX_PLAYBACK_WAIT
}

/// Waiting for the speaker to fall silent.
#[derive(Debug)]
pub struct PlaybackWait {
    waited: u64,
}

impl View for PlaybackWait {
    type V = int;

    /// How long the wait has been so far, in milliseconds.
    closed spec fn view(&self) -> int {
        self.waited as int
    }
}

impl PlaybackWait {
    /// A wait that has only begun.
    pub fn new() -> (r: Self)
        ensures
            r@ == 0,
    {
        PlaybackWait { waited: 0 }
    }

    /// Whether to ask again, [`MIN_POLL_INTERVAL`] from now, given what the speaker
    /// says of its playback. A speaker that cannot be asked is taken to be idle,
    /// and one that has been playing for too long to be wedged.
    pub fn wait_while_playing(&mut self, playing: Result<bool, String>) -> (r: bool)
        ensures
            r == asks_again(old(self)@, playing == Ok::<bool, String>(true)),
            final(self)@ == if r {
                old(self)@ + MIN_POLL_INTERVAL
            } else {
                old(self)@
            },
    {
        let playing: bool = match playing {
            Ok(true) => true,
            _ => false,
        };
        if playing && self.waited < MAX_PLAYBACK_WAIT {
            self.waited = self.waited + MIN_POLL_INTERVAL;
            true
        } else {
            false
        }
    }
}

/// A source after every one of `polls`.
pub open spec fn after_polls(source: SourceView, polls: Seq<Poll>) -> SourceView
    decreases polls.len(),
{
    if polls.len() == 0 {
        source
    } else {
        after_polls(source, polls.drop_last()).polled(polls.last())
    }
}

/// The times of the records that `polls` had handed on or answered.
pub open spec fn acted_on(source: SourceView, polls: Seq<Poll>) -> Seq<int>
    decreases polls.len(),
{
    if polls.len() == 0 {
        Seq::empty()
    } else {
        let before = acted_on(source, polls.drop_last());
        match polls.last() {
            Poll::Record { time, query } => if after_polls(source, polls.drop_last()).judged(
                time,
                query,
            ) is Ignore {
                before
            } else {
                before.push(time)
            },
            _ => before,
        }
    }
}

/// No record is acted on twice: whatever is polled, in whatever order, the records
/// acted on are strictly newer each time, and newer than the cursor was. The
/// cursor never moves back, and the gap stays within its bounds.
pub proof fn no_record_is_acted_on_twice(source: SourceView, polls: Seq<Poll>)
    requires
        source.wf(),
        forall|i: int|
            0 <= i < polls.len() ==> (#[trigger] polls[i] matches Poll::Record { time, query }
                ==> time >= 0),
        source.last_seen matches Some(seen) ==> seen >= 0,
    ensures
        after_polls(source, polls).wf(),
        source.last_seen matches Some(seen) ==> (after_polls(source, polls).last_seen matches Some(
            now,
        ) && now >= seen),
        forall|i: int, j: int|
            0 <= i < j < acted_on(source, polls).len() ==> #[trigger] acted_on(source, polls)[i]
                < #[trigger] acted_on(source, polls)[j],
        forall|i: int|
            #![trigger acted_on(source, polls)[i]]
            0 <= i < acted_on(source, polls).len() ==> (after_polls(
                source,
                polls,
            ).last_seen matches Some(now) && acted_on(source, polls)[i] <= now) && (
            source.last_seen matches Some(seen) ==> acted_on(source, polls)[i] > seen),
    decreases polls.len(),
{
    if polls.len() > 0 {
        let before = polls.drop_last();
        assert forall|i: int| 0 <= i < before.len() implies (#[trigger] before[i] matches Poll::Record {
            time,
            query,
        } ==> time >= 0) by {
            assert(before[i] == polls[i]);
        }
        no_record_is_acted_on_twice(source, before);
        let list = acted_on(source, before);
        let now = acted_on(source, polls);
        let state = after_polls(source, before);
        if let Poll::Record { time, query } = polls.last() {
            if state.is_new(time) {
                assert forall|i: int| 0 <= i < list.len() implies list[i] < time by {}
            }
        }
        assert forall|i: int, j: int| 0 <= i < j < now.len() implies #[trigger] now[i]
            < #[trigger] now[j] by {
            if j < list.len() {
                assert(list[i] < list[j]);
            } else {
                assert(now[i] == list[i]);
            }
        }
        assert forall|i: int| 0 <= i < now.len() implies (after_polls(
            source,
            polls,
        ).last_seen matches Some(n) && #[trigger] now[i] <= n) && (source.last_seen matches Some(
            seen,
        ) ==> now[i] > seen) by {
            if i < list.len() {
                assert(now[i] == list[i]);
            }
        }
    }
}

/// How long a wait has been after these reports on the playback, or `None` when it
/// is over.
pub open spec fn waited_after(reports: Seq<bool>) -> Option<int>
    decreases reports.len(),
{
    if reports.len() == 0 {
        Some(0)
    } else {
        match waited_after(reports.drop_last()) {
            Some(waited) => if asks_again(waited, reports.last()) {
                Some(waited + MIN_POLL_INTERVAL)
            } else {
                None
            },
            None => None,
        }
    }
}

/// Whether the history may be polled, now that the gap is over, given whether we have
/// put sound on the speaker and what it has reported on its playback since.
pub open spec fn may_poll(we_are_playing: bool, reports: Seq<bool>) -> bool {
    we_are_playing ==> waited_after(reports) is None
}

/// The history is never polled over our own playback: when it may be polled after we
/// put sound on the speaker, the speaker has reported that it is silent, or has been
/// playing for as long as is waited at most.
pub proof fn our_own_playback_is_waited_out(we_are_playing: bool, reports: Seq<bool>)
    requires
        we_are_playing,
        may_poll(we_are_playing, reports),
    ensures
        (exists|k: int| 0 <= k < reports.len() && !#[trigger] reports[k]) || (reports.len() - 1)
            * MIN_POLL_INTERVAL >= MAX_PLAYBACK_WAIT,
    decreases reports.len(),
{
    if reports.len() > 0 {
        let before = reports.drop_last();
        if waited_after(before) is None {
            our_own_playback_is_waited_out(we_are_playing, before);
            if exists|k: int| 0 <= k < before.len() && !#[trigger] before[k] {
                let k = choose|k: int| 0 <= k < before.len() && !#[trigger] before[k];
                assert(!reports[k]);
            }
        } else {
            a_wedged_speaker_is_not_waited_for_forever(before);
            if !reports.last() {
                assert(!reports[reports.len() - 1]);
            }
        }
    }
}

/// The wait for a track's end is bounded: however often the speaker reports that
/// it plays, the wait is over after 20 minutes and 400 reports.
pub proof fn a_wedged_speaker_is_not_waited_for_forever(reports: Seq<bool>)
    ensures
        waited_after(reports) matches Some(waited) ==> waited == reports.len() * MIN_POLL_INTERVAL
            && waited <= MAX_PLAYBACK_WAIT && reports.len() <= 400,
    decreases reports.len(),
{
    if reports.len() > 0 {
        a_wedged_speaker_is_not_waited_for_forever(reports.drop_last());
    }
}

/// What is said, played, set or asked goes to this very speaker under its own login, by
/// the speaker's own path and method for it, and says exactly what was to be said, played
/// or set.
pub proof fn an_order_reaches_this_speaker(
    speaker: SpeakerView,
    said: OpPayload<Speak>,
    text: Seq<char>,
    played: OpPayload<PlayUrl>,
    url: Seq<char>,
    paused: OpPayload<Play>,
    tuned: OpPayload<Volume>,
    level: int,
    asked: OpPayload<Status>,
)
    ensures
        says(said, speaker, text) ==> {
            &&& said.user_id == speaker.user_id
            &&& said.service_token@ == speaker.service_token
            &&& said.device_id@ == speaker.device_id
            &&& is_request_id(said.request_id@)
            &&& said.op.path@ == "mibrain"@
            &&& said.op.method@ == "text_to_speech"@
            &&& said.op.message.doc().get("text"@) == Some(JsonView::Str(text))
        },
        plays(played, speaker, url) ==> {
            &&& played.user_id == speaker.user_id
            &&& played.service_token@ == speaker.service_token
            &&& played.device_id@ == speaker.device_id
            &&& is_request_id(played.request_id@)
            &&& played.op.path@ == "mediaplayer"@
            &&& played.op.method@ == "player_play_url"@
            &&& played.op.message.doc().get("url"@) == Some(JsonView::Str(url))
            &&& played.op.message.doc().get("type"@) == Some(JsonView::Int(1))
        },
        pauses(paused, speaker) ==> {
            &&& paused.user_id == speaker.user_id
            &&& paused.service_token@ == speaker.service_token
            &&& paused.device_id@ == speaker.device_id
            &&& is_request_id(paused.request_id@)
            &&& paused.op.path@ == "mediaplayer"@
            &&& paused.op.method@ == "player_play_operation"@
            &&& paused.op.message.doc().get("action"@) == Some(JsonView::Str("pause"@))
        },
        sets_volume(tuned, speaker, level) ==> {
            &&& tuned.user_id == speaker.user_id
            &&& tuned.service_token@ == speaker.service_token
            &&& tuned.device_id@ == speaker.device_id
            &&& is_request_id(tuned.request_id@)
            &&& tuned.op.path@ == "mediaplayer"@
            &&& tuned.op.method@ == "player_set_volume"@
            &&& tuned.op.message.doc().get("volume"@) == Some(JsonView::Int(level))
        },
        asks_status(asked, speaker) ==> {
            &&& asked.user_id == speaker.user_id
            &&& asked.service_token@ == speaker.service_token
            &&& asked.device_id@ == speaker.device_id
            &&& is_request_id(asked.request_id@)
            &&& asked.op.path@ == "mediaplayer"@
            &&& asked.op.method@ == "player_get_play_status"@
        },
{
    reveal_strlit("url");
    reveal_strlit("type");
    reveal_with_fuel(crate::json::member, 3);
    assert("url"@.len() == 3 && "type"@.len() == 4);
}

/// An announcement is given time by its length, character by character, from two and a
/// half seconds up to ten: a longer one never less, and every character counts until the
/// most is reached.
pub proof fn a_longer_announcement_gets_more_time(text: Seq<char>, longer: Seq<char>)
    requires
        text.len() <= longer.len(),
    ensures
        2500 <= speech_time(text) <= 10000,
        speech_time(text) <= speech_time(longer),
        text.len() == 0 ==> speech_time(text) == 2500,
        speech_time(longer) < 10000 ==> speech_time(longer) - speech_time(text) == 320 * (
        longer.len() - text.len()),
        speech_time(text) == 10000 ==> 320 * text.len() >= 7500,
{
}

/// Polling speeds up by halves down to three seconds and slows down second by second up to
/// ten, and never leaves these bounds.
pub proof fn the_pace_stays_in_its_bounds(source: SourceView)
    requires
        3000 <= source.poll_interval <= 10000,
    ensures
        3000 <= source.faster() <= source.poll_interval <= source.slower() <= 10000,
        source.faster() > 3000 ==> source.poll_interval - 1 <= 2 * source.faster()
            <= source.poll_interval,
        source.faster() == 3000 ==> source.poll_interval < 6002,
        source.slower() < 10000 ==> source.slower() == source.poll_interval + 1000,
        source.slower() == 10000 ==> source.poll_interval >= 9000,
{
}

/// A record is judged only when it is newer than all that were seen, and then by
/// what was said in it. The first record that is ever seen is only taken note of: what was said
/// before the assistant came up is not answered.
pub proof fn only_a_newer_record_is_judged(source: SourceView, time: int, query: Seq<char>)
    ensures
        source.last_seen is None ==> source.judged(time, query) is Ignore && source.seen(
            time,
            query,
        ) == (SourceView { last_seen: Some(time), ..source }),
        source.last_seen matches Some(seen) ==> {
            &&& time > seen ==> source.judged(time, query) == verdict(source.enabled, query)
                && source.seen(time, query) == (SourceView {
                enabled: enabled_after(source.enabled, query),
                last_seen: Some(time),
                poll_interval: source.poll_interval,
            })
            &&& time <= seen ==> source.judged(time, query) is Ignore && source.seen(time, query)
                == source
        },
{
}

/// A poll that fails changes nothing. One that finds nothing slows polling down; so does
/// one that finds nothing new, and one that does speeds it up. A switch that was heard in a
/// new record holds from then on.
pub proof fn a_poll_sets_the_pace(source: SourceView, time: int, query: Seq<char>)
    ensures
        source.polled(Poll::Failed) == source,
        ({
            let quiet = source.polled(Poll::Empty);
            &&& quiet.enabled == source.enabled
            &&& quiet.poll_interval == source.slower()
            &&& source.last_seen is Some ==> quiet.last_seen == source.last_seen
            &&& source.last_seen is None ==> quiet.last_seen == Some(0int)
        }),
        ({
            let now = source.polled(Poll::Record { time, query });
            let new = source.last_seen matches Some(seen) && time > seen;
            &&& now.poll_interval == if new {
                source.faster()
            } else {
                source.slower()
            }
            &&& now.enabled == if new {
                enabled_after(source.enabled, query)
            } else {
                source.enabled
            }
            &&& new || source.last_seen is None ==> now.last_seen == Some(time)
            &&& !new && source.last_seen is Some ==> now.last_seen == source.last_seen
        }),
{
}

/// The speaker is asked again as long as it reports that it plays, for twenty minutes; the
/// first report that it does not ends the wait.
pub proof fn the_wait_lasts_while_it_plays(waited: int, playing: bool)
    ensures
        asks_again(waited, playing) <==> playing && waited < 20 * 60 * 1000,
        forall|reports: Seq<bool>|
            reports.len() > 0 && !reports.last() ==> (#[trigger] waited_after(reports)) is None,
{
}

/// What a poll brought is taken as it came.
pub proof fn a_poll_is_taken_as_it_came(record: Latest, why: String)
    ensures
        poll_of(Err(why)) is Failed,
        poll_of(Ok(None)) is Empty,
        poll_of(Ok(Some(record))) matches Poll::Record { time, query } && time == record.time
            && query == record.query@,
{
}

} // verus!
