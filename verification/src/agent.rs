//! The command-driven assistant: watch what the user said to the speaker, and
//! react to the commands in it.

use crate::command::{understood, Command, CommandView};
use crate::percent::{decoding_undoes_encoding, encode, escaped, unescaped};
use crate::text::{contains, what_is_put_in_is_contained};
use crate::xiaoai::op::{status_of, OpResponse, XiaoaiStatus};
use vstd::prelude::*;

verus! {

/// How often the history and the playback status are polled, in milliseconds.
pub const POLL_INTERVAL: u64 = 3000;

/// What an [`Agent`] is.
pub struct AgentView {
    /// Whether playback commands are obeyed.
    pub enabled: bool,
    /// The time of the newest record handled.
    pub last_seen: int,
}

/// What a record asks for, if it is to be obeyed.
pub open spec fn obeyed(agent: AgentView, time: int, query: Seq<char>) -> Option<CommandView> {
    if time <= agent.last_seen {
        None
    } else {
        match understood(query) {
            Some(command) => if agent.enabled || command is Enable || command is Disable {
                Some(command)
            } else {
                None
            },
            None => None,
        }
    }
}

/// What a command makes the speaker do.
pub enum ActView {
    Speak(Seq<char>),
    Play(Seq<char>),
}

/// The path on our server that a command plays.
pub open spec fn play_path(command: CommandView) -> Seq<char> {
    match command {
        CommandView::PlayArtist { artist } => "random/"@ + escaped(artist),
        CommandView::PlayTrack { artist, title } => escaped(
            match artist {
                Some(name) => ".*"@ + name + ".*"@ + title + ".*"@,
                None => ".*"@ + title + ".*"@,
            },
        ),
        _ => "random"@,
    }
}

/// What a command makes the speaker do.
pub open spec fn act_of(command: CommandView, base_url: Seq<char>) -> ActView {
    match command {
        CommandView::Enable => ActView::Speak("奶龙，启动！"@),
        CommandView::Disable => ActView::Speak("奶龙，关闭！"@),
        _ => ActView::Play(base_url + "/"@ + play_path(command)),
    }
}

/// What the driver has to do.
#[derive(Debug, Clone, PartialEq, Eq)]
pub enum Act {
    /// Say this.
    Speak(&'static str),
    /// Pause, play this URL, and wait until it is over.
    Play(String),
}

impl View for Act {
    type V = ActView;

    open spec fn view(&self) -> ActView {
        match *self {
            Act::Speak(text) => ActView::Speak(text@),
            Act::Play(url) => ActView::Play(url@),
        }
    }
}

/// The assistant's state.
#[derive(Debug)]
pub struct Agent {
    enabled: bool,
    last_seen: usize,
}

impl View for Agent {
    type V = AgentView;

    closed spec fn view(&self) -> AgentView {
        AgentView { enabled: self.enabled, last_seen: self.last_seen as int }
    }
}

impl Agent {
    /// An assistant that obeys and has seen nothing.
    pub fn new() -> (r: Self)
        ensures
            r@ == (AgentView { enabled: true, last_seen: 0 }),
    {
        Agent { enabled: true, last_seen: 0 }
    }

    /// The command in the newest record, if it is to be obeyed. The record counts
    /// as handled at once: a command that fails must not be tried again.
    pub fn tick(&mut self, time: usize, query: &str) -> (r: Option<Command>)
        ensures
            match r {
                Some(command) => obeyed(old(self)@, time as int, query@) == Some(command@),
                None => obeyed(old(self)@, time as int, query@) is None,
            },
            final(self)@ == (AgentView {
                last_seen: if time > old(self)@.last_seen {
                    time as int
                } else {
                    old(self)@.last_seen
                },
                ..old(self)@
            }),
    {
        if time <= self.last_seen {
            return None;
        }
        self.last_seen = time;
        match Command::parse(query) {
            Some(command) => if self.enabled || command.is_always_allowed() {
                Some(command)
            } else {
                None
            },
            None => None,
        }
    }

    /// What `command` makes the speaker do; the toggles change the state, too.
    pub fn handle(&mut self, command: &Command, base_url: &str) -> (r: Act)
        ensures
            r@ == act_of(command@, base_url@),
            final(self)@ == (AgentView {
                enabled: match command@ {
                    CommandView::Enable => true,
                    CommandView::Disable => false,
                    _ => old(self)@.enabled,
                },
                ..old(self)@
            }),
    {
        match command {
            Command::Enable => {
                self.enabled = true;
                Act::Speak("奶龙，启动！")
            },
            Command::Disable => {
                self.enabled = false;
                Act::Speak("奶龙，关闭！")
            },
            Command::PlayRandom => Act::Play(at(base_url, "random")),
            Command::PlayArtist { artist } => {
                let mut path = "random/".to_owned();
                path.append(encode(artist.as_str()).as_str());
                Act::Play(at(base_url, path.as_str()))
            },
            Command::PlayTrack { artist, title } => {
                let mut pattern = ".*".to_owned();
                match artist {
                    Some(name) => {
                        pattern.append(name.as_str());
                        pattern.append(".*");
                    },
                    None => {},
                }
                pattern.append(title.as_str());
                pattern.append(".*");
                Act::Play(at(base_url, encode(pattern.as_str()).as_str()))
            },
        }
    }

    /// Whether to go on waiting for the end of a track, by the reply to a status
    /// query.
    pub fn play_and_wait(resp: &OpResponse) -> (r: bool)
        ensures
            r == (status_of(resp.code()) == XiaoaiStatus::Playing || status_of(resp.code())
                == XiaoaiStatus::Paused),
    {
        resp.status().in_session()
    }
}

/// No utterance is obeyed twice: once a record has been looked at, neither it nor an
/// older one is obeyed again, whatever it says and whether or not the agent is
/// enabled by then.
pub proof fn no_record_is_obeyed_twice(
    later: AgentView,
    time: int,
    older: int,
    query: Seq<char>,
)
    requires
        later.last_seen >= time,
        older <= time,
    ensures
        obeyed(later, older, query) is None,
{
}

/// While disabled, only the toggles are obeyed.
pub proof fn a_disabled_agent_obeys_only_the_toggles(agent: AgentView, time: int, query: Seq<char>)
    requires
        !agent.enabled,
    ensures
        obeyed(agent, time, query) matches Some(command) ==> command is Enable || command is Disable,
{
}

/// `path` on our server.
fn at(base_url: &str, path: &str) -> (r: String)
    ensures
        r@ == base_url@ + "/"@ + path@,
{
    let mut url = base_url.to_owned();
    url.append("/");
    url.append(path);
    url
}

/// A request plays what it names. The URL is the server's, and what follows it, unescaped,
/// is the pattern of the request: for a song, the title between two `.*`, after the artist
/// and another `.*` where one is named; for an artist, the artist's own name under
/// `random/`; for anything at all, `random` alone.
pub proof fn a_request_plays_what_it_names(
    base_url: Seq<char>,
    artist: Seq<char>,
    title: Seq<char>,
)
    ensures
        act_of(CommandView::PlayTrack { artist: None, title }, base_url) matches ActView::Play(url)
            && (base_url + seq!['/']).is_prefix_of(url) && unescaped(url.skip(1 + base_url.len() as int))
            == Some(seq!['.', '*'] + title + seq!['.', '*']),
        act_of(CommandView::PlayTrack { artist: Some(artist), title }, base_url)
            matches ActView::Play(url) && (base_url + seq!['/']).is_prefix_of(url) && unescaped(
            url.skip(1 + base_url.len() as int),
        ) == Some(seq!['.', '*'] + artist + seq!['.', '*'] + title + seq!['.', '*']),
        act_of(CommandView::PlayArtist { artist }, base_url) matches ActView::Play(url) && (base_url
            + "/random/"@).is_prefix_of(url) && unescaped(
            url.skip((base_url + "/random/"@).len() as int),
        ) == Some(artist),
        act_of(CommandView::PlayRandom, base_url) == ActView::Play(base_url + "/random"@),
{
    reveal_strlit("/");
    reveal_strlit(".*");
    reveal_strlit("random");
    reveal_strlit("/random");
    reveal_strlit("random/");
    reveal_strlit("/random/");
    assert("/"@ =~= seq!['/']);
    assert(".*"@ =~= seq!['.', '*']);
    assert("/"@ + "random"@ =~= "/random"@);
    assert("/"@ + "random/"@ =~= "/random/"@);
    let plain = seq!['.', '*'] + title + seq!['.', '*'];
    let both = seq!['.', '*'] + artist + seq!['.', '*'] + title + seq!['.', '*'];
    decoding_undoes_encoding(plain);
    decoding_undoes_encoding(both);
    decoding_undoes_encoding(artist);
    leads_on(base_url + seq!['/'], escaped(plain));
    leads_on(base_url + seq!['/'], escaped(both));
    leads_on(base_url + "/random/"@, escaped(artist));
    assert(base_url + "/"@ + ("random/"@ + escaped(artist)) =~= base_url + "/random/"@ + escaped(
        artist,
    ));
    assert(base_url + "/"@ + "random"@ =~= base_url + "/random"@);
}

proof fn leads_on(start: Seq<char>, rest: Seq<char>)
    ensures
        start.is_prefix_of(start + rest),
        (start + rest).skip(start.len() as int) == rest,
{
    assert(start =~= (start + rest).take(start.len() as int));
    assert((start + rest).skip(start.len() as int) =~= rest);
}

/// A song that was asked for by name is asked of the server by that name: the path that
/// is played, unescaped, holds the title, and the artist where one was named.
pub proof fn the_path_holds_the_title(artist: Option<Seq<char>>, title: Seq<char>)
    ensures
        unescaped(play_path(CommandView::PlayTrack { artist, title })) matches Some(pattern)
            && contains(pattern, title) && (artist matches Some(name) ==> contains(pattern, name)),
        artist is None ==> unescaped(play_path(CommandView::PlayTrack { artist, title })) == Some(
            ".*"@ + title + ".*"@,
        ),
{
    match artist {
        Some(name) => {
            let pattern = ".*"@ + name + ".*"@ + title + ".*"@;
            decoding_undoes_encoding(pattern);
            what_is_put_in_is_contained(".*"@ + name + ".*"@, title, ".*"@);
            what_is_put_in_is_contained(".*"@, name, ".*"@ + title + ".*"@);
            assert(".*"@ + name + (".*"@ + title + ".*"@) =~= pattern);
        },
        None => {
            decoding_undoes_encoding(".*"@ + title + ".*"@);
            what_is_put_in_is_contained(".*"@, title, ".*"@);
        },
    }
}

/// Switching says so and plays nothing; everything else that is obeyed plays.
pub proof fn only_the_switches_speak(command: CommandView, base_url: Seq<char>)
    ensures
        act_of(command, base_url) is Speak <==> command is Enable || command is Disable,
        act_of(CommandView::Enable, base_url) != act_of(CommandView::Disable, base_url),
{
    reveal_strlit("奶龙，启动！");
    reveal_strlit("奶龙，关闭！");
    assert("奶龙，启动！"@[3] != "奶龙，关闭！"@[3]);
}

/// A new record is obeyed as it is understood by an assistant that is on; one that is off
/// still obeys the two switches. An old record, and one that is not understood, is not
/// obeyed.
pub proof fn a_new_record_is_obeyed_as_understood(agent: AgentView, time: int, query: Seq<char>)
    ensures
        time > agent.last_seen && agent.enabled ==> obeyed(agent, time, query) == understood(query),
        time > agent.last_seen && (understood(query) == Some(CommandView::Enable) || understood(
            query,
        ) == Some(CommandView::Disable)) ==> obeyed(agent, time, query) == understood(query),
        time <= agent.last_seen ==> obeyed(agent, time, query) is None,
        obeyed(agent, time, query) is Some ==> obeyed(agent, time, query) == understood(query),
{
}

/// What is said of an act is what it holds.
pub proof fn an_act_shows_its_fields(act: Act)
    ensures
        match act {
            Act::Speak(text) => act@ == ActView::Speak(text@),
            Act::Play(url) => act@ == ActView::Play(url@),
        },
{
}

} // verus!
