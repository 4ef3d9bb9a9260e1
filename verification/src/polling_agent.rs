//! A bare polling assistant for a server at a fixed address.

use crate::command::{
    a_random_request_is_one_of_its_forms, asks_random, is_one_line, is_random_request, one_line,
    request_of, requested,
};
use crate::percent::{decoding_undoes_encoding, encode, escaped, unescaped};
use crate::text::{find_char, find_char_is_first, index_of, of_chars, starts_with, to_chars};
use crate::xiaoai::op::{status_of, OpResponse, XiaoaiStatus};
use vstd::prelude::*;

verus! {

/// Where the music is served.
pub const SERVER: &'static str = "http://192.168.1.20:3000/";

/// What an [`Agent`] is.
pub struct AgentView {
    pub on: bool,
    /// The time of the newest record that was acted on.
    pub last_ts: int,
}

/// The singer and song of a request, which may be empty but stands on one line. The
/// first 的 separates the two.
pub open spec fn singer_and_song(rest: Seq<char>) -> Option<(Option<Seq<char>>, Seq<char>)> {
    let k = find_char(rest, '的', 0);
    if 0 < k && k < rest.len() && one_line(rest, k + 1) {
        Some((Some(rest.take(k)), rest.skip(k + 1)))
    } else if one_line(rest, 0) {
        Some((None, rest))
    } else {
        None
    }
}

/// The pattern that a request is searched by.
pub open spec fn song_pattern(query: Seq<char>) -> Option<Seq<char>> {
    match requested(query) {
        Some(rest) => match singer_and_song(rest) {
            Some((Some(singer), song)) => Some(".*"@ + singer + ".*"@ + song + ".*"@),
            Some((None, song)) => Some(".*"@ + song + ".*"@),
            None => None,
        },
        None => None,
    }
}

/// What a record makes the speaker do.
pub enum OrderView {
    Speak(Seq<char>),
    /// Play this; `through_pauses` says whether a pause counts as playing on.
    Play { url: Seq<char>, through_pauses: bool },
}

/// What a record makes the speaker do, if anything.
pub open spec fn ordered(agent: AgentView, time: int, query: Seq<char>) -> Option<OrderView> {
    if time <= agent.last_ts {
        None
    } else if "嘻嘻"@.is_prefix_of(query) {
        Some(OrderView::Speak("奶龙，启动！"@))
    } else if "不嘻嘻"@.is_prefix_of(query) {
        Some(OrderView::Speak("奶龙，关闭！"@))
    } else if !agent.on {
        None
    } else {
        match song_pattern(query) {
            Some(pattern) => Some(
                OrderView::Play { url: SERVER@ + escaped(pattern), through_pauses: false },
            ),
            None => if asks_random(query) {
                Some(OrderView::Play { url: SERVER@ + "random"@, through_pauses: true })
            } else {
                None
            },
        }
    }
}

/// The assistant after a record. A request for anything at all leaves the record
/// unmarked.
pub open spec fn after(agent: AgentView, time: int, query: Seq<char>) -> AgentView {
    if time <= agent.last_ts {
        agent
    } else if "嘻嘻"@.is_prefix_of(query) {
        AgentView { on: true, last_ts: time }
    } else if "不嘻嘻"@.is_prefix_of(query) {
        AgentView { on: false, last_ts: time }
    } else if agent.on && song_pattern(query) is Some {
        AgentView { last_ts: time, ..agent }
    } else {
        agent
    }
}

/// What the driver has to do.
#[derive(Debug, Clone, PartialEq, Eq)]
pub enum Order {
    /// Say this.
    Speak(&'static str),
    /// Pause, play this URL, and wait until it is over.
    Play { url: String, through_pauses: bool },
}

impl View for Order {
    type V = OrderView;

    open spec fn view(&self) -> OrderView {
        match *self {
            Order::Speak(text) => OrderView::Speak(text@),
            Order::Play { url, through_pauses } => OrderView::Play { url: url@, through_pauses },
        }
    }
}

#[derive(Debug, Clone, Copy, PartialEq, Eq, Structural)]
enum State {
    On,
    Off,
}

/// The assistant's state.
#[derive(Debug)]
pub struct Agent {
    state: State,
    last_ts: usize,
}

impl View for Agent {
    type V = AgentView;

    closed spec fn view(&self) -> AgentView {
        AgentView { on: self.state == State::On, last_ts: self.last_ts as int }
    }
}

/// The pattern that a request is searched by.
fn pattern_of(query: &str) -> (r: Option<String>)
    ensures
        crate::json::opt_string(r) == song_pattern(query@),
{
    let rest = match request_of(query) {
        Some(rest) => to_chars(rest),
        None => {
            return None;
        },
    };
    let n: usize = rest.len();
    let k: usize = index_of(&rest, '的', 0);
    assert(rest@.take(k as int) =~= rest@.subrange(0, k as int));
    assert(rest@ =~= rest@.subrange(0, n as int));
    let mut pattern = ".*".to_owned();
    if 0 < k && k < n && is_one_line(&rest, k + 1) {
        assert(rest@.skip(k + 1) =~= rest@.subrange(k + 1, n as int));
        pattern.append(of_chars(&rest, 0, k).as_str());
        pattern.append(".*");
        pattern.append(of_chars(&rest, k + 1, n).as_str());
        pattern.append(".*");
        return Some(pattern);
    }
    if is_one_line(&rest, 0) {
        pattern.append(of_chars(&rest, 0, n).as_str());
        pattern.append(".*");
        return Some(pattern);
    }
    None
}

impl Agent {
    /// An assistant that is on and has seen nothing.
    pub fn new() -> (r: Self)
        ensures
            r@ == (AgentView { on: true, last_ts: 0 }),
    {
        Agent { state: State::On, last_ts: 0 }
    }

    /// What the newest record makes the speaker do.
    pub fn run(&mut self, time: usize, query: &str) -> (r: Option<Order>)
        ensures
            match r {
                Some(order) => ordered(old(self)@, time as int, query@) == Some(order@),
                None => ordered(old(self)@, time as int, query@) is None,
            },
            final(self)@ == after(old(self)@, time as int, query@),
    {
        if time <= self.last_ts {
            return None;
        }
        if starts_with(query, "嘻嘻") {
            self.last_ts = time;
            self.state = State::On;
            return Some(Order::Speak("奶龙，启动！"));
        }
        if starts_with(query, "不嘻嘻") {
            self.last_ts = time;
            self.state = State::Off;
            return Some(Order::Speak("奶龙，关闭！"));
        }
        match self.state {
            State::Off => {
                return None;
            },
            State::On => {},
        }
        let mut url = SERVER.to_owned();
        match pattern_of(query) {
            Some(pattern) => {
                self.last_ts = time;
                url.append(encode(pattern.as_str()).as_str());
                Some(Order::Play { url, through_pauses: false })
            },
            None => if is_random_request(query) {
                url.append("random");
                Some(Order::Play { url, through_pauses: true })
            } else {
                None
            },
        }
    }

    /// Whether to go on waiting for the end of a track, by the reply to a status
    /// query.
    pub fn waits(resp: &OpResponse, through_pauses: bool) -> (r: bool)
        ensures
            r == (status_of(resp.code()) == XiaoaiStatus::Playing || (through_pauses && status_of(
                resp.code(),
            ) == XiaoaiStatus::Paused)),
    {
        match resp.status() {
            XiaoaiStatus::Playing => true,
            XiaoaiStatus::Paused => through_pauses,
            _ => false,
        }
    }
}

/// A toggle or a request for a song is acted on once: after it, neither that record
/// nor an older one makes the speaker do anything. A request for anything at random
/// is the exception, since it leaves its record unmarked.
pub proof fn a_request_for_a_song_is_acted_on_once(
    agent: AgentView,
    time: int,
    query: Seq<char>,
    older: int,
    other: Seq<char>,
)
    requires
        ordered(agent, time, query) matches Some(order) && !(order matches OrderView::Play {
            url,
            through_pauses: true,
        }),
        older <= time,
    ensures
        ordered(after(agent, time, query), older, other) is None,
{
}

proof fn asked_of_the_server(
    agent: AgentView,
    time: int,
    opening: Seq<char>,
    rest: Seq<char>,
    pattern: Seq<char>,
)
    requires
        agent.on,
        time > agent.last_ts,
        opening == "播放"@ || opening == "我想听"@ || opening == "我要听"@,
        song_pattern(opening + rest) == Some(pattern),
    ensures
        ordered(agent, time, opening + rest) matches Some(OrderView::Play { url, through_pauses })
            && !through_pauses && SERVER@.is_prefix_of(url) && unescaped(
            url.skip(SERVER@.len() as int),
        ) == Some(pattern),
        after(agent, time, opening + rest) == (AgentView { on: true, last_ts: time }),
{
    reveal_strlit("播放");
    reveal_strlit("我想听");
    reveal_strlit("我要听");
    reveal_strlit("嘻嘻");
    reveal_strlit("不嘻嘻");
    let query = opening + rest;
    assert(query[0] == opening[0]);
    if "不嘻嘻"@.is_prefix_of(query) {
        assert(query[0] == "不嘻嘻"@[0]);
    }
    if "嘻嘻"@.is_prefix_of(query) {
        assert(query[0] == "嘻嘻"@[0]);
    }
    decoding_undoes_encoding(pattern);
    let url = SERVER@ + escaped(pattern);
    assert(url.skip(SERVER@.len() as int) =~= escaped(pattern));
    assert(SERVER@ =~= url.take(SERVER@.len() as int));
}

proof fn opens_a_request(opening: Seq<char>, rest: Seq<char>)
    requires
        opening == "播放"@ || opening == "我想听"@ || opening == "我要听"@,
    ensures
        requested(opening + rest) == Some(rest),
{
    reveal_strlit("播放");
    reveal_strlit("我想听");
    reveal_strlit("我要听");
    let query = opening + rest;
    assert(query[0] == opening[0]);
    assert(query[1] == opening[1]);
    if "播放"@.is_prefix_of(query) {
        assert(query[0] == "播放"@[0]);
    }
    if "我想听"@.is_prefix_of(query) {
        assert(query[1] == "我想听"@[1]);
    }
    assert(opening =~= query.take(opening.len() as int));
    assert(query.skip(opening.len() as int) =~= rest);
}

/// A song asked for by singer and name is asked of the server by a pattern of the two: what
/// stands behind the server's address, unescaped, is the singer and the song, each between
/// `.*`. The record is then done with.
pub proof fn a_song_is_asked_for_by_singer_and_name(
    agent: AgentView,
    time: int,
    opening: Seq<char>,
    singer: Seq<char>,
    song: Seq<char>,
)
    requires
        agent.on,
        time > agent.last_ts,
        opening == "播放"@ || opening == "我想听"@ || opening == "我要听"@,
        singer.len() > 0,
        !singer.contains('的'),
        !song.contains('\n'),
    ensures
        ({
            let query = opening + (singer + seq!['的'] + song);
            &&& ordered(agent, time, query) matches Some(OrderView::Play { url, through_pauses })
                && !through_pauses && SERVER@.is_prefix_of(url) && unescaped(
                url.skip(SERVER@.len() as int),
            ) == Some(seq!['.', '*'] + singer + seq!['.', '*'] + song + seq!['.', '*'])
            &&& after(agent, time, query) == (AgentView { on: true, last_ts: time })
        }),
{
    reveal_strlit(".*");
    assert(".*"@ =~= seq!['.', '*']);
    let rest = singer + seq!['的'] + song;
    let n = singer.len() as int;
    opens_a_request(opening, rest);
    find_char_is_first(rest, '的', 0);
    let k = find_char(rest, '的', 0);
    assert(rest[n] == '的');
    if k < n {
        assert(rest[k] == singer[k]);
        assert(singer.contains('的'));
    }
    assert forall|i: int| n + 1 <= i < rest.len() implies #[trigger] rest[i] != '\n' by {
        assert(song.contains(song[i - n - 1]));
    }
    assert(rest.take(n) =~= singer);
    assert(rest.skip(n + 1) =~= song);
    asked_of_the_server(
        agent,
        time,
        opening,
        rest,
        seq!['.', '*'] + singer + seq!['.', '*'] + song + seq!['.', '*'],
    );
}

/// A song asked for without a singer is asked of the server by its name between two `.*`.
/// A `的` with nothing before it belongs to the name.
pub proof fn a_song_is_asked_for_by_name_alone(
    agent: AgentView,
    time: int,
    opening: Seq<char>,
    song: Seq<char>,
)
    requires
        agent.on,
        time > agent.last_ts,
        opening == "播放"@ || opening == "我想听"@ || opening == "我要听"@,
        !song.contains('的') || song[0] == '的',
        !song.contains('\n'),
    ensures
        ordered(agent, time, opening + song) matches Some(OrderView::Play { url, through_pauses })
            && !through_pauses && SERVER@.is_prefix_of(url) && unescaped(
            url.skip(SERVER@.len() as int),
        ) == Some(seq!['.', '*'] + song + seq!['.', '*']),
        after(agent, time, opening + song) == (AgentView { on: true, last_ts: time }),
{
    reveal_strlit(".*");
    assert(".*"@ =~= seq!['.', '*']);
    opens_a_request(opening, song);
    find_char_is_first(song, '的', 0);
    let k = find_char(song, '的', 0);
    if k < song.len() {
        assert(song.contains('的'));
        assert(k == 0);
    }
    assert forall|i: int| 0 <= i < song.len() implies #[trigger] song[i] != '\n' by {
        assert(song.contains(song[i]));
    }
    asked_of_the_server(agent, time, opening, song, seq!['.', '*'] + song + seq!['.', '*']);
}

/// A new request for anything at all plays the server's `random`, waits through pauses and
/// leaves the assistant as it was.
pub proof fn a_random_request_plays_anything(agent: AgentView, time: int, query: Seq<char>)
    requires
        agent.on,
        time > agent.last_ts,
        asks_random(query),
    ensures
        ordered(agent, time, query) == Some(
            OrderView::Play { url: SERVER@ + "random"@, through_pauses: true },
        ),
        after(agent, time, query) == agent,
{
    reveal_strlit("播放");
    reveal_strlit("我想听");
    reveal_strlit("我要听");
    reveal_strlit("嘻嘻");
    reveal_strlit("不嘻嘻");
    a_random_request_is_one_of_its_forms(query);
    if "不嘻嘻"@.is_prefix_of(query) {
        assert(query[0] == "不嘻嘻"@[0]);
    }
    if "嘻嘻"@.is_prefix_of(query) {
        assert(query[0] == "嘻嘻"@[0]);
    }
    if "播放"@.is_prefix_of(query) {
        assert(query[0] == "播放"@[0]);
    }
    if "我想听"@.is_prefix_of(query) {
        assert(query[0] == "我想听"@[0]);
    }
    if "我要听"@.is_prefix_of(query) {
        assert(query[0] == "我要听"@[0]);
    }
}

/// The switching words switch, on or off as they say, whatever follows them and whether or
/// not the assistant is on, and say so. While it is off nothing else is acted on.
pub proof fn the_switches_always_work(agent: AgentView, time: int, rest: Seq<char>)
    requires
        time > agent.last_ts,
    ensures
        ordered(agent, time, "嘻嘻"@ + rest) == Some(OrderView::Speak("奶龙，启动！"@)),
        after(agent, time, "嘻嘻"@ + rest) == (AgentView { on: true, last_ts: time }),
        ordered(agent, time, "不嘻嘻"@ + rest) == Some(OrderView::Speak("奶龙，关闭！"@)),
        after(agent, time, "不嘻嘻"@ + rest) == (AgentView { on: false, last_ts: time }),
        forall|query: Seq<char>|
            !agent.on && (#[trigger] ordered(agent, time, query)) is Some ==> "嘻嘻"@.is_prefix_of(
                query,
            ) || "不嘻嘻"@.is_prefix_of(query),
        forall|query: Seq<char>|
            !agent.on && !"嘻嘻"@.is_prefix_of(query) && !"不嘻嘻"@.is_prefix_of(query)
                ==> #[trigger] after(agent, time, query) == agent,
{
    reveal_strlit("嘻嘻");
    reveal_strlit("不嘻嘻");
    let on = "嘻嘻"@ + rest;
    let off = "不嘻嘻"@ + rest;
    assert("嘻嘻"@ =~= on.take(2));
    assert("不嘻嘻"@ =~= off.take(3));
    if "嘻嘻"@.is_prefix_of(off) {
        assert(off[0] == "嘻嘻"@[0]);
        assert(off[0] == "不嘻嘻"@[0]);
    }
}

/// An old record is not acted on and changes nothing.
pub proof fn an_old_record_changes_nothing(agent: AgentView, time: int, query: Seq<char>)
    requires
        time <= agent.last_ts,
    ensures
        ordered(agent, time, query) is None,
        after(agent, time, query) == agent,
{
}

/// What is said of an order is what it holds.
pub proof fn an_order_shows_its_fields(order: Order)
    ensures
        match order {
            Order::Speak(text) => order@ == OrderView::Speak(text@),
            Order::Play { url, through_pauses } => order@ == (OrderView::Play {
                url: url@,
                through_pauses,
            }),
        },
{
}

/// A song is asked for on one line: with a line break in its name nothing is acted on, and
/// nothing changes.
pub proof fn a_song_stands_on_one_line(
    agent: AgentView,
    time: int,
    opening: Seq<char>,
    singer: Seq<char>,
    song: Seq<char>,
)
    requires
        opening == "播放"@ || opening == "我想听"@ || opening == "我要听"@,
        singer.len() > 0,
        !singer.contains('的'),
        song.contains('\n'),
    ensures
        ordered(agent, time, opening + (singer + seq!['的'] + song)) is None,
        after(agent, time, opening + (singer + seq!['的'] + song)) == agent,
{
    reveal_strlit("播放");
    reveal_strlit("我想听");
    reveal_strlit("我要听");
    reveal_strlit("嘻嘻");
    reveal_strlit("不嘻嘻");
    let rest = singer + seq!['的'] + song;
    let query = opening + rest;
    let n = singer.len() as int;
    opens_a_request(opening, rest);
    find_char_is_first(rest, '的', 0);
    let k = find_char(rest, '的', 0);
    assert(rest[n] == '的');
    if k < n {
        assert(rest[k] == singer[k]);
        assert(singer.contains('的'));
    }
    let b = song.index_of('\n');
    assert(song[b] == '\n');
    assert(rest[n + 1 + b] == '\n');
    assert(query[0] == opening[0]);
    if "不嘻嘻"@.is_prefix_of(query) {
        assert(query[0] == "不嘻嘻"@[0]);
    }
    if "嘻嘻"@.is_prefix_of(query) {
        assert(query[0] == "嘻嘻"@[0]);
    }
    a_random_request_is_one_of_its_forms(query);
}

} // verus!
