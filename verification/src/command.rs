//! Recognising the Chinese voice commands the speaker reports back.
//!
//! The speaker answers every utterance itself; the transcribed text is seen only
//! afterwards, in the conversation history. The grammar here works on that text.

use crate::json::opt_string;
use crate::text::{
    find_char, find_char_is_first, index_of, of_chars, same, starts_with, strip_prefix,
    to_chars, trim, trimmed, trimmed_is_idempotent, trimming_keeps_an_opening, white_space,
};
use vstd::prelude::*;

verus! {

/// A recognised utterance.
#[derive(Debug, Clone, PartialEq, Eq)]
pub enum Command {
    /// 嘻嘻: start reacting to playback commands.
    Enable,
    /// 不嘻嘻: stop reacting to everything but [`Command::Enable`].
    Disable,
    /// 播放<歌手>的歌: a random track by one artist.
    PlayArtist { artist: String },
    /// 播放<歌手>的<歌名>: one specific track.
    PlayTrack { artist: Option<String>, title: String },
    /// 随机播放: a random track from the whole library.
    PlayRandom,
}

/// What a [`Command`] says.
pub enum CommandView {
    Enable,
    Disable,
    PlayArtist { artist: Seq<char> },
    PlayTrack { artist: Option<Seq<char>>, title: Seq<char> },
    PlayRandom,
}

impl View for Command {
    type V = CommandView;

    open spec fn view(&self) -> CommandView {
        match *self {
            Command::Enable => CommandView::Enable,
            Command::Disable => CommandView::Disable,
            Command::PlayArtist { artist } => CommandView::PlayArtist { artist: artist@ },
            Command::PlayTrack { artist, title } => CommandView::PlayTrack {
                artist: opt_string(artist),
                title: title@,
            },
            Command::PlayRandom => CommandView::PlayRandom,
        }
    }
}

/// Whether `text` asks for anything at all to be played.
pub open spec fn asks_random(text: Seq<char>) -> bool {
    ||| text == "随机播放"@
    ||| text == "放首歌"@
    ||| text == "放首歌听"@
    ||| text == "放首歌听听"@
    ||| text == "放一首歌"@
    ||| text == "放一首歌听"@
    ||| text == "放一首歌听听"@
    ||| text == "随便放首歌"@
    ||| text == "随便放首歌听"@
    ||| text == "随便放首歌听听"@
    ||| text == "随便放一首歌"@
    ||| text == "随便放一首歌听"@
    ||| text == "随便放一首歌听听"@
}

/// Whether `text` asks for anything at all to be played.
pub(crate) fn is_random_request(text: &str) -> (r: bool)
    ensures
        r == asks_random(text@),
{
    same(text, "随机播放") || same(text, "放首歌") || same(text, "放首歌听") || same(
        text,
        "放首歌听听",
    ) || same(text, "放一首歌") || same(text, "放一首歌听") || same(text, "放一首歌听听") || same(
        text,
        "随便放首歌",
    ) || same(text, "随便放首歌听") || same(text, "随便放首歌听听") || same(
        text,
        "随便放一首歌",
    ) || same(text, "随便放一首歌听") || same(text, "随便放一首歌听听")
}

/// What follows the verb of a playback request: 播放, 我想听 or 我要听.
pub open spec fn requested(text: Seq<char>) -> Option<Seq<char>> {
    if "播放"@.is_prefix_of(text) {
        Some(text.skip("播放"@.len() as int))
    } else if "我想听"@.is_prefix_of(text) {
        Some(text.skip("我想听"@.len() as int))
    } else if "我要听"@.is_prefix_of(text) {
        Some(text.skip("我要听"@.len() as int))
    } else {
        None
    }
}

/// What follows the verb of a playback request.
pub(crate) fn request_of(text: &str) -> (r: Option<&str>)
    ensures
        crate::json::opt_view(r) == requested(text@),
{
    match strip_prefix(text, "播放") {
        Some(rest) => return Some(rest),
        None => {},
    }
    match strip_prefix(text, "我想听") {
        Some(rest) => return Some(rest),
        None => {},
    }
    strip_prefix(text, "我要听")
}

/// The artist of `<artist>的歌`, who is named by at least one character and no 的.
pub open spec fn artist_only(rest: Seq<char>) -> Option<Seq<char>> {
    let k = find_char(rest, '的', 0);
    if 0 < k && k + 2 == rest.len() && rest[k + 1] == '歌' {
        Some(rest.take(k))
    } else {
        None
    }
}

/// Whether `s` is all on one line, from `from` on.
pub open spec fn one_line(s: Seq<char>, from: int) -> bool {
    forall|i: int| from <= i < s.len() ==> #[trigger] s[i] != '\n'
}

/// The artist and title of `<artist>的<title>`, or a bare title. The first 的
/// separates the two; a title is not empty and stands on one line.
pub open spec fn artist_and_title(rest: Seq<char>) -> Option<(Option<Seq<char>>, Seq<char>)> {
    let k = find_char(rest, '的', 0);
    if 0 < k && k + 1 < rest.len() && one_line(rest, k + 1) {
        Some((Some(rest.take(k)), rest.skip(k + 1)))
    } else if rest.len() > 0 && one_line(rest, 0) {
        Some((None, rest))
    } else {
        None
    }
}

/// The command that `query` is.
pub open spec fn understood(query: Seq<char>) -> Option<CommandView> {
    let text = trimmed(query);
    if "不嘻嘻"@.is_prefix_of(text) {
        Some(CommandView::Disable)
    } else if "嘻嘻"@.is_prefix_of(text) {
        Some(CommandView::Enable)
    } else if asks_random(text) {
        Some(CommandView::PlayRandom)
    } else {
        match requested(text) {
            None => None,
            Some(rest) => match artist_only(rest) {
                Some(artist) => Some(CommandView::PlayArtist { artist }),
                None => match artist_and_title(rest) {
                    Some((artist, title)) => Some(CommandView::PlayTrack { artist, title }),
                    None => None,
                },
            },
        }
    }
}

/// Whether `chars[from..]` is all on one line.
pub(crate) fn is_one_line(chars: &Vec<char>, from: usize) -> (r: bool)
    requires
        from <= chars@.len(),
    ensures
        r == one_line(chars@, from as int),
{
    let k: usize = index_of(chars, '\n', from);
    proof {
        find_char_is_first(chars@, '\n', from as int);
    }
    k == chars.len()
}

impl Command {
    /// Returns `None` for anything that is not handled: the vast majority of what
    /// the user says to the speaker.
    pub fn parse(query: &str) -> (r: Option<Self>)
        ensures
            r is Some <==> understood(query@) is Some,
            r matches Some(command) ==> understood(query@) == Some(command@),
    {
        let text = trim(query);
        if starts_with(text, "不嘻嘻") {
            return Some(Command::Disable);
        }
        if starts_with(text, "嘻嘻") {
            return Some(Command::Enable);
        }
        if is_random_request(text) {
            return Some(Command::PlayRandom);
        }
        let rest = match request_of(text) {
            Some(rest) => to_chars(rest),
            None => {
                return None;
            },
        };
        let n: usize = rest.len();
        let k: usize = index_of(&rest, '的', 0);
        assert(rest@.take(k as int) =~= rest@.subrange(0, k as int));
        assert(rest@ =~= rest@.subrange(0, n as int));
        if 0 < k && n - k == 2 && rest[k + 1] == '歌' {
            return Some(Command::PlayArtist { artist: of_chars(&rest, 0, k) });
        }
        if 0 < k && n - k > 1 && is_one_line(&rest, k + 1) {
            assert(rest@.skip(k + 1) =~= rest@.subrange(k + 1, n as int));
            return Some(
                Command::PlayTrack {
                    artist: Some(of_chars(&rest, 0, k)),
                    title: of_chars(&rest, k + 1, n),
                },
            );
        }
        if n > 0 && is_one_line(&rest, 0) {
            return Some(Command::PlayTrack { artist: None, title: of_chars(&rest, 0, n) });
        }
        None
    }

    /// Whether this command is obeyed while the agent is disabled.
    pub fn is_always_allowed(&self) -> (r: bool)
        ensures
            r == (self@ is Enable || self@ is Disable),
    {
        match self {
            Command::Enable => true,
            Command::Disable => true,
            _ => false,
        }
    }
}

proof fn already_trimmed(s: Seq<char>)
    requires
        s.len() > 0,
        !white_space(s[0]),
        !white_space(s.last()),
    ensures
        trimmed(s) == s,
{
}

/// Asking for a title by an artist is understood as just that: the words before
/// the first 的 are the artist, the rest is the title. A title of 歌 alone asks for
/// anything by the artist.
pub proof fn a_request_names_artist_and_title(artist: Seq<char>, title: Seq<char>)
    requires
        artist.len() > 0,
        !artist.contains('的'),
        title.len() > 0,
        !title.contains('\n'),
        !white_space(title.last()),
    ensures
        understood("播放"@ + artist + seq!['的'] + title) == Some(
            if title == seq!['歌'] {
                CommandView::PlayArtist { artist }
            } else {
                CommandView::PlayTrack { artist: Some(artist), title }
            },
        ),
{
    reveal_strlit("播放");
    reveal_strlit("嘻嘻");
    reveal_strlit("不嘻嘻");
    let text = "播放"@ + artist + seq!['的'] + title;
    let rest = artist + seq!['的'] + title;
    let n = artist.len() as int;
    assert(text[0] == '播');
    assert(text.last() == title.last());
    already_trimmed(text);
    if "不嘻嘻"@.is_prefix_of(text) {
        assert(text[0] == "不嘻嘻"@[0]);
    }
    if "嘻嘻"@.is_prefix_of(text) {
        assert(text[0] == "嘻嘻"@[0]);
    }
    random_requests_start_otherwise(text);
    assert(text.skip(2) =~= rest);
    assert("播放"@ =~= text.take(2));
    assert("播放"@.is_prefix_of(text));
    find_char_is_first(rest, '的', 0);
    let k = find_char(rest, '的', 0);
    assert(rest[n] == '的');
    assert(k <= n);
    if k < n {
        assert(rest[k] == artist[k]);
        assert(artist.contains('的'));
    }
    assert(rest.take(n) =~= artist);
    assert(rest.skip(n + 1) =~= title);
    assert forall|i: int| n + 1 <= i < rest.len() implies #[trigger] rest[i] != '\n' by {
        assert(rest[i] == title[i - n - 1]);
        assert(title.contains(title[i - n - 1]));
    }
    if title.len() == 1 && title[0] == '歌' {
        assert(title =~= seq!['歌']);
    }
    if title == seq!['歌'] {
        assert(rest[n + 1] == '歌');
    } else if rest.len() == n + 2 {
        assert(rest[n + 1] == title[0]);
    }
}

proof fn random_requests_start_otherwise(text: Seq<char>)
    requires
        text.len() > 0,
        text[0] == '播',
    ensures
        !asks_random(text),
{
    reveal_strlit("随机播放");
    reveal_strlit("放首歌");
    reveal_strlit("放首歌听");
    reveal_strlit("放首歌听听");
    reveal_strlit("放一首歌");
    reveal_strlit("放一首歌听");
    reveal_strlit("放一首歌听听");
    reveal_strlit("随便放首歌");
    reveal_strlit("随便放首歌听");
    reveal_strlit("随便放首歌听听");
    reveal_strlit("随便放一首歌");
    reveal_strlit("随便放一首歌听");
    reveal_strlit("随便放一首歌听听");
}

/// A request is the same request by whichever of its three openings it is made.
pub proof fn every_opening_asks_alike(rest: Seq<char>)
    requires
        rest.len() > 0,
        !white_space(rest.last()),
    ensures
        understood("我想听"@ + rest) == understood("播放"@ + rest),
        understood("我要听"@ + rest) == understood("播放"@ + rest),
{
    reveal_strlit("播放");
    reveal_strlit("我想听");
    reveal_strlit("我要听");
    opened("播放"@, rest);
    opened("我想听"@, rest);
    opened("我要听"@, rest);
}

proof fn opened(opening: Seq<char>, rest: Seq<char>)
    requires
        rest.len() > 0,
        !white_space(rest.last()),
        opening == "播放"@ || opening == "我想听"@ || opening == "我要听"@,
    ensures
        understood(opening + rest) == match artist_only(rest) {
            Some(artist) => Some(CommandView::PlayArtist { artist }),
            None => match artist_and_title(rest) {
                Some((artist, title)) => Some(CommandView::PlayTrack { artist, title }),
                None => None,
            },
        },
{
    reveal_strlit("播放");
    reveal_strlit("我想听");
    reveal_strlit("我要听");
    reveal_strlit("嘻嘻");
    reveal_strlit("不嘻嘻");
    let text = opening + rest;
    assert(text[0] == opening[0]);
    assert(text[1] == opening[1]);
    assert(text.last() == rest.last());
    already_trimmed(text);
    if "不嘻嘻"@.is_prefix_of(text) {
        assert(text[0] == "不嘻嘻"@[0]);
    }
    if "嘻嘻"@.is_prefix_of(text) {
        assert(text[0] == "嘻嘻"@[0]);
    }
    a_random_request_is_one_of_its_forms(text);
    if "播放"@.is_prefix_of(text) {
        assert(text[0] == "播放"@[0]);
    }
    if "我想听"@.is_prefix_of(text) {
        assert(text[1] == "我想听"@[1]);
    }
    assert(opening =~= text.take(opening.len() as int));
    assert(opening.is_prefix_of(text));
    assert(text.skip(opening.len() as int) =~= rest);
}

/// A request without an artist names a title, and the whole of it is the title. A `的`
/// with nothing before it, or nothing behind it, belongs to the title.
pub proof fn a_request_without_an_artist_names_the_title(title: Seq<char>)
    requires
        title.len() > 0,
        !title.contains('\n'),
        !white_space(title.last()),
        title[0] == '的' || !title.drop_last().contains('的'),
    ensures
        understood("播放"@ + title) == Some(CommandView::PlayTrack { artist: None, title }),
{
    reveal_strlit("播放");
    opened("播放"@, title);
    find_char_is_first(title, '的', 0);
    let k = find_char(title, '的', 0);
    if 0 < k && k + 1 < title.len() {
        assert(title.drop_last()[k] == '的');
        assert(title.drop_last().contains('的'));
    }
    assert forall|i: int| 0 <= i < title.len() implies #[trigger] title[i] != '\n' by {
        assert(title.contains(title[i]));
    }
}

/// The words that switch the assistant on and off do so whatever follows them.
pub proof fn the_switching_words_come_first(rest: Seq<char>)
    ensures
        understood("嘻嘻"@ + rest) == Some(CommandView::Enable),
        understood("不嘻嘻"@ + rest) == Some(CommandView::Disable),
{
    reveal_strlit("嘻嘻");
    reveal_strlit("不嘻嘻");
    trimming_keeps_an_opening("嘻嘻"@, rest);
    trimming_keeps_an_opening("不嘻嘻"@, rest);
    let on = trimmed("嘻嘻"@ + rest);
    if "不嘻嘻"@.is_prefix_of(on) {
        assert(on[0] == "不嘻嘻"@[0]);
        assert(on[0] == "嘻嘻"@[0]);
    }
}

/// White space around what was said makes no difference.
pub proof fn white_space_around_a_request_means_nothing(query: Seq<char>)
    ensures
        understood(trimmed(query)) == understood(query),
{
    trimmed_is_idempotent(query);
}

/// A request for anything at all has one of two forms: `随机播放`, or `放首歌` with, each
/// as the speaker likes, `随便` before it, `一` inside it and one or two `听` behind it.
pub proof fn a_random_request_is_one_of_its_forms(text: Seq<char>)
    ensures
        asks_random(text) <==> text == seq!['随', '机', '播', '放'] || exists|
            before: bool,
            one: bool,
            listens: int,
        |
            0 <= listens <= 2 && text == #[trigger] random_form(before, one, listens),
        asks_random(text) ==> text[0] == '随' || text[0] == '放',
{
    reveal_strlit("随机播放");
    reveal_strlit("放首歌");
    reveal_strlit("放首歌听");
    reveal_strlit("放首歌听听");
    reveal_strlit("放一首歌");
    reveal_strlit("放一首歌听");
    reveal_strlit("放一首歌听听");
    reveal_strlit("随便放首歌");
    reveal_strlit("随便放首歌听");
    reveal_strlit("随便放首歌听听");
    reveal_strlit("随便放一首歌");
    reveal_strlit("随便放一首歌听");
    reveal_strlit("随便放一首歌听听");
    assert("随机播放"@ =~= seq!['随', '机', '播', '放']);
    assert("放首歌"@ =~= random_form(false, false, 0));
    assert("放首歌听"@ =~= random_form(false, false, 1));
    assert("放首歌听听"@ =~= random_form(false, false, 2));
    assert("放一首歌"@ =~= random_form(false, true, 0));
    assert("放一首歌听"@ =~= random_form(false, true, 1));
    assert("放一首歌听听"@ =~= random_form(false, true, 2));
    assert("随便放首歌"@ =~= random_form(true, false, 0));
    assert("随便放首歌听"@ =~= random_form(true, false, 1));
    assert("随便放首歌听听"@ =~= random_form(true, false, 2));
    assert("随便放一首歌"@ =~= random_form(true, true, 0));
    assert("随便放一首歌听"@ =~= random_form(true, true, 1));
    assert("随便放一首歌听听"@ =~= random_form(true, true, 2));
}

/// `放首歌`, with `随便` before it, `一` inside it and so many `听` behind it.
pub open spec fn random_form(before: bool, one: bool, listens: int) -> Seq<char> {
    (if before {
        seq!['随', '便']
    } else {
        Seq::empty()
    }) + seq!['放'] + (if one {
        seq!['一']
    } else {
        Seq::empty()
    }) + seq!['首', '歌'] + Seq::new(listens as nat, |i: int| '听')
}

/// What neither switches, nor asks for anything at all, nor opens as a request does is
/// not understood.
pub proof fn what_is_no_request_is_not_understood(query: Seq<char>)
    requires
        !"嘻嘻"@.is_prefix_of(trimmed(query)),
        !"不嘻嘻"@.is_prefix_of(trimmed(query)),
        !"播放"@.is_prefix_of(trimmed(query)),
        !"我想听"@.is_prefix_of(trimmed(query)),
        !"我要听"@.is_prefix_of(trimmed(query)),
        !asks_random(trimmed(query)),
    ensures
        understood(query) is None,
{
}

/// What is said of a command is what it holds.
pub proof fn a_command_shows_its_fields(command: Command)
    ensures
        match command {
            Command::Enable => command@ == CommandView::Enable,
            Command::Disable => command@ == CommandView::Disable,
            Command::PlayArtist { artist } => command@ == (CommandView::PlayArtist {
                artist: artist@,
            }),
            Command::PlayTrack { artist: Some(name), title } => command@ == (CommandView::PlayTrack {
                artist: Some(name@),
                title: title@,
            }),
            Command::PlayTrack { artist: None, title } => command@ == (CommandView::PlayTrack {
                artist: None,
                title: title@,
            }),
            Command::PlayRandom => command@ == CommandView::PlayRandom,
        },
{
}

/// A request names a song on one line: with a line break in the title, or with nothing
/// behind its opening, it is not understood.
pub proof fn a_title_stands_on_one_line(artist: Seq<char>, title: Seq<char>)
    requires
        artist.len() > 0,
        !artist.contains('的'),
        title.len() > 0,
        title.contains('\n'),
        !white_space(title.last()),
    ensures
        understood("播放"@ + (artist + seq!['的'] + title)) is None,
        !title.contains('的') ==> understood("播放"@ + title) is None,
        understood("播放"@) is None,
{
    reveal_strlit("播放");
    reveal_strlit("嘻嘻");
    reveal_strlit("不嘻嘻");
    reveal_strlit("我想听");
    reveal_strlit("我要听");
    let rest = artist + seq!['的'] + title;
    let n = artist.len() as int;
    let b = title.index_of('\n');
    assert(title[b] == '\n');
    opened("播放"@, rest);
    opened("播放"@, title);
    find_char_is_first(rest, '的', 0);
    let k = find_char(rest, '的', 0);
    assert(rest[n] == '的');
    if k < n {
        assert(rest[k] == artist[k]);
        assert(artist.contains('的'));
    }
    assert(rest[n + 1 + b] == '\n');
    if title.len() == 1 {
        assert(title.last() == '\n');
    }
    if !title.contains('的') {
        find_char_is_first(title, '的', 0);
        let j = find_char(title, '的', 0);
        if j < title.len() {
            assert(title.contains('的'));
        }
    }
    let bare = "播放"@;
    already_trimmed(bare);
    a_random_request_is_one_of_its_forms(bare);
    if "不嘻嘻"@.is_prefix_of(bare) {
        assert(bare[0] == "不嘻嘻"@[0]);
    }
    if "嘻嘻"@.is_prefix_of(bare) {
        assert(bare[0] == "嘻嘻"@[0]);
    }
    assert(bare =~= bare.take(2));
    assert(bare.is_prefix_of(bare));
    assert(bare.skip(2).len() == 0);
    find_char_is_first(bare.skip(2), '的', 0);
}

} // verus!
