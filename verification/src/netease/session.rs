//! The logged-in session: the two cookies that are the login.
//!
//! `MUSIC_U` is the credential. `__csrf` accompanies it, and may be empty: only
//! writes insist on it.

use crate::digest::{quote, quoted};
use crate::json::opt_string;
use crate::netease::client::{Client, BASE_URL};
use crate::netease::error::{NeteaseErr, NeteaseErrView};
use crate::text::{
    contains, find_char, find_char_is_first, index_of, of_chars, same, to_chars, trim, trim_end_of,
    trimmed, trimming_ignores_white_space_around, views, what_is_put_in_is_contained,
};
use vstd::prelude::*;

verus! {

/// Where the session is cached when nothing else is configured.
pub const DEFAULT_SESSION_PATH: &'static str = "netease_session.json";

/// Cookie name of the credential proper.
pub const MUSIC_U: &'static str = "MUSIC_U";

/// Cookie name of the CSRF token.
pub const CSRF: &'static str = "__csrf";

/// A NetEase login, reduced to what has to survive a restart.
#[derive(Debug, Clone, PartialEq, Eq)]
pub struct Session {
    /// The credential cookie.
    pub music_u: String,
    /// The CSRF token accompanying it.
    pub csrf: String,
}

/// What a [`Session`] says.
pub struct SessionView {
    pub music_u: Seq<char>,
    pub csrf: Seq<char>,
}

impl View for Session {
    type V = SessionView;

    open spec fn view(&self) -> SessionView {
        SessionView { music_u: self.music_u@, csrf: self.csrf@ }
    }
}

/// The name and value of a `Set-Cookie` header; its attributes do not matter.
pub open spec fn cookie_pair(raw: Seq<char>) -> Option<(Seq<char>, Seq<char>)> {
    let pair = raw.take(find_char(raw, ';', 0));
    let k = find_char(pair, '=', 0);
    if k < pair.len() {
        Some((trimmed(pair.take(k)), trimmed(pair.skip(k + 1))))
    } else {
        None
    }
}

/// The value that the last header for `name` gives it.
pub open spec fn last_value(headers: Seq<Seq<char>>, name: Seq<char>) -> Option<Seq<char>>
    decreases headers.len(),
{
    if headers.len() == 0 {
        None
    } else {
        match cookie_pair(headers.last()) {
            Some((n, v)) => if n == name {
                Some(v)
            } else {
                last_value(headers.drop_last(), name)
            },
            None => last_value(headers.drop_last(), name),
        }
    }
}

/// The session that `Set-Cookie` headers hand out.
pub open spec fn session_in(headers: Seq<Seq<char>>) -> Option<SessionView> {
    match last_value(headers, MUSIC_U@) {
        Some(music_u) => Some(
            SessionView {
                music_u,
                csrf: match last_value(headers, CSRF@) {
                    Some(csrf) => csrf,
                    None => Seq::empty(),
                },
            },
        ),
        None => None,
    }
}

/// The name and value of a `Set-Cookie` header.
fn read_pair(raw: &str) -> (r: Option<(String, String)>)
    ensures
        match r {
            Some((name, value)) => cookie_pair(raw@) == Some((name@, value@)),
            None => cookie_pair(raw@) is None,
        },
{
    let all = to_chars(raw);
    let end: usize = index_of(&all, ';', 0);
    let pair = of_chars(&all, 0, end);
    assert(raw@.take(end as int) =~= all@.subrange(0, end as int));
    let chars = to_chars(pair.as_str());
    let k: usize = index_of(&chars, '=', 0);
    if k < chars.len() {
        let name = of_chars(&chars, 0, k);
        let value = of_chars(&chars, k + 1, chars.len());
        assert(name@ =~= pair@.take(k as int));
        assert(value@ =~= pair@.skip(k + 1));
        Some((trim(name.as_str()).to_owned(), trim(value.as_str()).to_owned()))
    } else {
        None
    }
}

/// Why a text is no URL, or `None` when it is one.
pub uninterp spec fn url_refusal(text: Seq<char>) -> Option<Seq<char>>;

/// `reqwest::Url::parse`: the words of its error, or `None` when `text` is a URL. The
/// text alone decides.
#[verifier::external_body]
fn refused_url(text: &str) -> (r: Option<String>)
    ensures
        opt_string(r) == url_refusal(text@),
{
    reqwest::Url::parse(text).err().map(|e| e.to_string())
}

/// The cookies that put a session into a client's jar.
pub open spec fn jar_cookies(session: SessionView) -> Seq<Seq<char>> {
    seq![
        MUSIC_U@ + "="@ + session.music_u + "; Path=/"@,
        CSRF@ + "="@ + session.csrf + "; Path=/"@,
        "os=pc; Path=/"@,
    ]
}

/// What is said of a base URL that is none.
pub open spec fn bad_base_url(base_url: Seq<char>, why: Seq<char>) -> NeteaseErrView {
    NeteaseErrView::BadRequest("invalid base url "@ + quoted(base_url) + ": "@ + why)
}

impl Session {
    /// A session from cookie values already in hand.
    pub fn new(music_u: &str, csrf: &str) -> (r: Self)
        ensures
            r@ == (SessionView { music_u: music_u@, csrf: csrf@ }),
    {
        Self { music_u: music_u.to_owned(), csrf: csrf.to_owned() }
    }

    /// Pick the session out of a response's `Set-Cookie` headers. `None` when they
    /// carry no credential: then the response was not the authorising one.
    pub fn from_headers(headers: &Vec<String>) -> (r: Option<Self>)
        ensures
            match r {
                Some(session) => session_in(views(headers@)) == Some(session@),
                None => session_in(views(headers@)) is None,
            },
    {
        let ghost all = views(headers@);
        let mut music_u: Option<String> = None;
        let mut csrf: Option<String> = None;
        let mut i: usize = 0;
        while i < headers.len()
            invariant
                i <= headers@.len(),
                all == views(headers@),
                opt_string(music_u) == last_value(all.take(i as int), MUSIC_U@),
                opt_string(csrf) == last_value(all.take(i as int), CSRF@),
            decreases headers@.len() - i,
        {
            proof {
                assert(all.take(i + 1).drop_last() =~= all.take(i as int));
                assert(all.take(i + 1).last() == headers@[i as int]@);
                reveal_strlit("MUSIC_U");
                reveal_strlit("__csrf");
                assert(MUSIC_U@.len() != CSRF@.len());
            }
            match read_pair(headers[i].as_str()) {
                Some((name, value)) => {
                    if same(name.as_str(), MUSIC_U) {
                        music_u = Some(value);
                    } else if same(name.as_str(), CSRF) {
                        csrf = Some(value);
                    }
                },
                None => {},
            }
            i += 1;
        }
        assert(all.take(all.len() as int) =~= all);
        match music_u {
            Some(music_u) => Some(
                Session {
                    music_u,
                    csrf: match csrf {
                        Some(csrf) => csrf,
                        None => String::new(),
                    },
                },
            ),
            None => None,
        }
    }

    /// The value for a `Cookie` request header.
    pub fn cookie_header(&self) -> (r: String)
        ensures
            r@ == MUSIC_U@ + "="@ + self@.music_u + "; "@ + CSRF@ + "="@ + self@.csrf,
    {
        let mut out = MUSIC_U.to_owned();
        out.append("=");
        out.append(self.music_u.as_str());
        out.append("; ");
        out.append(CSRF);
        out.append("=");
        out.append(self.csrf.as_str());
        out
    }

    /// The cookies to put into a client's jar for `base_url`, which has to be a URL.
    /// NetEase gates a few responses on `os=pc`.
    pub fn attach(&self, base_url: &str) -> (r: Result<Vec<String>, NeteaseErr>)
        ensures
            match r {
                Ok(cookies) => url_refusal(base_url@) is None && views(cookies@) == jar_cookies(
                    self@,
                ),
                Err(e) => url_refusal(base_url@) matches Some(why) && e@ == bad_base_url(
                    base_url@,
                    why,
                ),
            },
    {
        match refused_url(base_url) {
            Some(why) => {
                let mut message = "invalid base url ".to_owned();
                message.append(quote(base_url).as_str());
                message.append(": ");
                message.append(why.as_str());
                return Err(NeteaseErr::BadRequest(message));
            },
            None => {},
        }
        let mut credential = MUSIC_U.to_owned();
        credential.append("=");
        credential.append(self.music_u.as_str());
        credential.append("; Path=/");
        let mut token = CSRF.to_owned();
        token.append("=");
        token.append(self.csrf.as_str());
        token.append("; Path=/");
        let mut out: Vec<String> = Vec::new();
        out.push(credential);
        out.push(token);
        out.push("os=pc; Path=/".to_owned());
        assert(views(out@) =~= jar_cookies(self@));
        Ok(out)
    }

    /// A client of the real origin, and the cookies with which it is logged in.
    pub fn client(&self) -> (r: Result<(Client, Vec<String>), NeteaseErr>)
        ensures
            match r {
                Ok((client, cookies)) => url_refusal(BASE_URL@) is None && client.origin()
                    == BASE_URL@ && views(cookies@) == jar_cookies(self@),
                Err(e) => url_refusal(BASE_URL@) matches Some(why) && e@ == bad_base_url(
                    BASE_URL@,
                    why,
                ),
            },
    {
        match self.attach(BASE_URL) {
            Ok(cookies) => Ok((Client::new(), cookies)),
            Err(e) => Err(e),
        }
    }

    /// A client of an arbitrary origin, and the cookies with which it is logged in.
    pub fn client_with_base_url(&self, base_url: &str) -> (r: Result<
        (Client, Vec<String>),
        NeteaseErr,
    >)
        ensures
            match r {
                Ok((client, cookies)) => url_refusal(base_url@) is None && client.origin()
                    == trim_end_of(base_url@, '/') && views(cookies@) == jar_cookies(self@),
                Err(e) => url_refusal(base_url@) matches Some(why) && e@ == bad_base_url(
                    base_url@,
                    why,
                ),
            },
    {
        match self.attach(base_url) {
            Ok(cookies) => Ok((Client::with_base_url(base_url), cookies)),
            Err(e) => Err(e),
        }
    }

    /// A missing file is no session rather than an error. A file that is there but
    /// corrupt stays an error: discarding it would turn a typo into a mysterious
    /// new login.
    pub fn load_opt(loaded: Result<Session, NeteaseErr>) -> (r: Result<Option<Session>, NeteaseErr>)
        ensures
            match loaded {
                Ok(session) => r == Ok::<Option<Session>, NeteaseErr>(Some(session)),
                Err(NeteaseErr::Io { not_found: true, message }) => r == Ok::<
                    Option<Session>,
                    NeteaseErr,
                >(None),
                Err(e) => r == Err::<Option<Session>, NeteaseErr>(e),
            },
    {
        match loaded {
            Ok(session) => Ok(Some(session)),
            Err(NeteaseErr::Io { not_found: true, .. }) => Ok(None),
            Err(e) => Err(e),
        }
    }
}

proof fn set_cookie_is_read_back(name: Seq<char>, value: Seq<char>)
    requires
        !name.contains(';'),
        !name.contains('='),
        trimmed(name) == name,
        !value.contains(';'),
        trimmed(value) == value,
    ensures
        cookie_pair(name + "="@ + value + "; Path=/"@) == Some((name, value)),
{
    reveal_strlit("=");
    reveal_strlit("; Path=/");
    let raw = name + "="@ + value + "; Path=/"@;
    let pair = name + "="@ + value;
    let end = pair.len() as int;
    assert forall|i: int| 0 <= i < end implies #[trigger] raw[i] != ';' by {
        if i < name.len() {
            assert(raw[i] == name[i]);
            assert(name.contains(name[i]));
        } else if i > name.len() {
            assert(raw[i] == value[i - name.len() - 1]);
            assert(value.contains(value[i - name.len() - 1]));
        } else {
            assert(raw[i] == '=');
        }
    }
    assert(raw[end] == ';');
    find_char_is_first(raw, ';', 0);
    assert(find_char(raw, ';', 0) == end) by {
        if find_char(raw, ';', 0) > end {
            assert(raw[end] != ';');
        }
    }
    assert(raw.take(end) =~= pair);
    let k = name.len() as int;
    assert forall|i: int| 0 <= i < k implies #[trigger] pair[i] != '=' by {
        assert(pair[i] == name[i]);
        assert(name.contains(name[i]));
    }
    assert(pair[k] == '=');
    find_char_is_first(pair, '=', 0);
    assert(find_char(pair, '=', 0) == k) by {
        if find_char(pair, '=', 0) > k {
            assert(pair[k] != '=');
        }
    }
    assert(pair.take(k) =~= name);
    assert(pair.skip(k + 1) =~= value);
}

/// Putting a session's cookies back is resuming it: read as `Set-Cookie` headers,
/// what [`Session::attach`] gives is the session itself. Its values are any that a
/// cookie can hold: without a semicolon, and without white space at their ends.
pub proof fn a_session_is_its_cookies(session: SessionView)
    requires
        !session.music_u.contains(';'),
        trimmed(session.music_u) == session.music_u,
        !session.csrf.contains(';'),
        trimmed(session.csrf) == session.csrf,
    ensures
        session_in(jar_cookies(session)) == Some(session),
{
    reveal_strlit("MUSIC_U");
    reveal_strlit("__csrf");
    reveal_strlit("os=pc; Path=/");
    reveal_strlit("os");
    reveal_strlit("pc");
    reveal_strlit("=");
    reveal_strlit("; Path=/");
    assert(MUSIC_U@.len() != CSRF@.len());
    set_cookie_is_read_back(MUSIC_U@, session.music_u);
    set_cookie_is_read_back(CSRF@, session.csrf);
    assert("os=pc; Path=/"@ =~= "os"@ + "="@ + "pc"@ + "; Path=/"@);
    set_cookie_is_read_back("os"@, "pc"@);
    let a = MUSIC_U@ + "="@ + session.music_u + "; Path=/"@;
    let b = CSRF@ + "="@ + session.csrf + "; Path=/"@;
    let c = "os=pc; Path=/"@;
    let all = seq![a, b, c];
    assert(all.drop_last() =~= seq![a, b]);
    assert(seq![a, b].drop_last() =~= seq![a]);
    assert(last_value(seq![a], MUSIC_U@) == Some(session.music_u));
    assert(last_value(seq![a, b], MUSIC_U@) == Some(session.music_u));
    assert(last_value(seq![a, b], CSRF@) == Some(session.csrf));
    assert(last_value(all, MUSIC_U@) == last_value(seq![a, b], MUSIC_U@));
    assert(last_value(all, CSRF@) == last_value(seq![a, b], CSRF@));
}

/// A cookie is set by its name, `=` and its value, up to the first `;`, with any white
/// space around the two; what follows the `;` does not matter. Without `=` nothing is set.
pub proof fn a_cookie_is_its_name_and_value(
    name: Seq<char>,
    value: Seq<char>,
    attributes: Seq<char>,
)
    requires
        !name.contains(';'),
        !name.contains('='),
        !value.contains(';'),
    ensures
        cookie_pair(name + seq!['='] + value) == Some((trimmed(name), trimmed(value))),
        cookie_pair(name + seq!['='] + value + seq![';'] + attributes) == Some(
            (trimmed(name), trimmed(value)),
        ),
        cookie_pair(name) is None,
        cookie_pair(name + seq![';'] + attributes) is None,
{
    let pair = name + seq!['='] + value;
    let n = name.len() as int;
    assert forall|i: int| 0 <= i < pair.len() implies #[trigger] pair[i] != ';' by {
        if i < n {
            assert(name.contains(name[i]));
        } else if i > n {
            assert(value.contains(value[i - n - 1]));
        }
    }
    assert forall|i: int| 0 <= i < n implies #[trigger] pair[i] != '=' by {
        assert(name.contains(name[i]));
    }
    assert(pair[n] == '=');
    find_char_is_first(pair, '=', 0);
    assert(pair.take(n) =~= name);
    assert(pair.skip(n + 1) =~= value);
    up_to_the_end(pair, attributes);
    assert forall|i: int| 0 <= i < n implies #[trigger] name[i] != ';' && name[i] != '=' by {
        assert(name.contains(name[i]));
    }
    up_to_the_end(name, attributes);
    find_char_is_first(name, '=', 0);
}

proof fn up_to_the_end(pair: Seq<char>, attributes: Seq<char>)
    requires
        forall|i: int| 0 <= i < pair.len() ==> #[trigger] pair[i] != ';',
    ensures
        pair.take(find_char(pair, ';', 0)) == pair,
        (pair + seq![';'] + attributes).take(
            find_char(pair + seq![';'] + attributes, ';', 0),
        ) == pair,
{
    let n = pair.len() as int;
    find_char_is_first(pair, ';', 0);
    assert(find_char(pair, ';', 0) == n);
    assert(pair.take(n) =~= pair);
    let all = pair + seq![';'] + attributes;
    find_char_is_first(all, ';', 0);
    let k = find_char(all, ';', 0);
    assert(all[n] == ';');
    if k < n {
        assert(all[k] == pair[k]);
    }
    assert(all.take(n) =~= pair);
}

/// Of headers that set one cookie the last counts, and a cookie that none sets has no
/// value.
pub proof fn the_last_cookie_set_counts(headers: Seq<Seq<char>>, name: Seq<char>)
    ensures
        match last_value(headers, name) {
            Some(value) => exists|i: int|
                0 <= i < headers.len() && cookie_pair(#[trigger] headers[i]) == Some((name, value))
                    && forall|j: int|
                    i < j < headers.len() ==> !(cookie_pair(#[trigger] headers[j]) matches Some(p)
                        && p.0 == name),
            None => forall|i: int|
                0 <= i < headers.len() ==> !(cookie_pair(#[trigger] headers[i]) matches Some(p)
                    && p.0 == name),
        },
    decreases headers.len(),
{
    if headers.len() > 0 {
        let before = headers.drop_last();
        the_last_cookie_set_counts(before, name);
        let set = match cookie_pair(headers.last()) {
            Some(p) => p.0 == name,
            None => false,
        };
        if set {
            assert(cookie_pair(headers[headers.len() - 1]) == Some(
                (name, last_value(headers, name)->0),
            ));
        } else {
            match last_value(before, name) {
                Some(value) => {
                    let i = choose|i: int|
                        0 <= i < before.len() && cookie_pair(#[trigger] before[i]) == Some(
                            (name, value),
                        ) && forall|j: int|
                            i < j < before.len() ==> !(cookie_pair(#[trigger] before[j])
                                matches Some(p) && p.0 == name);
                    assert(headers[i] == before[i]);
                    assert forall|j: int| i < j < headers.len() implies !(cookie_pair(
                        #[trigger] headers[j],
                    ) matches Some(p) && p.0 == name) by {
                        if j < before.len() {
                            assert(before[j] == headers[j]);
                        }
                    }
                },
                None => {
                    assert forall|i: int| 0 <= i < headers.len() implies !(cookie_pair(
                        #[trigger] headers[i],
                    ) matches Some(p) && p.0 == name) by {
                        if i < before.len() {
                            assert(before[i] == headers[i]);
                        }
                    }
                },
            }
        }
    }
}

/// There is a session exactly where the headers set `MUSIC_U`, and it is made of that and
/// of `__csrf`, which may be missing.
pub proof fn a_session_is_what_the_headers_set(headers: Seq<Seq<char>>)
    ensures
        match session_in(headers) {
            Some(session) => {
                &&& last_value(headers, "MUSIC_U"@) == Some(session.music_u)
                &&& match last_value(headers, "__csrf"@) {
                    Some(csrf) => session.csrf == csrf,
                    None => session.csrf.len() == 0,
                }
            },
            None => last_value(headers, "MUSIC_U"@) is None,
        },
{
}

/// A base address that is refused is named, with the reason.
pub proof fn a_refused_address_is_named(base_url: Seq<char>, why: Seq<char>)
    ensures
        bad_base_url(base_url, why) matches NeteaseErrView::BadRequest(words) && contains(
            words,
            quoted(base_url),
        ) && why.is_suffix_of(words),
{
    if let NeteaseErrView::BadRequest(words) = bad_base_url(base_url, why) {
        what_is_put_in_is_contained("invalid base url "@, quoted(base_url), ": "@ + why);
        assert(words =~= "invalid base url "@ + quoted(base_url) + (": "@ + why));
        assert(why =~= words.skip(words.len() - why.len()));
    }
}

/// What is said of a session is what it holds.
pub proof fn a_session_shows_its_fields(session: Session)
    ensures
        session@.music_u == session.music_u@,
        session@.csrf == session.csrf@,
{
}

/// A jar is given the session's two cookies and the name of a desktop, each for the whole
/// site.
pub proof fn a_jar_is_given_three_cookies(session: SessionView)
    ensures
        jar_cookies(session).len() == 3,
        jar_cookies(session)[0] == "MUSIC_U"@ + "="@ + session.music_u + "; Path=/"@,
        jar_cookies(session)[1] == "__csrf"@ + "="@ + session.csrf + "; Path=/"@,
        cookie_pair(jar_cookies(session)[2]) == Some(("os"@, "pc"@)),
{
    reveal_strlit("os");
    reveal_strlit("pc");
    reveal_strlit("os=pc; Path=/");
    let raw = jar_cookies(session)[2];
    let rest = raw.skip(6);
    assert forall|i: int| 0 <= i < 2 implies "os"@[i] != ';' && "os"@[i] != '=' by {}
    assert(!"os"@.contains(';')) by {
        if "os"@.contains(';') {
            let i = "os"@.index_of(';');
            assert("os"@[i] == ';');
        }
    }
    assert(!"os"@.contains('=')) by {
        if "os"@.contains('=') {
            let i = "os"@.index_of('=');
            assert("os"@[i] == '=');
        }
    }
    assert(!"pc"@.contains(';')) by {
        if "pc"@.contains(';') {
            let i = "pc"@.index_of(';');
            assert("pc"@[i] == ';');
        }
    }
    assert(raw =~= "os"@ + seq!['='] + "pc"@ + seq![';'] + rest);
    a_cookie_is_its_name_and_value("os"@, "pc"@, rest);
    trimming_ignores_white_space_around(Seq::empty(), "os"@, Seq::empty());
    trimming_ignores_white_space_around(Seq::empty(), "pc"@, Seq::empty());
}

} // verus!
