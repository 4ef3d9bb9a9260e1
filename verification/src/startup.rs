//! What is decided before the assistant starts: whether it can start at all, and
//! where its audio is served.

use crate::config::Config;
use crate::json::{opt_string, opt_view};
use crate::percent::unreserved;
use crate::text::{
    contains, find_text, replace, replaced, replacing_replaces_the_pattern_alone,
    what_is_replaced_is_gone,
};
use vstd::prelude::*;

verus! {

/// Whether `c` survives being put into a URL path as it is.
pub open spec fn token_char(c: char) -> bool {
    c as u32 <= 126 && unreserved(c as u8)
}

/// Whether `token` can be a path prefix.
pub open spec fn usable_token(token: Seq<char>) -> bool {
    token.len() > 0 && forall|i: int| 0 <= i < token.len() ==> token_char(#[trigger] token[i])
}

/// What is said of a token that cannot.
pub open spec fn token_complaint() -> Seq<char> {
    "XIAOAI_STREAM_TOKEN must be a non-empty URL-safe string (letters, digits, and any of -_.~): it becomes a path prefix"@
}

fn is_token_char(c: char) -> (r: bool)
    ensures
        r == token_char(c),
{
    ('0' <= c && c <= '9') || ('A' <= c && c <= 'Z') || ('a' <= c && c <= 'z') || c == '-' || c
        == '.' || c == '_' || c == '~'
}

/// Reject a token that would not survive being put in a URL path.
pub fn check_token(token: &str) -> (r: Result<&str, String>)
    ensures
        match r {
            Ok(same) => usable_token(token@) && same@ == token@,
            Err(e) => !usable_token(token@) && e@ == token_complaint(),
        },
{
    let n: usize = token.unicode_len();
    let mut i: usize = 0;
    let mut good: bool = n > 0;
    while i < n
        invariant
            n == token@.len(),
            i <= n,
            good == (n > 0 && forall|j: int| 0 <= j < i ==> token_char(#[trigger] token@[j])),
        decreases n - i,
    {
        if !is_token_char(token.get_char(i)) {
            assert(!token_char(token@[i as int]));
            good = false;
        }
        i += 1;
    }
    if good {
        Ok(token)
    } else {
        Err(
            "XIAOAI_STREAM_TOKEN must be a non-empty URL-safe string (letters, digits, and any of -_.~): it becomes a path prefix".to_owned(),
        )
    }
}

/// What is said when there is no key for the model.
pub open spec fn key_complaint() -> Seq<char> {
    "DEEPSEEK_API_KEY must be set: the assistant's brain is the DeepSeek API and there is no offline fallback (see .env.example)"@
}

/// The URL the speaker fetches audio from.
pub open spec fn audio_base(base_url: Seq<char>, token: Option<Seq<char>>) -> Seq<char> {
    match token {
        Some(token) => base_url + "/"@ + token,
        None => base_url,
    }
}

/// The path the audio routes are mounted under; the root when there is no token.
pub open spec fn mount(token: Option<Seq<char>>) -> Option<Seq<char>> {
    match token {
        Some(token) => Some("/"@ + token),
        None => None,
    }
}

/// A deployment that can start.
#[derive(Debug, Clone)]
pub struct Ready {
    pub api_key: String,
    /// The URL the speaker fetches audio from. It is built from the same token that
    /// the routes are mounted under, so the two cannot drift apart.
    pub base_url: String,
    /// The path the audio routes are mounted under.
    pub mount: Option<String>,
    /// The base URL as it may be logged: without the token.
    pub logged_url: String,
}

/// Check a configuration: a missing key or an unusable token is fatal, in that
/// order.
pub fn run(config: &Config) -> (r: Result<Ready, String>)
    ensures
        match r {
            Err(e) => {
                ||| config.deepseek_api_key is None && e@ == key_complaint()
                ||| config.deepseek_api_key is Some && config.stream_token is Some && !usable_token(
                    config.stream_token->0@,
                ) && e@ == token_complaint()
            },
            Ok(ready) => {
                &&& opt_string(config.deepseek_api_key) == Some(ready.api_key@)
                &&& config.stream_token matches Some(token) ==> usable_token(token@)
                &&& ready.base_url@ == audio_base(
                    config.public_base_url@,
                    opt_string(config.stream_token),
                )
                &&& opt_string(ready.mount) == mount(opt_string(config.stream_token))
                &&& ready.logged_url@ == match config.stream_token {
                    Some(token) => replaced(ready.base_url@, token@, "<token>"@),
                    None => ready.base_url@,
                }
            },
        },
{
    let api_key = match &config.deepseek_api_key {
        Some(key) => key.clone(),
        None => {
            return Err(
                "DEEPSEEK_API_KEY must be set: the assistant's brain is the DeepSeek API and there is no offline fallback (see .env.example)".to_owned(),
            );
        },
    };
    let mut base_url = config.public_base_url.clone();
    match &config.stream_token {
        Some(token) => {
            match check_token(token.as_str()) {
                Ok(_) => {},
                Err(e) => {
                    return Err(e);
                },
            }
            base_url.append("/");
            base_url.append(token.as_str());
            let mut path = "/".to_owned();
            path.append(token.as_str());
            let logged_url = replace(base_url.as_str(), token.as_str(), "<token>");
            Ok(Ready { api_key, base_url, mount: Some(path), logged_url })
        },
        None => {
            let logged_url = base_url.clone();
            Ok(Ready { api_key, base_url, mount: None, logged_url })
        },
    }
}

/// Where a request path leads once the audio routes are mounted: the path inside
/// the mount, or nowhere.
pub open spec fn routed(token: Option<Seq<char>>, path: Seq<char>) -> Option<Seq<char>> {
    match mount(token) {
        None => Some(path),
        Some(prefix) => if prefix.is_prefix_of(path) && (path.len() == prefix.len()
            || path[prefix.len() as int] == '/') {
            Some(path.skip(prefix.len() as int))
        } else {
            None
        },
    }
}

/// Where a request path leads once the audio routes are mounted.
pub fn audio_app<'a>(token: Option<&str>, path: &'a str) -> (r: Option<&'a str>)
    ensures
        opt_view(r) == routed(opt_view(token), path@),
{
    match token {
        None => Some(path),
        Some(token) => {
            let mut prefix = "/".to_owned();
            prefix.append(token);
            match crate::text::strip_prefix(path, prefix.as_str()) {
                Some(rest) => {
                    if rest.unicode_len() == 0 {
                        assert(path@.len() == prefix@.len());
                        Some(rest)
                    } else if rest.get_char(0) == '/' {
                        assert(rest@[0] == path@[prefix@.len() as int]);
                        Some(rest)
                    } else {
                        assert(rest@[0] == path@[prefix@.len() as int]);
                        None
                    }
                },
                None => None,
            }
        },
    }
}

/// With a token nothing is served without it: a path that does not begin with the
/// token's leads nowhere, and one that the speaker was handed leads inside.
pub proof fn every_audio_path_needs_the_token(
    token: Seq<char>,
    path: Seq<char>,
    inside: Seq<char>,
)
    requires
        inside.len() > 0,
        inside[0] == '/',
    ensures
        !("/"@ + token).is_prefix_of(path) ==> routed(Some(token), path) is None,
        routed(Some(token), "/"@ + token + inside) == Some(inside),
        routed(None, path) == Some(path),
{
    let prefix = "/"@ + token;
    let whole = prefix + inside;
    assert(whole.take(prefix.len() as int) =~= prefix);
    assert(prefix.is_prefix_of(whole));
    assert(whole.skip(prefix.len() as int) =~= inside);
}

/// What the speaker is sent to is what is served: an address made from the audio base and
/// a path leads, behind the server's own address, through the mount to that very path,
/// with a token and without.
pub proof fn the_audio_base_leads_through_the_mount(
    base_url: Seq<char>,
    token: Option<Seq<char>>,
    inside: Seq<char>,
)
    requires
        inside.len() > 0,
        inside[0] == '/',
    ensures
        base_url.is_prefix_of(audio_base(base_url, token)),
        routed(token, (audio_base(base_url, token) + inside).skip(base_url.len() as int)) == Some(
            inside,
        ),
        mount(token) == match token {
            Some(token) => Some(seq!['/'] + token),
            None => None,
        },
{
    reveal_strlit("/");
    assert("/"@ =~= seq!['/']);
    assert(base_url =~= audio_base(base_url, token).take(base_url.len() as int));
    let path = (audio_base(base_url, token) + inside).skip(base_url.len() as int);
    match token {
        Some(t) => {
            let prefix = "/"@ + t;
            assert(path =~= prefix + inside);
            assert(prefix =~= path.take(prefix.len() as int));
            assert(path[prefix.len() as int] == inside[0]);
            assert(path.skip(prefix.len() as int) =~= inside);
        },
        None => {
            assert(path =~= inside);
        },
    }
}

/// A token is usable when it is not empty and every character of it stands in a URL path
/// as itself: a letter, a digit, or one of `-`, `_`, `.` and `~`.
pub proof fn a_usable_token_stands_in_a_path_as_itself(token: Seq<char>)
    ensures
        usable_token(token) <==> token.len() > 0 && forall|i: int|
            0 <= i < token.len() ==> {
                let c = #[trigger] token[i];
                ||| 'a' <= c <= 'z'
                ||| 'A' <= c <= 'Z'
                ||| '0' <= c <= '9'
                ||| c == '-'
                ||| c == '_'
                ||| c == '.'
                ||| c == '~'
            },
{
    assert forall|i: int| 0 <= i < token.len() implies (token_char(#[trigger] token[i]) <==> {
        let c = token[i];
        ||| 'a' <= c <= 'z'
        ||| 'A' <= c <= 'Z'
        ||| '0' <= c <= '9'
        ||| c == '-'
        ||| c == '_'
        ||| c == '.'
        ||| c == '~'
    }) by {
        stands_for_itself(token[i]);
    }
}

proof fn stands_for_itself(c: char)
    ensures
        token_char(c) <==> {
            ||| 'a' <= c <= 'z'
            ||| 'A' <= c <= 'Z'
            ||| '0' <= c <= '9'
            ||| c == '-'
            ||| c == '_'
            ||| c == '.'
            ||| c == '~'
        },
{
}

/// A request is let in by exactly one mount: the path that is left has the mount before it.
pub proof fn what_is_let_in_came_through_the_mount(token: Seq<char>, path: Seq<char>)
    ensures
        routed(Some(token), path) matches Some(inside) ==> path == seq!['/'] + token + inside && (
        inside.len() == 0 || inside[0] == '/'),
        routed(Some(token), path) is None ==> forall|inside: Seq<char>|
            (inside.len() == 0 || inside[0] == '/') ==> path != #[trigger] (seq!['/'] + token
                + inside),
{
    reveal_strlit("/");
    assert("/"@ =~= seq!['/']);
    let prefix = seq!['/'] + token;
    if let Some(inside) = routed(Some(token), path) {
        assert(path =~= prefix + inside);
    } else {
        assert forall|inside: Seq<char>|
            (inside.len() == 0 || inside[0] == '/') implies path != #[trigger] (seq!['/'] + token
            + inside) by {
            let made = prefix + inside;
            assert(prefix =~= made.take(prefix.len() as int));
            if inside.len() > 0 {
                assert(made[prefix.len() as int] == inside[0]);
            }
        }
    }
}

/// The address that is logged shows the server and never the token: the token's place is
/// taken by a word for it. A token that is itself a part of that word tells nothing apart.
pub proof fn the_logged_address_hides_the_token(base_url: Seq<char>, token: Seq<char>)
    requires
        usable_token(token),
        !contains("<token>"@, token),
    ensures
        !contains(
            replaced(audio_base(base_url, Some(token)), token, "<token>"@),
            token,
        ),
        find_text(base_url + seq!['/'] + token, token, 0) == Some(1 + base_url.len() as int)
            ==> replaced(audio_base(base_url, Some(token)), token, "<token>"@) == base_url + seq![
            '/',
        ] + "<token>"@,
{
    reveal_strlit("<token>");
    reveal_strlit("/");
    assert("/"@ =~= seq!['/']);
    let by = "<token>"@;
    assert(by[0] == '<' && by.last() == '>');
    if token.contains('<') {
        let i = token.index_of('<');
        assert(token_char(token[i]));
    }
    if token.contains('>') {
        let i = token.index_of('>');
        assert(token_char(token[i]));
    }
    what_is_replaced_is_gone(audio_base(base_url, Some(token)), token, by);
    let before = base_url + seq!['/'];
    let nothing = Seq::<char>::empty();
    if find_text(before + token, token, 0) == Some(before.len() as int) {
        replacing_replaces_the_pattern_alone(before, token, by, nothing);
        assert(before + token + nothing =~= audio_base(base_url, Some(token)));
        assert(replaced(nothing, token, by) =~= nothing);
        assert(before + by + nothing =~= before + by);
    }
}

} // verus!
