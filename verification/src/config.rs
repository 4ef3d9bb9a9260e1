//! Runtime configuration, out of the environment.

use crate::decimal::{dec, dec_denotes, is_digit, parse_u64, parsed_nat, u64_text};
use crate::json::opt_string;
use crate::text::{
    contains, only_the_trailing_run_is_cut, trim_end_matches, trim_end_of, trim_end_of_ends,
    what_is_put_in_is_contained,
};
use vstd::prelude::*;

verus! {

/// The variables a configuration is read from, as far as they are set.
#[derive(Debug, Clone)]
pub struct Variables {
    pub host_ip: Option<String>,
    pub port: Option<String>,
    pub device: Option<String>,
    pub public_base_url: Option<String>,
    pub music_dir: Option<String>,
    pub auth_cache: Option<String>,
    pub deepseek_api_key: Option<String>,
    pub deepseek_model: Option<String>,
    pub netease_session: Option<String>,
    pub stream_token: Option<String>,
}

/// This deployment: which speaker to drive and where it can reach us.
///
/// The port is where the server listens; the base URL is what the speaker is
/// handed. They coincide on a local network and differ behind a tunnel.
#[derive(Debug, Clone)]
pub struct Config {
    /// Speaker alias as shown in Mi Home.
    pub device_alias: String,
    /// Port the HTTP server binds.
    pub port: u16,
    /// Base URL handed to the speaker, no trailing slash.
    pub public_base_url: String,
    /// Directory served over HTTP and scanned for audio.
    pub music_dir: String,
    /// Where the login result is cached.
    pub auth_cache: String,
    /// Optional here, but the program refuses to start without one.
    pub deepseek_api_key: Option<String>,
    pub deepseek_model: String,
    /// Where the NetEase login is cached.
    pub netease_session: String,
    /// Unguessable prefix on the audio paths. Unset means no check.
    pub stream_token: Option<String>,
}

/// A variable that counts only when it is not empty.
pub open spec fn set(value: Option<Seq<char>>) -> Option<Seq<char>> {
    match value {
        Some(v) => if v.len() > 0 {
            Some(v)
        } else {
            None
        },
        None => None,
    }
}

/// A variable with a default.
pub open spec fn set_or(value: Option<Seq<char>>, default: Seq<char>) -> Seq<char> {
    match set(value) {
        Some(v) => v,
        None => default,
    }
}

/// A variable that counts only when it is not empty.
fn optional_str(value: &Option<String>) -> (r: Option<String>)
    ensures
        opt_string(r) == set(opt_string(*value)),
{
    match value {
        Some(v) => if v.as_str().unicode_len() > 0 {
            Some(v.clone())
        } else {
            None
        },
        None => None,
    }
}

/// A variable with a default.
fn optional(value: &Option<String>, default: &str) -> (r: String)
    ensures
        r@ == set_or(opt_string(*value), default@),
{
    match optional_str(value) {
        Some(v) => v,
        None => default.to_owned(),
    }
}

/// What is said of a variable that has to be set.
pub open spec fn must_be_set(key: Seq<char>) -> Seq<char> {
    key + " must be set (see .env.example)"@
}

/// A variable that has to be set.
fn required(key: &str, value: &Option<String>) -> (r: Result<String, String>)
    ensures
        match *value {
            Some(v) => r matches Ok(text) && text@ == v@,
            None => r matches Err(e) && e@ == must_be_set(key@),
        },
{
    match value {
        Some(v) => Ok(v.clone()),
        None => {
            let mut message = key.to_owned();
            message.append(" must be set (see .env.example)");
            Err(message)
        },
    }
}

/// The speaker-facing URL.
pub open spec fn speaker_url(explicit: Option<Seq<char>>, host_ip: Seq<char>, port: int) -> Seq<
    char,
> {
    match explicit {
        Some(url) => trim_end_of(url, '/'),
        None => "http://"@ + host_ip + ":"@ + dec(port as nat),
    }
}

/// The speaker-facing URL: an explicit one, without its trailing slashes, wins;
/// else it is derived from the address on the local network.
pub fn public_base_url(explicit: Option<String>, host_ip: &str, port: u16) -> (r: String)
    ensures
        r@ == speaker_url(opt_string(explicit), host_ip@, port as int),
{
    match explicit {
        Some(url) => trim_end_matches(url.as_str(), '/').to_owned(),
        None => {
            let mut out = "http://".to_owned();
            out.append(host_ip);
            out.append(":");
            out.append(u64_text(port as u64).as_str());
            out
        },
    }
}

/// The port that a variable names, 3000 when it is not set.
pub open spec fn port_of(value: Option<Seq<char>>) -> Option<nat> {
    match value {
        Some(text) => parsed_nat(text, 65535),
        None => Some(3000),
    }
}

/// The first thing wrong with the variables, if any.
pub open spec fn complaint(v: Variables) -> Option<Seq<char>> {
    if v.host_ip is None {
        Some(must_be_set("XIAOAI_HOST_IP"@))
    } else if port_of(opt_string(v.port)) is None {
        Some("XIAOAI_PORT is not a port number"@)
    } else if v.device is None {
        Some(must_be_set("XIAOAI_DEVICE"@))
    } else {
        None
    }
}

impl Config {
    /// Read a configuration out of the variables.
    pub fn from_env(v: &Variables) -> (r: Result<Config, String>)
        ensures
            match r {
                Err(e) => complaint(*v) == Some(e@),
                Ok(config) => {
                    &&& complaint(*v) is None
                    &&& config.device_alias@ == v.device->0@
                    &&& Some(config.port as nat) == port_of(opt_string(v.port))
                    &&& config.public_base_url@ == speaker_url(
                        set(opt_string(v.public_base_url)),
                        v.host_ip->0@,
                        config.port as int,
                    )
                    &&& config.music_dir@ == set_or(opt_string(v.music_dir), "."@)
                    &&& config.auth_cache@ == set_or(opt_string(v.auth_cache), "auth_data.json"@)
                    &&& opt_string(config.deepseek_api_key) == set(opt_string(v.deepseek_api_key))
                    &&& config.deepseek_model@ == set_or(
                        opt_string(v.deepseek_model),
                        "deepseek-v4-flash"@,
                    )
                    &&& config.netease_session@ == set_or(
                        opt_string(v.netease_session),
                        "netease_session.json"@,
                    )
                    &&& opt_string(config.stream_token) == set(opt_string(v.stream_token))
                },
            },
    {
        let host_ip = match required("XIAOAI_HOST_IP", &v.host_ip) {
            Ok(text) => text,
            Err(e) => {
                return Err(e);
            },
        };
        let port: u16 = match &v.port {
            Some(text) => match parse_u64(text.as_str()) {
                Some(n) => if n <= 65535 {
                    n as u16
                } else {
                    return Err("XIAOAI_PORT is not a port number".to_owned());
                },
                None => {
                    return Err("XIAOAI_PORT is not a port number".to_owned());
                },
            },
            None => 3000,
        };
        let device_alias = match required("XIAOAI_DEVICE", &v.device) {
            Ok(text) => text,
            Err(e) => {
                return Err(e);
            },
        };
        Ok(
            Config {
                device_alias,
                port,
                public_base_url: public_base_url(
                    optional_str(&v.public_base_url),
                    host_ip.as_str(),
                    port,
                ),
                music_dir: optional(&v.music_dir, "."),
                auth_cache: optional(&v.auth_cache, "auth_data.json"),
                deepseek_api_key: optional_str(&v.deepseek_api_key),
                deepseek_model: optional(&v.deepseek_model, "deepseek-v4-flash"),
                netease_session: optional(&v.netease_session, "netease_session.json"),
                stream_token: optional_str(&v.stream_token),
            },
        )
    }

    /// Base URL the speaker is pointed at, not where we listen.
    pub fn base_url(&self) -> (r: &str)
        ensures
            r@ == self.public_base_url@,
    {
        self.public_base_url.as_str()
    }
}

/// An explicit base URL never ends in a slash, so that a path can be appended with
/// one.
pub proof fn an_explicit_url_has_no_trailing_slash(url: Seq<char>, host_ip: Seq<char>, port: int)
    ensures
        ({
            let base = speaker_url(Some(url), host_ip, port);
            base.len() > 0 ==> base.last() != '/'
        }),
{
    trim_end_of_ends(url, '/');
}

/// A setting that is there counts as it is; one that is empty, or not there at all, leaves
/// the default.
pub proof fn an_empty_setting_is_no_setting(value: Seq<char>, default: Seq<char>)
    ensures
        value.len() > 0 ==> set(Some(value)) == Some(value) && set_or(Some(value), default) == value,
        value.len() == 0 ==> set(Some(value)) is None && set_or(Some(value), default) == default,
        set(None) is None,
        set_or(None, default) == default,
{
}

/// Without an explicit address the speaker is sent to this host at this port, over plain
/// HTTP; an explicit address is kept but for the slashes at its end.
pub proof fn the_speaker_is_sent_to_this_host(
    url: Seq<char>,
    host_ip: Seq<char>,
    port: u16,
)
    ensures
        ({
            let base = speaker_url(None, host_ip, port as int);
            let start = "http://"@ + host_ip + seq![':'];
            &&& start.is_prefix_of(base)
            &&& parsed_nat(base.skip(start.len() as int), 65535) == Some(port as nat)
        }),
        ({
            let base = speaker_url(Some(url), host_ip, port as int);
            &&& base.is_prefix_of(url)
            &&& forall|i: int| base.len() <= i < url.len() ==> #[trigger] url[i] == '/'
            &&& base.len() > 0 ==> base.last() != '/'
        }),
{
    reveal_strlit(":");
    assert(":"@ =~= seq![':']);
    let start = "http://"@ + host_ip + seq![':'];
    let base = speaker_url(None, host_ip, port as int);
    dec_denotes(port as nat);
    assert(is_digit(dec(port as nat)[0]));
    assert(base =~= start + dec(port as nat));
    assert(base.skip(start.len() as int) =~= dec(port as nat));
    assert(start =~= base.take(start.len() as int));
    only_the_trailing_run_is_cut(url, '/');
}

/// A port that was written out is that port; one that is no port is refused, and 3000 is
/// used where none is set.
pub proof fn a_port_is_read_as_written(n: nat)
    ensures
        n <= 65535 ==> port_of(Some(dec(n))) == Some(n),
        n > 65535 ==> port_of(Some(dec(n))) is None,
        port_of(None) == Some(3000nat),
{
    dec_denotes(n);
    assert(is_digit(dec(n)[0]));
}

/// A configuration is refused only for want of the host, the device or a port number, and
/// what is wanting is named.
pub proof fn a_complaint_names_what_is_missing(v: Variables)
    ensures
        complaint(v) is None <==> v.host_ip is Some && v.device is Some && port_of(
            opt_string(v.port),
        ) is Some,
        v.host_ip is None ==> (complaint(v) matches Some(why) && contains(why, "XIAOAI_HOST_IP"@)),
        v.host_ip is Some && port_of(opt_string(v.port)) is None ==> (complaint(v) matches Some(why)
            && contains(why, "XIAOAI_PORT"@)),
        v.host_ip is Some && port_of(opt_string(v.port)) is Some && v.device is None ==> (complaint(v)
            matches Some(why) && contains(why, "XIAOAI_DEVICE"@)),
{
    reveal_strlit("XIAOAI_PORT is not a port number");
    reveal_strlit("XIAOAI_PORT");
    let why = "XIAOAI_PORT is not a port number"@;
    assert(why =~= "XIAOAI_PORT"@ + why.skip(11));
    let nothing = Seq::<char>::empty();
    what_is_put_in_is_contained(nothing, "XIAOAI_PORT"@, why.skip(11));
    assert(nothing + "XIAOAI_PORT"@ =~= "XIAOAI_PORT"@);
    what_is_put_in_is_contained(
        nothing,
        "XIAOAI_HOST_IP"@,
        " must be set (see .env.example)"@,
    );
    assert(nothing + "XIAOAI_HOST_IP"@ =~= "XIAOAI_HOST_IP"@);
    what_is_put_in_is_contained(
        nothing,
        "XIAOAI_DEVICE"@,
        " must be set (see .env.example)"@,
    );
    assert(nothing + "XIAOAI_DEVICE"@ =~= "XIAOAI_DEVICE"@);
}

} // verus!
