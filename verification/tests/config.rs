use xiaoai_llm::config::{public_base_url, Config, Variables};
use xiaoai_llm::startup::{audio_app, check_token, run};

fn variables() -> Variables {
    Variables {
        host_ip: Some("192.168.1.20".to_string()),
        port: None,
        device: Some("卧室的小爱".to_string()),
        public_base_url: None,
        music_dir: None,
        auth_cache: None,
        deepseek_api_key: Some("key".to_string()),
        deepseek_model: None,
        netease_session: None,
        stream_token: None,
    }
}

#[test]
fn falls_back_to_the_lan_address() {
    assert_eq!(
        public_base_url(None, "192.168.1.20", 3000),
        "http://192.168.1.20:3000"
    );
}

#[test]
fn override_wins_and_loses_its_trailing_slash() {
    assert_eq!(
        public_base_url(Some("https://music.example.com/".into()), "10.0.0.1", 3000),
        "https://music.example.com"
    );
}

#[test]
fn defaults_fill_in_what_is_not_set() {
    let config = Config::from_env(&variables()).unwrap();
    assert_eq!(config.device_alias, "卧室的小爱");
    assert_eq!(config.port, 3000);
    assert_eq!(config.base_url(), "http://192.168.1.20:3000");
    assert_eq!(config.music_dir, ".");
    assert_eq!(config.auth_cache, "auth_data.json");
    assert_eq!(config.deepseek_model, "deepseek-v4-flash");
    assert_eq!(config.netease_session, "netease_session.json");
    assert_eq!(config.stream_token, None);
}

#[test]
fn an_empty_variable_counts_as_unset() {
    let mut v = variables();
    v.deepseek_api_key = Some(String::new());
    v.music_dir = Some(String::new());
    v.public_base_url = Some(String::new());
    let config = Config::from_env(&v).unwrap();
    assert_eq!(config.deepseek_api_key, None);
    assert_eq!(config.music_dir, ".");
    assert_eq!(config.public_base_url, "http://192.168.1.20:3000");
}

#[test]
fn what_is_required_is_named() {
    let mut v = variables();
    v.host_ip = None;
    assert_eq!(
        Config::from_env(&v).unwrap_err(),
        "XIAOAI_HOST_IP must be set (see .env.example)"
    );
    let mut v = variables();
    v.device = None;
    assert_eq!(
        Config::from_env(&v).unwrap_err(),
        "XIAOAI_DEVICE must be set (see .env.example)"
    );
    for bad in ["65536", "-1", "http", ""] {
        let mut v = variables();
        v.port = Some(bad.to_string());
        assert_eq!(Config::from_env(&v).unwrap_err(), "XIAOAI_PORT is not a port number");
    }
    let mut v = variables();
    v.port = Some("65535".to_string());
    assert_eq!(Config::from_env(&v).unwrap().port, 65535);
}

#[test]
fn an_unusable_token_is_a_startup_error() {
    for bad in ["", "has/slash", "has space", "有中文", "a?b"] {
        assert!(check_token(bad).is_err(), "{bad:?}");
    }
    assert!(check_token("A-Za-z_0.9~").is_ok());
}

#[test]
fn a_missing_key_is_fatal_before_a_bad_token() {
    let mut v = variables();
    v.deepseek_api_key = None;
    v.stream_token = Some("a/b".to_string());
    let e = run(&Config::from_env(&v).unwrap()).unwrap_err();
    assert!(e.starts_with("DEEPSEEK_API_KEY must be set"), "{e}");
    v.deepseek_api_key = Some("key".to_string());
    let e = run(&Config::from_env(&v).unwrap()).unwrap_err();
    assert!(e.starts_with("XIAOAI_STREAM_TOKEN must be"), "{e}");
}

#[test]
fn the_token_is_in_the_url_and_the_mount_but_not_in_the_log() {
    let mut v = variables();
    v.stream_token = Some("s3cret".to_string());
    let ready = run(&Config::from_env(&v).unwrap()).unwrap();
    assert_eq!(ready.api_key, "key");
    assert_eq!(ready.base_url, "http://192.168.1.20:3000/s3cret");
    assert_eq!(ready.mount.as_deref(), Some("/s3cret"));
    assert_eq!(ready.logged_url, "http://192.168.1.20:3000/<token>");
}

#[test]
fn without_a_token_the_audio_paths_are_at_the_root() {
    assert_eq!(audio_app(None, "/random"), Some("/random"));
}

#[test]
fn with_a_token_every_audio_path_needs_it() {
    let secret = "s3cret-token";
    for unauthorised in ["/random", "/netease/186016", "/.*", "/wrong-token/random", "/s3cret-tokenX/random"] {
        assert_eq!(audio_app(Some(secret), unauthorised), None, "{unauthorised}");
    }
    assert_eq!(audio_app(Some(secret), "/s3cret-token/random"), Some("/random"));
}
