use aes::cipher::{block_padding::Pkcs7, BlockDecryptMut as _, KeyIvInit as _};
use base64::{engine::general_purpose::STANDARD as BASE64, Engine as _};
use num_bigint::BigUint;
use xiaoai_llm::json::Json;
use xiaoai_llm::netease::api::login::{
    create, poll, qr_url, unikey_payload, wait, PendingLogin, QrStatus, POLL_INTERVAL, POLL_TIMEOUT,
};
use xiaoai_llm::netease::api::search::{
    check_kind, search_raw, search_songs, search_songs_full, Album, Artist, SearchType,
    SongSearchResponse, SongSearchResult,
};
use xiaoai_llm::netease::api::url::{check_ids, payload, song_url, SongUrlInfo, SongUrlResponse};
use xiaoai_llm::netease::client::{ensure_ok, read_reply};
use xiaoai_llm::netease::crypto::{
    encrypt, encrypt_with_secret, random_secret, rsa_encrypt, IV, PRESET_KEY, RSA_EXPONENT_HEX,
    RSA_MODULUS_HEX, SECRET_LEN,
};
use xiaoai_llm::netease::stream::{check_url, request_audio, stream_audio, AudioStream};
use xiaoai_llm::netease::{Client, Level, NeteaseErr, SearchQuery, Session, Song, SongUrlErr};

const SECRET: &[u8; 16] = b"0123456789abcdef";

fn aes_cbc_decrypt(base64: &str, key: &[u8]) -> Vec<u8> {
    let bytes = BASE64.decode(base64).unwrap();
    cbc::Decryptor::<aes::Aes128>::new_from_slices(key, IV.as_bytes())
        .unwrap()
        .decrypt_padded_vec_mut::<Pkcs7>(&bytes)
        .unwrap()
}

#[test]
fn both_aes_passes_round_trip() {
    let payload = r#"{"csrf_token":"","s":"晴天","type":"1"}"#;
    let req = encrypt_with_secret(payload, SECRET);
    let inner = aes_cbc_decrypt(&req.params, SECRET);
    let inner = String::from_utf8(inner).expect("inner layer is base64 text");
    let plain = aes_cbc_decrypt(&inner, PRESET_KEY.as_bytes());
    assert_eq!(String::from_utf8(plain).unwrap(), payload);
}

#[test]
fn fixed_secret_gives_a_fixed_request() {
    let a = encrypt_with_secret("{}", SECRET);
    let b = encrypt_with_secret("{}", SECRET);
    assert_eq!(a, b);
}

#[test]
fn payload_and_secret_are_independent_inputs() {
    let a = encrypt_with_secret("{}", SECRET);
    let b = encrypt_with_secret(r#"{"a":1}"#, SECRET);
    assert_eq!(a.enc_sec_key, b.enc_sec_key);
    assert_ne!(a.params, b.params);

    let c = encrypt_with_secret("{}", b"fedcba9876543210");
    assert_ne!(a.enc_sec_key, c.enc_sec_key);
    assert_ne!(a.params, c.params);
}

#[test]
fn enc_sec_key_is_128_bytes_of_lowercase_hex() {
    let req = encrypt_with_secret("{}", SECRET);
    assert_eq!(req.enc_sec_key.len(), 256);
    assert!(req
        .enc_sec_key
        .bytes()
        .all(|b| b.is_ascii_digit() || (b'a'..=b'f').contains(&b)));
    assert_eq!(
        req.enc_sec_key,
        "35701388baf89fed412e11269b9c76625d095ecaf17f03fa018abe19ea2d38b949debf242ee39a71ca1f6cda71b1b86a45aa909ee27f7e78e267d34e732f0de948206c3340a788d0003372183e2f753c1f78b66ac23d134ac1fc9b993156520ea826b8aa89a962d4491b4b8d7e08738e1da9b07aa39bf4a7ef0b1c210728cd52"
    );
}

#[test]
fn rsa_matches_a_manual_modpow_of_the_reversed_secret() {
    let n = BigUint::parse_bytes(RSA_MODULUS_HEX.as_bytes(), 16).unwrap();
    let e = BigUint::parse_bytes(RSA_EXPONENT_HEX.as_bytes(), 16).unwrap();
    let reversed: Vec<u8> = SECRET.iter().rev().copied().collect();
    let expected = BigUint::from_bytes_be(&reversed).modpow(&e, &n);
    let got = BigUint::parse_bytes(rsa_encrypt(SECRET).as_bytes(), 16).unwrap();
    assert_eq!(got, expected);
}

#[test]
fn a_small_result_keeps_its_leading_zeros() {
    assert_eq!(rsa_encrypt(&[0u8; 16]), "0".repeat(256));
    assert_eq!(rsa_encrypt(&[1]), format!("{}1", "0".repeat(255)));
}

#[test]
fn random_secrets_are_base62_and_do_not_repeat() {
    let a = random_secret();
    assert_eq!(a.len(), SECRET_LEN);
    assert!(a.iter().all(|b| b.is_ascii_alphanumeric()));
    assert_ne!(a, random_secret());
    assert_ne!(encrypt("{}"), encrypt("{}"));
}

// ------------------------------------------------------------ client, session

fn json(text: &str) -> Json {
    Json::parse(text).unwrap()
}

#[test]
fn posts_the_two_weapi_form_fields() {
    let client = Client::with_base_url("http://127.0.0.1:1");
    let post = client.post_weapi("echo", &json(r#"{"s":"晴天"}"#));
    assert_eq!(post.url, "http://127.0.0.1:1/weapi/echo");
    assert!(!post.form.params.is_empty());
    assert_eq!(post.form.enc_sec_key.len(), 256);
}

#[test]
fn path_and_base_url_slashes_are_normalised() {
    let client = Client::with_base_url("http://127.0.0.1:1/");
    assert_eq!(client.base_url(), "http://127.0.0.1:1");
    assert_eq!(client.post_weapi("/echo", &Json::empty()).url, "http://127.0.0.1:1/weapi/echo");
    assert_eq!(Client::new().base_url(), "https://music.163.com");
}

#[test]
fn ensure_ok_reports_the_code_and_message() {
    ensure_ok(&json(r#"{"code":200}"#)).unwrap();
    ensure_ok(&json(r#"{"result":{}}"#)).unwrap();

    let err = ensure_ok(&json(r#"{"code":301,"msg":"需要登录"}"#)).unwrap_err();
    assert!(matches!(err, NeteaseErr::Api { code: 301, .. }));
    assert_eq!(err.message(), "netease returned code 301: 需要登录");
    let err = ensure_ok(&json(r#"{"code":-1,"message":7,"msg":"x"}"#)).unwrap_err();
    assert_eq!(err.message(), "netease returned code -1");
}

#[test]
fn a_body_that_is_no_document_is_a_decoding_error() {
    assert_eq!(read_reply(r#"{"code":200}"#).unwrap().render(), r#"{"code":200}"#);
    let err = read_reply("<html>").unwrap_err();
    assert!(err.message().starts_with("could not decode response: "), "{}", err.message());
}

fn headers(list: &[&str]) -> Vec<String> {
    list.iter().map(|s| s.to_string()).collect()
}

#[test]
fn parses_both_cookies_out_of_set_cookie_headers() {
    let session = Session::from_headers(&headers(&[
        "MUSIC_U=abc123; Path=/; Max-Age=1296000; HTTPOnly",
        "__csrf=deadbeef; Path=/",
        "NMTID=irrelevant",
    ]))
    .unwrap();
    assert_eq!(session.music_u, "abc123");
    assert_eq!(session.csrf, "deadbeef");
    let session = Session::from_headers(&headers(&["nothing", " MUSIC_U = a=b ;x", "MUSIC_U=last"]));
    assert_eq!(session.unwrap().music_u, "last");
    let session = Session::from_headers(&headers(&[" MUSIC_U = a=b ;x"])).unwrap();
    assert_eq!((session.music_u.as_str(), session.csrf.as_str()), ("a=b", ""));
}

#[test]
fn no_music_u_means_no_session() {
    assert!(Session::from_headers(&headers(&["__csrf=x; Path=/"])).is_none());
}

#[test]
fn attaches_cookies_to_a_client_jar() {
    let session = Session::new("tok", "cs");
    let (client, cookies) = session.client_with_base_url("http://127.0.0.1:1").unwrap();
    assert_eq!(client.base_url(), "http://127.0.0.1:1");
    let jar = reqwest::cookie::Jar::default();
    let url = "http://127.0.0.1:1".parse().unwrap();
    for cookie in &cookies {
        jar.add_cookie_str(cookie, &url);
    }
    let held = reqwest::cookie::CookieStore::cookies(&jar, &url).unwrap();
    let held = held.to_str().unwrap();
    assert!(held.contains("MUSIC_U=tok"), "{held}");
    assert!(held.contains("__csrf=cs"), "{held}");
    assert_eq!(
        cookies,
        ["MUSIC_U=tok; Path=/", "__csrf=cs; Path=/", "os=pc; Path=/"]
    );
    assert_eq!(session.cookie_header(), "MUSIC_U=tok; __csrf=cs");
    let (client, same) = session.client().unwrap();
    assert_eq!((client.base_url(), &same), ("https://music.163.com", &cookies));
    assert_eq!(Session::from_headers(&cookies), Some(session));
}

#[test]
fn a_base_url_that_is_none_is_refused() {
    let session = Session::new("tok", "cs");
    let refused = NeteaseErr::BadRequest(
        "invalid base url \"no url\": relative URL without a base".to_string(),
    );
    assert_eq!(session.attach("no url"), Err(refused.clone()));
    assert_eq!(session.client_with_base_url("no url"), Err(refused));
    assert!(session.attach("http://127.0.0.1:1/").is_ok());
}

#[test]
fn what_was_not_said_defaults_to_nothing() {
    let response = SongSearchResponse::default();
    assert_eq!((response.code, response.result), (0, None));
    assert_eq!(search_songs_full(SongSearchResponse::default()), SongSearchResult::default());
    assert_eq!(Song::default().artists, Vec::<Artist>::new());
    assert_eq!((Artist::default().id, Album::default().pic_url), (0, None));
    let info = SongUrlInfo { id: 3, free_trial_info: Some(Json::Int(1)), ..SongUrlInfo::default() };
    assert_eq!(info.clone(), info);
    assert_ne!(info, SongUrlInfo::default());
    assert_eq!(SongUrlResponse::default().data, Vec::new());
}

#[test]
fn a_missing_session_file_is_no_session() {
    let io = |not_found| NeteaseErr::Io { not_found, message: "x".to_string() };
    assert_eq!(Session::load_opt(Err(io(true))), Ok(None));
    assert_eq!(Session::load_opt(Err(io(false))), Err(io(false)));
    let session = Session::new("a", "b");
    assert_eq!(Session::load_opt(Ok(session.clone())), Ok(Some(session)));
    assert_eq!(io(true).message(), "session io failed: x");
}

// ------------------------------------------------------------ login

#[test]
fn qr_url_points_at_the_real_origin() {
    assert_eq!(qr_url("abc"), "https://music.163.com/login?codekey=abc");
    assert_eq!(PendingLogin::from_unikey("abc").qr_url(), qr_url("abc"));
}

fn code(n: i64) -> String {
    format!("{{\"code\":{n}}}")
}

#[test]
fn walks_801_802_803_and_captures_the_cookies() {
    let pending = create(&json(r#"{"code":200,"unikey":"UNIKEY-1"}"#)).unwrap();
    assert_eq!(pending.unikey(), "UNIKEY-1");
    assert_eq!(unikey_payload().render(), r#"{"type":3}"#);
    assert_eq!(pending.poll_payload().render(), r#"{"key":"UNIKEY-1","type":3}"#);

    assert_eq!(poll(&code(801), &vec![]).unwrap(), QrStatus::WaitingForScan);
    let scanned = poll(&code(802), &vec![]).unwrap();
    assert_eq!(scanned, QrStatus::WaitingForConfirmation);
    assert!(!scanned.is_final());

    let status = poll(
        &code(803),
        &headers(&["MUSIC_U=session-token; Path=/", "__csrf=csrf-token; Path=/"]),
    )
    .unwrap();
    assert_eq!(status.code(), 803);
    assert!(status.is_final());
    let QrStatus::Authorized(session) = status else {
        unreachable!()
    };
    assert_eq!(session.music_u, "session-token");
    assert_eq!(session.csrf, "csrf-token");
}

#[test]
fn expired_code_is_a_state_not_an_error() {
    let status = poll(&code(800), &vec![]).unwrap();
    assert_eq!(status, QrStatus::Expired);
    assert_eq!(status.code(), 800);
    let err = wait(status, 0, 0, POLL_TIMEOUT, POLL_TIMEOUT).unwrap_err();
    assert!(matches!(err, NeteaseErr::Api { code: 800, .. }));
}

#[test]
fn wait_loops_until_authorised() {
    for status in [QrStatus::WaitingForScan, QrStatus::WaitingForConfirmation] {
        assert_eq!(wait(status, 1, POLL_INTERVAL, POLL_TIMEOUT, POLL_TIMEOUT), Ok(None));
    }
    let session = Session::new("session-token", "");
    assert_eq!(
        wait(QrStatus::Authorized(session.clone()), u64::MAX, u64::MAX, 0, 0),
        Ok(Some(session))
    );
}

#[test]
fn wait_gives_up_after_the_timeout() {
    let err = wait(QrStatus::WaitingForScan, 15, 5, 20, 20).unwrap_err();
    assert_eq!(
        err,
        NeteaseErr::Api {
            code: 800,
            message: Some("gave up waiting for the qr scan after 20ms".to_string()),
        }
    );
    assert_eq!(wait(QrStatus::WaitingForScan, 14, 5, 20, 20), Ok(None));
}

#[test]
fn unknown_code_is_an_api_error() {
    let err = poll(&code(400), &vec![]).unwrap_err();
    assert!(matches!(err, NeteaseErr::Api { code: 400, .. }));
    assert_eq!(
        poll("{}", &vec![]).unwrap_err().message(),
        "bad request: no code in poll response: {}"
    );
    assert_eq!(
        poll(&code(803), &vec![]).unwrap_err().message(),
        "bad request: login authorised (803) but the response carried no MUSIC_U cookie"
    );
    assert!(matches!(poll("<html>", &vec![]), Err(NeteaseErr::Decode(_))));
    assert_eq!(
        create(&json(r#"{"code":200}"#)).unwrap_err().message(),
        r#"bad request: no unikey in response: {"code":200}"#
    );
    assert!(create(&json(r#"{"code":400,"unikey":"x"}"#)).is_err());
}

// ------------------------------------------------------------ search

#[test]
fn payload_matches_the_web_player() {
    let query = SearchQuery::new("晴天").limit(5).offset(10);
    assert_eq!(
        query.payload().render(),
        r#"{"limit":5,"offset":10,"s":"晴天","total":true,"type":1}"#
    );
    let artists = SearchQuery::new("x").kind(SearchType::Artist);
    assert_eq!(artists.payload().get("type").unwrap().as_i64(), Some(100));
}

fn song(names: &[&str]) -> Song {
    Song {
        id: 186016,
        name: "晴天".to_string(),
        artists: names.iter().map(|n| Artist { id: 1, name: n.to_string() }).collect(),
        album: None,
        duration_ms: 269146,
        pst: 0,
    }
}

#[test]
fn artists_are_joined_in_billing_order() {
    assert_eq!(song(&["甲", "乙"]).artist_names(), "甲 / 乙");
    assert_eq!(song(&[]).artist_names(), "");
    assert_eq!(song(&[]).duration(), 269146);
}

#[test]
fn no_match_is_an_empty_list_not_an_error() {
    let none = SongSearchResponse { code: 200, result: None };
    assert!(search_songs(none.clone()).is_empty());
    assert_eq!(search_songs_full(none).song_count, 0);
    let some = SongSearchResponse {
        code: 200,
        result: Some(SongSearchResult { songs: vec![song(&["甲"])], song_count: 2 }),
    };
    assert_eq!(search_songs_full(some.clone()).song_count, 2);
    assert_eq!(search_songs(some).len(), 1);
}

#[test]
fn non_200_code_is_an_api_error() {
    let err = search_raw(json(r#"{"code":301,"msg":"需要登录"}"#)).unwrap_err();
    assert!(matches!(err, NeteaseErr::Api { code: 301, .. }));
    assert!(search_raw(json(r#"{"code":200}"#)).is_ok());
}

#[test]
fn typed_helper_refuses_non_song_types() {
    let err = check_kind(&SearchQuery::new("x").kind(SearchType::Playlist)).unwrap_err();
    assert_eq!(
        err,
        NeteaseErr::BadRequest(
            "search type Playlist does not return songs; use search_raw".to_string()
        )
    );
    assert!(check_kind(&SearchQuery::new("x")).is_ok());
    assert!(check_kind(&SearchQuery::new("x").kind(SearchType::Lyrics)).is_ok());
    assert_eq!(SearchType::default(), SearchType::Song);
    assert_eq!(SearchType::Comprehensive.code(), 1018);
}

// ------------------------------------------------------------ url

#[test]
fn ids_are_a_stringified_array() {
    let body = payload(&vec![33894312], Level::Exhigh);
    assert_eq!(body.text_of("ids"), Some("[33894312]"));
    assert_eq!(body.text_of("level"), Some("exhigh"));
    assert_eq!(body.text_of("encodeType"), Some("flac"));
    assert!(body.get("immerseType").is_none());

    assert_eq!(payload(&vec![1, 2, 3], Level::Standard).text_of("ids"), Some("[1,2,3]"));
    assert_eq!(Level::default(), Level::Exhigh);
}

#[test]
fn sky_carries_immerse_type() {
    assert_eq!(payload(&vec![1], Level::Sky).text_of("immerseType"), Some("c51"));
    assert!(payload(&vec![1], Level::Jymaster).get("immerseType").is_none());
}

fn info(id: u64, url: Option<&str>, fee: i64, trial: Option<Json>) -> SongUrlInfo {
    SongUrlInfo {
        id,
        url: url.map(|u| u.to_string()),
        br: 320000,
        size: 1,
        md5: None,
        format: Some("mp3".to_string()),
        expi: 1200,
        fee,
        level: None,
        free_trial_info: trial,
    }
}

#[test]
fn resolves_a_playable_song() {
    let data = vec![info(7, None, 0, None), info(33894312, Some("http://cdn/a.mp3"), 0, None)];
    let found = song_url(data, 33894312).unwrap();
    assert_eq!(found.playable().unwrap(), "http://cdn/a.mp3");
    assert_eq!(found.ttl(), 1200);
    assert!(found.is_available());
}

#[test]
fn vip_gated_song_is_a_typed_error() {
    let gated = info(1824045033, None, 1, Some(json(r#"{"start":0,"end":30}"#)));
    assert!(!gated.is_available());
    assert!(gated.has_free_trial());
    let err = song_url(vec![gated], 1824045033).unwrap_err();
    assert_eq!(err, SongUrlErr::Unavailable { id: 1824045033, fee: 1, free_trial: true });
    assert_eq!(
        err.message(),
        "song 1824045033 is not streamable (fee=1, preview_only=true)"
    );
    assert!(!info(1, Some(""), 0, Some(Json::Null)).is_available());
    assert!(!info(1, Some(""), 0, Some(Json::Null)).has_free_trial());
}

#[test]
fn missing_entry_is_not_found() {
    let err = song_url(vec![], 7).unwrap_err();
    assert_eq!(err, SongUrlErr::NotFound { id: 7 });
    assert_eq!(err.message(), "netease returned no url entry for song 7");
    let inner = NeteaseErr::Http("x".to_string());
    assert_eq!(SongUrlErr::Netease(inner).message(), "http request failed: x");
}

#[test]
fn empty_id_list_is_rejected_before_sending() {
    assert_eq!(
        check_ids(&vec![]).unwrap_err(),
        NeteaseErr::BadRequest("no song ids given".to_string())
    );
    assert!(check_ids(&vec![1]).is_ok());
}

// ------------------------------------------------------------ stream

fn head(status: u16) -> AudioStream {
    AudioStream {
        status,
        content_type: Some("audio/mpeg".to_string()),
        content_length: Some(100),
        content_range: Some("bytes */8192".to_string()),
        accept_ranges: Some("bytes".to_string()),
    }
}

#[test]
fn range_is_forwarded_and_206_propagated() {
    let request = request_audio("http://cdn/song.mp3", Some("bytes=100-199")).unwrap();
    assert_eq!(request.url, "http://cdn/song.mp3");
    assert_eq!(request.range.as_deref(), Some("bytes=100-199"));
    let stream = stream_audio(head(206), "u").unwrap();
    assert_eq!(stream.status, 206);
    assert!(stream.is_partial());
    assert_eq!(stream.content_length, Some(100));
    assert!(!stream_audio(head(200), "u").unwrap().is_partial());
}

#[test]
fn forbidden_maps_to_expired_url() {
    for status in [403, 404] {
        let err = stream_audio(head(status), "http://cdn/expired").unwrap_err();
        assert!(err.message().contains("expired"), "{}", err.message());
        assert_eq!(
            err,
            NeteaseErr::UrlExpired { status, url: "http://cdn/expired".to_string() }
        );
    }
}

#[test]
fn other_failures_are_not_reported_as_expiry() {
    assert_eq!(
        stream_audio(head(500), "http://cdn/boom").unwrap_err(),
        NeteaseErr::BadRequest(
            "cdn answered 500 Internal Server Error for http://cdn/boom".to_string()
        )
    );
}

#[test]
fn range_not_satisfiable_is_relayed_not_an_error() {
    let audio = stream_audio(head(416), "u").unwrap();
    assert_eq!(audio.status, 416);
    assert_eq!(audio.content_range.as_deref(), Some("bytes */8192"));
}

#[test]
fn empty_url_is_rejected_before_any_request() {
    assert!(matches!(check_url("   "), Err(NeteaseErr::BadRequest(_))));
    assert!(check_url("http://x").is_ok());
    assert!(matches!(request_audio("   ", None), Err(NeteaseErr::BadRequest(_))));
    assert_eq!(request_audio("u", None).unwrap().range, None);
}
