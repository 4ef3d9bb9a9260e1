use xiaoai_llm::json::Json;
use xiaoai_llm::mi_api;
use xiaoai_llm::xiaoai::account::{
    client_sign, device_id, find_cookie, password_hash, FirstStep,
};
use xiaoai_llm::xiaoai::op::{OpPayloadBuilder, XiaoaiStatus};
use xiaoai_llm::xiaoai::redact::{redact, snippet};
use xiaoai_llm::xiaoai::serde_util::{from_string, strip_start, strip_start_hook};
use xiaoai_llm::xiaoai::sid::Sid;
use xiaoai_llm::xiaoai::verification::{
    cookie, credentials, delivery, device_cookie, entered_ticket, sdk_cookie, skip_url, Hops,
    IdentityListResponse, Resumed, Verification, VerifyTicketResponse,
};
use xiaoai_llm::xiaoai::{
    absolute_url, device_by_alias, login_flow, refresh, refreshed, try_login, AuthData, Device,
    DeviceListPayload, DeviceListResponse, Data, Grant, LastAskPayload, LastAskResponse, LoginFlow,
    LoginPayload, LoginPayload2, LoginResponse, LoginResponse2, Record, XiaoaiErr,
};

#[test]
fn credentials_never_survive_redaction() {
    let body = r#"{"userId":123,"passToken":"V1:secret-pass","ssecurity":"s3cur1ty","location":"https://example.com/x"}"#;
    let out = snippet(body);
    assert!(!out.contains("secret-pass"), "{out}");
    assert!(!out.contains("s3cur1ty"), "{out}");
    assert!(out.contains("userId"), "{out}");
    assert!(out.contains("https://example.com/x"), "{out}");

    let cookie = "passToken=V1:abc; serviceToken=xyz; Path=/";
    let out = redact(cookie);
    assert!(!out.contains("V1:abc") && !out.contains("xyz"), "{out}");

    let broken = r#"{"passToken":"leaked-anyway", "#;
    assert!(!redact(broken).contains("leaked-anyway"));

    let unicode = r#"{"desc":"验证码已发送","passToken":"tok"}"#;
    let out = redact(unicode);
    assert!(!out.contains("\"tok\""), "{out}");
    assert!(out.contains("验证码已发送"), "{out}");
}

#[test]
fn redaction_keeps_everything_else() {
    assert_eq!(
        redact("passToken=V1:abc; serviceToken=xyz; Path=/"),
        "passToken=<redacted>; serviceToken=<redacted>; Path=/"
    );
    assert_eq!(redact("no passToken, sorry"), "no passToken, sorry");
    assert_eq!(redact("cUserIdpassToken=abc"), "cUserId<redacted>");
    assert_eq!(redact(&redact("cUserId: x}")), "cUserId: <redacted>}");
    assert_eq!(snippet(&"字".repeat(400)).chars().count(), 300);
}

#[test]
fn a_quoted_value_is_replaced_up_to_its_closing_quote() {
    assert_eq!(redact(r#"{"passToken":"ab,cd"}"#), r#"{"passToken":"<redacted>"}"#);
    assert_eq!(
        redact(r#"{"ssecurity": "a;b}c", "userId":1}"#),
        r#"{"ssecurity": "<redacted>", "userId":1}"#
    );
    assert_eq!(redact(r#"{"passToken":"a\"b","x":1}"#), r#"{"passToken":"<redacted>","x":1}"#);
    assert_eq!(redact(r#"{"passToken":" =ab"}"#), r#"{"passToken":"<redacted>"}"#);
    assert_eq!(redact("\"passToken\":\"ab,cd\nnext"), "\"passToken\":\"<redacted>\nnext");
    assert_eq!(
        redact(r#"{"passToken":"","userId":"1"}"#),
        r#"{"passToken":"","userId":"1"}"#
    );
    assert_eq!(redact(r#"passToken=""abc""#), r#"passToken=""<redacted>""#);
    assert_eq!(redact(r#"serviceToken="a;b"; Path=/"#), r#"serviceToken="<redacted>"; Path=/"#);
    assert_eq!(redact(r#"{"passToken":null,"x":1}"#), r#"{"passToken":<redacted>,"x":1}"#);
}

#[test]
fn a_value_inside_a_quoted_document_is_replaced() {
    let nested = r#"{"data":"{\"passToken\":\"abc\",\"userId\":1}","code":0}"#;
    assert_eq!(
        redact(nested),
        r#"{"data":"{\"passToken\":\"<redacted>\",\"userId\":1}","code":0}"#
    );
    assert_eq!(
        redact(r#"{"cookie":"passToken=\"abc\"; x"}"#),
        r#"{"cookie":"passToken=\"<redacted>\"; x"}"#
    );
    let twice = r#"{"a":"{\"b\":\"{\\\"passToken\\\":\\\"abc\\\",\\\"c\\\":1}\"}"}"#;
    assert_eq!(
        redact(twice),
        r#"{"a":"{\"b\":\"{\\\"passToken\\\":\\\"<redacted>\\\",\\\"c\\\":1}\"}"}"#
    );
    // A quote and a backslash of the value's own do not end it.
    assert_eq!(
        redact(r#"{"a":"{\"ssecurity\":\"x\\\"y\\\\\",\"c\":1}"}"#),
        r#"{"a":"{\"ssecurity\":\"<redacted>\",\"c\":1}"}"#
    );
    // The text around ends before the value does.
    assert_eq!(
        redact(r#"{"a":"passToken=\"abc","userId":1}"#),
        r#"{"a":"passToken=\"<redacted>","userId":1}"#
    );
    let empty = r#"{"data":"{\"passToken\":\"\",\"userId\":\"1\"}"}"#;
    assert_eq!(redact(empty), empty);
}

#[test]
fn redacting_twice_is_redacting_once() {
    for text in [
        r#"{"passToken":"abc","x":1}"#,
        r#"{"data":"{\"passToken\":\"abc\"}"}"#,
        "cUserIdpassToken=abc; serviceToken=",
        "nothing to hide: userId=1",
    ] {
        assert_eq!(redact(&redact(text)), redact(text), "{text}");
    }
    assert_eq!(redact("nothing to hide: userId=1"), "nothing to hide: userId=1");
}

#[test]
fn the_sentinel_is_stripped() {
    assert_eq!(strip_start("&&&START&&&{}"), "{}");
    assert_eq!(strip_start("{}"), "{}");
    assert_eq!(strip_start_hook("&&&START&&&{}".to_string()), Ok("{}".to_string()));
    assert_eq!(strip_start_hook("{}".to_string()), Err("{}".to_string()));
    let inner = from_string(&Json::string(r#"{"status":1}"#)).unwrap();
    assert_eq!(inner.get("status").unwrap().as_i64(), Some(1));
    assert!(from_string(&Json::string("{")).is_none());
    assert!(from_string(&Json::Null).is_none());
}

#[test]
fn digests_match_known_values() {
    assert_eq!(password_hash("secret"), "5EBE2294ECD0E0F08EAB7690D2A6EE69");
    assert_eq!(password_hash(""), "D41D8CD98F00B204E9800998ECF8427E");
    assert_eq!(client_sign(1, "a"), "etRGOgiy0jcLOvosgBImjocY5kA=");
}

#[test]
fn a_device_id_is_sixteen_bytes_in_upper_case() {
    assert_eq!(
        device_id(Some("abcdef0123456789".to_string())),
        Some("ABCDEF0123456789".to_string())
    );
    assert_eq!(device_id(Some("short".to_string())), None);
    let random = device_id(None).unwrap();
    assert_eq!(random.len(), 16);
    assert!(random.chars().all(|c| c.is_ascii_uppercase() || c.is_ascii_digit()));
}

fn first(user_id: Option<i64>) -> LoginResponse {
    LoginResponse {
        user_id,
        pass_token: None,
        location: Some("https://sts.example.com/sts".to_string()),
        nonce: Some(1),
        ssecurity: Some("a".to_string()),
        payload2: Some(LoginPayload2 {
            json: false,
            qs: "qs".to_string(),
            sid: "micoapi".to_string(),
            sign: "sign".to_string(),
            callback: "cb".to_string(),
            user: String::new(),
            hash: String::new(),
        }),
    }
}

fn second() -> LoginResponse2 {
    LoginResponse2 {
        user_id: Some(5),
        pass_token: Some("pt".to_string()),
        location: Some("https://sts.example.com/sts".to_string()),
        nonce: Some(1),
        ssecurity: Some("a".to_string()),
        code: Some(70016),
        desc: None,
        description: Some("登录\"失败\"".to_string()),
        notification_url: None,
        captcha_url: None,
        extra: vec![("k".to_string(), Json::Int(1))],
    }
}

fn auth() -> AuthData {
    AuthData {
        user_id: 5,
        device_id: "D".to_string(),
        ssecurity: "a".to_string(),
        service_token: "st".to_string(),
        pass_token: "old".to_string(),
    }
}

fn cookies(pairs: &[(&str, &str)]) -> Vec<(String, String)> {
    pairs.iter().map(|(k, v)| (k.to_string(), v.to_string())).collect()
}

#[test]
fn a_known_session_is_traded_at_once() {
    let step = try_login(first(Some(5)), "user", "secret").unwrap();
    let grant = match step {
        FirstStep::Trade(grant) => grant,
        other => panic!("{other:?}"),
    };
    assert_eq!(
        grant.url().unwrap(),
        "https://sts.example.com/sts?clientSign=etRGOgiy0jcLOvosgBImjocY5kA%3D"
    );
    let jar = cookies(&[("x", "1"), ("serviceToken", "st"), ("serviceToken", "later")]);
    assert_eq!(find_cookie(&jar, "x"), Some("1".to_string()));
    let data = grant.into_auth_data(&jar, "DEV").unwrap();
    assert_eq!(
        data,
        AuthData {
            user_id: 5,
            device_id: "DEV".to_string(),
            ssecurity: "a".to_string(),
            service_token: "st".to_string(),
            pass_token: String::new(),
        }
    );
}

#[test]
fn what_a_reply_lacks_is_named() {
    for (cut, words) in [
        (0, "location not found in resp"),
        (1, "nonce not found in resp"),
        (2, "ssecurity not found in resp"),
    ] {
        let mut resp = first(Some(5));
        match cut {
            0 => resp.location = None,
            1 => resp.nonce = None,
            _ => resp.ssecurity = None,
        }
        assert_eq!(
            try_login(resp, "u", "p").unwrap_err(),
            XiaoaiErr::Auth(words.to_string())
        );
    }
    let mut resp = first(None);
    resp.payload2 = None;
    assert_eq!(
        try_login(resp, "u", "p").unwrap_err().message(),
        "Login failed: payload2 not found in resp"
    );
    let mut grant = match try_login(first(Some(5)), "u", "p").unwrap() {
        FirstStep::Trade(grant) => grant,
        other => panic!("{other:?}"),
    };
    assert_eq!(
        grant.clone().into_auth_data(&vec![], "D").unwrap_err(),
        XiaoaiErr::Auth("serviceToken not found in cookies".to_string())
    );
    grant.location = "not a url".to_string();
    assert!(grant.url().is_err());
}

#[test]
fn the_password_goes_out_as_a_digest() {
    match try_login(first(None), "user", "secret").unwrap() {
        FirstStep::Password(payload) => {
            assert!(payload.json);
            assert_eq!(payload.user, "user");
            assert_eq!(payload.hash, "5EBE2294ECD0E0F08EAB7690D2A6EE69");
            assert_eq!(payload.qs, "qs");
            assert_eq!(payload.sign, "sign");
        }
        other => panic!("{other:?}"),
    }
    let payload = LoginPayload::new("DEV");
    assert_eq!(payload.sid.name(), "micoapi");
    assert_eq!(Sid::default().name(), "micoapi");
    assert_eq!(Sid::Xiaomiio.name(), "xiaomiio");
}

#[test]
fn the_second_reply_grants_or_says_what_is_in_the_way() {
    match login_flow(second()).unwrap() {
        LoginFlow::Trade(grant) => assert_eq!(grant.pass_token.as_deref(), Some("pt")),
        other => panic!("{other:?}"),
    }
    let mut resp = second();
    resp.notification_url = Some("/fe/x".to_string());
    match login_flow(resp).unwrap() {
        LoginFlow::NeedVerification(url) => assert_eq!(url, "https://account.xiaomi.com/fe/x"),
        other => panic!("{other:?}"),
    }
    let mut resp = second();
    resp.captcha_url = Some("http://c".to_string());
    assert_eq!(
        login_flow(resp).unwrap_err(),
        XiaoaiErr::Auth("Xiaomi requires a captcha:\nhttp://c".to_string())
    );
    let mut resp = second();
    resp.nonce = None;
    assert_eq!(
        login_flow(resp).unwrap_err(),
        XiaoaiErr::Auth(
            "login rejected: code=Some(70016), desc=Some(\"登录\\\"失败\\\"\"), extra={\"k\": Number(1)}"
                .to_string()
        )
    );
    let mut resp = second();
    resp.notification_url = Some("http://v".to_string());
    assert!(resp.into_auth_data().unwrap_err().message().ends_with(":\nhttp://v"));
}

#[test]
fn a_refresh_keeps_the_token_it_has() {
    let payload = refresh(&auth()).unwrap();
    assert_eq!(payload.pass_token, "old");
    assert_eq!(payload.user_id, 5);
    let mut none = auth();
    none.pass_token = String::new();
    assert_eq!(
        refresh(&none).unwrap_err(),
        XiaoaiErr::Auth("no cached passToken; do a full login".to_string())
    );
    assert_eq!(refreshed(&auth(), first(Some(5))).unwrap().pass_token.as_deref(), Some("old"));
    let mut renewed = first(Some(5));
    renewed.pass_token = Some("new".to_string());
    assert_eq!(refreshed(&auth(), renewed).unwrap().pass_token.as_deref(), Some("new"));
    assert_eq!(
        refreshed(&auth(), first(None)).unwrap_err(),
        XiaoaiErr::Auth("passToken expired or rejected; do a full login".to_string())
    );
}

fn verification(url: &str) -> Verification {
    let payload = LoginPayload2 {
        json: true,
        qs: String::new(),
        sid: "micoapi".to_string(),
        sign: String::new(),
        callback: String::new(),
        user: "user".to_string(),
        hash: "HASH".to_string(),
    };
    Verification::start(url.to_string(), &payload)
}

fn listed(flag: Option<i64>, options: Option<Vec<i64>>) -> Option<IdentityListResponse> {
    Some(IdentityListResponse { flag, options })
}

fn ticket(code: i64, location: Option<&str>) -> Result<VerifyTicketResponse, String> {
    Ok(VerifyTicketResponse {
        code: Some(code),
        location: location.map(|l| l.to_string()),
        desc: None,
        description: Some("no".to_string()),
    })
}

#[test]
fn the_list_url_is_derived_from_the_page() {
    let v = verification("https://account.xiaomi.com/fe/service/identity/authStart?sid=x");
    assert_eq!(v.url(), "https://account.xiaomi.com/fe/service/identity/authStart?sid=x");
    assert_eq!(v.list_url(), "https://account.xiaomi.com/identity/list?sid=x");
    let v = verification("https://account.xiaomi.com/identity/authStart?sid=x");
    assert_eq!(v.list_url(), "https://account.xiaomi.com/identity/list?sid=x");
    assert_eq!(v.sid(), "micoapi");
}

#[test]
fn without_a_session_there_is_nothing_to_verify_in() {
    let mut v = verification("u");
    let e = v.fetch_options(false, "{\"passToken\":\"x\"}", None).unwrap_err();
    assert_eq!(
        e,
        XiaoaiErr::Auth(
            "identity/list did not set identity_session cookie; body: {\"passToken\":\"<redacted>\"}"
                .to_string()
        )
    );
}

#[test]
fn a_code_is_sent_by_every_method_that_works() {
    let mut v = verification("u");
    v.fetch_options(true, "", listed(None, Some(vec![1, 4, 8]))).unwrap();
    let mut sending = v.send_ticket();
    let mut apis = Vec::new();
    while let Some((api, form)) = sending.next("") {
        apis.push(api);
        assert_eq!(form, cookies(&[("retry", "false"), ("_json", "true")]));
        sending.on_reply("", ticket(0, None)).unwrap();
    }
    assert_eq!(apis, ["sendPhoneTicket", "sendEmailTicket"]);
    let sent = sending.sent().unwrap();
    assert_eq!(sent, [4, 8]);
    assert_eq!(delivery(&sent), "email");
    assert_eq!(delivery(&vec![4]), "SMS");
}

#[test]
fn a_code_that_cannot_be_sent_says_why() {
    let mut v = verification("u");
    v.fetch_options(true, "", listed(Some(8), Some(vec![]))).unwrap();
    let mut sending = v.send_ticket();
    assert_eq!(sending.next("").unwrap().0, "sendEmailTicket");
    assert_eq!(sending.on_reply("", ticket(7, None)).unwrap(), None);
    assert!(sending.next("").is_none());
    assert_eq!(
        sending.sent().unwrap_err(),
        XiaoaiErr::Auth("sendEmailTicket: code=Some(7), desc=Some(\"no\")".to_string())
    );

    let mut v = verification("u");
    v.fetch_options(true, "", None).unwrap();
    let mut sending = v.send_ticket();
    assert_eq!(sending.next("").unwrap().0, "sendPhoneTicket");
    let e = sending.on_reply("body", Err("bad".to_string())).unwrap_err();
    assert_eq!(e, XiaoaiErr::Auth("sendPhoneTicket: bad; body: body".to_string()));

    let mut v = verification("u");
    v.fetch_options(true, "", listed(Some(3), None)).unwrap();
    assert_eq!(
        v.send_ticket().sent().unwrap_err(),
        XiaoaiErr::Auth("no supported verification method".to_string())
    );
}

#[test]
fn a_code_is_submitted_until_a_method_accepts_it() {
    let mut v = verification("u");
    v.fetch_options(true, "", listed(None, Some(vec![4, 8]))).unwrap();
    let mut submitting = v.submit_ticket();
    let (api, form) = submitting.next(" 123456\n").unwrap();
    assert_eq!(api, "verifyPhone");
    assert_eq!(
        form,
        cookies(&[("_flag", "4"), ("ticket", "123456"), ("trust", "true"), ("_json", "true")])
    );
    assert_eq!(submitting.on_reply("", ticket(1, None)).unwrap(), None);
    assert_eq!(submitting.next("1").unwrap().0, "verifyEmail");
    let accepted = submitting.on_reply("", ticket(0, Some("/next"))).unwrap().unwrap();
    assert_eq!(accepted.location.as_deref(), Some("/next"));

    let mut submitting = v.submit_ticket();
    submitting.on_reply("", ticket(1, None)).unwrap();
    submitting.on_reply("", ticket(2, None)).unwrap();
    assert_eq!(
        submitting.rejected(),
        XiaoaiErr::Auth(
            "verification failed: verifyEmail rejected: code=Some(2), desc=Some(\"no\")".to_string()
        )
    );
    let mut submitting = v.submit_ticket();
    let accepted = submitting.on_reply("", ticket(0, Some(""))).unwrap().unwrap();
    assert_eq!(accepted.location, None);
}

#[test]
fn interstitial_pages_are_skipped_five_times_at_most() {
    let (url, mut hops) = Hops::follow_verified_location("/identity/result");
    assert_eq!(url, "https://account.xiaomi.com/identity/result");
    assert_eq!(hops.next("https://account.xiaomi.com/pass/x?skipUrl=%2Fy"), None);
    let page = "https://account.xiaomi.com/fe/service/a?b=1&skipUrl=%2Fnext%3Fa";
    for _ in 0..5 {
        assert_eq!(hops.next(page).as_deref(), Some("https://account.xiaomi.com/next?a"));
    }
    assert_eq!(hops.next(page), None);
    assert_eq!(skip_url(Some("/fe/service/a"), &cookies(&[("x", "y")])), None);
    assert_eq!(skip_url(None, &cookies(&[("skipUrl", "y")])), None);
    assert_eq!(Hops::follow_verified_location("x").1.next("no url"), None);
}

#[test]
fn a_verified_login_is_resumed() {
    let v = verification("u");
    match v.resume_login("{}", Ok(first(Some(5)))).unwrap() {
        Resumed::Finish(grant) => assert_eq!(grant.user_id, 5),
        other => panic!("{other:?}"),
    }
    match v.resume_login("{}", Ok(first(None))).unwrap() {
        Resumed::Password(payload) => {
            assert_eq!(payload.user, "user");
            assert_eq!(payload.hash, "HASH");
        }
        other => panic!("{other:?}"),
    }
    let mut empty = first(None);
    empty.payload2 = None;
    assert!(v
        .resume_login("BODY", Ok(empty))
        .unwrap_err()
        .message()
        .ends_with("neither a location nor sign parameters; body: BODY"));
    assert_eq!(
        v.resume_login("BODY", Err("eof".to_string())).unwrap_err(),
        XiaoaiErr::Auth("serviceLogin resume: eof; body: BODY".to_string())
    );

    assert_eq!(v.resume_password("v", "l", "t", Ok(second())).unwrap().user_id, 5);
    let mut again = second();
    again.notification_url = Some("x".to_string());
    assert_eq!(
        v.resume_password("v", "l", "t", Ok(again)).unwrap_err(),
        XiaoaiErr::Auth(
            "Xiaomi still demands verification after the code was accepted.\nverify said: v\nserviceLogin said: l\nserviceLoginAuth2 said: t"
                .to_string()
        )
    );
    let mut refused = second();
    refused.location = None;
    assert!(v
        .resume_password("v", "l", "t", Ok(refused))
        .unwrap_err()
        .message()
        .contains("login rejected"));
    assert!(v
        .resume_password("v", "l", "t", Err("eof".to_string()))
        .unwrap_err()
        .message()
        .contains("serviceLoginAuth2 retry: eof; body: t"));
}

#[test]
fn the_jar_fills_in_what_the_reply_does_not_set() {
    let grant = Grant {
        location: "https://x".to_string(),
        nonce: 1,
        ssecurity: "a".to_string(),
        user_id: 5,
        pass_token: None,
    };
    let jar = Some("a=b; serviceToken=jar; passToken=pt");
    let data = Verification::finish(grant.clone(), &vec![], jar, "D").unwrap();
    assert_eq!(data.service_token, "jar");
    assert_eq!(data.pass_token, "pt");
    let data =
        Verification::finish(grant.clone(), &cookies(&[("serviceToken", "own")]), None, "D").unwrap();
    assert_eq!(data.service_token, "own");
    assert_eq!(data.pass_token, "");
    assert_eq!(
        Verification::finish(grant, &vec![], Some("a=b"), "D").unwrap_err(),
        XiaoaiErr::Auth("serviceToken not found in cookies after verification".to_string())
    );
    assert_eq!(cookie(Some("a=1; ab=2"), "ab").as_deref(), Some("2"));
    assert_eq!(cookie(Some("a=1; ab=2"), "b"), None);
}

#[test]
fn the_dialogue_with_the_user() {
    assert_eq!(entered_ticket(" 12 \n").unwrap(), "12");
    assert_eq!(
        entered_ticket(" \n").unwrap_err(),
        XiaoaiErr::Auth("verification aborted".to_string())
    );
    assert_eq!(
        credentials(None, None).unwrap_err(),
        XiaoaiErr::Auth("ACCOUNT_ID env var not found".to_string())
    );
    assert_eq!(
        credentials(Some("u".to_string()), None).unwrap_err(),
        XiaoaiErr::Auth("ACCOUNT_PASSWORD env var not found".to_string())
    );
    assert!(credentials(Some("u".to_string()), Some("p".to_string())).is_ok());
    assert_eq!(device_cookie("D", ".mi.com"), "deviceId=D; Domain=.mi.com; Path=/");
    assert_eq!(sdk_cookie(".mi.com"), "sdkVersion=3.9; Domain=.mi.com; Path=/");
    assert_eq!(absolute_url("http://x"), "http://x");
    assert_eq!(XiaoaiErr::Op("x".to_string()).message(), "Op failed: x");
    assert_eq!(XiaoaiErr::Record("x".to_string()).message(), "Record query failed: x");
}

fn device(alias: &str, id: &str) -> Device {
    Device {
        alias: alias.to_string(),
        device_id: id.to_string(),
        hardware: "LX06".to_string(),
        others: Json::Null,
    }
}

#[test]
fn a_device_is_found_by_its_alias() {
    let list = || DeviceListResponse {
        data: vec![device("客厅", "1"), device("卧室", "2"), device("卧室", "3")],
    };
    assert_eq!(device_by_alias(Ok(list()), "卧室").unwrap().device_id, "2");
    assert_eq!(
        device_by_alias(Ok(list()), "厨房").unwrap_err(),
        XiaoaiErr::Op("Device 厨房 not found in 客厅, 卧室, 卧室".to_string())
    );
    assert_eq!(
        device_by_alias(Err("offline".to_string()), "x").unwrap_err(),
        XiaoaiErr::Op("Device list query failed: offline".to_string())
    );
    let payload = DeviceListPayload::new(&auth());
    assert_eq!((payload.user_id, payload.master), (5, 0));
    assert_eq!(payload.request_id.len(), 38);
}

#[test]
fn operations_share_one_envelope() {
    let builder = OpPayloadBuilder::default()
        .with_auth_data(auth())
        .with_device_id("dev".to_string());
    let op = builder.play();
    assert_eq!(op.user_id, 5);
    assert_eq!(op.service_token, "st");
    assert_eq!(op.device_id, "dev");
    assert_eq!(op.op.message_text(), r#"{"action":"play"}"#);
    assert_eq!(XiaoaiStatus::from_code(0), XiaoaiStatus::Idle);
    assert_eq!(XiaoaiStatus::from_code(3), XiaoaiStatus::Stopped);
    assert_eq!(XiaoaiStatus::from_code(4), XiaoaiStatus::Unknown);
}

#[test]
fn the_history_is_asked_for_and_read() {
    let payload = LastAskPayload::new(&auth(), &device("a", "d"), 1, 99);
    assert_eq!((payload.limit, payload.timestamp), (1, 99));
    assert_eq!(payload.hardware, "LX06");
    let resp = LastAskResponse {
        data: Data {
            records: vec![Record {
                answers: vec![],
                time: 9,
                query: "q".to_string(),
                request_id: String::new(),
            }],
            next_end_time: 0,
        },
    };
    assert_eq!(resp.first().unwrap().time, 9);
}

#[test]
fn a_plain_login_trades_or_sends_the_password() {
    let resp = |user_id, nonce| mi_api::account::LoginResponse {
        user_id,
        pass_token: None,
        location: Some("https://sts.example.com/sts".to_string()),
        nonce,
        ssecurity: Some("a".to_string()),
        payload2: None,
    };
    match mi_api::login(resp(Some(5), Some(1)), "u", "p") {
        mi_api::account::Next::Trade(exchange) => {
            assert!(exchange.url().unwrap().ends_with("clientSign=etRGOgiy0jcLOvosgBImjocY5kA%3D"));
            let data = exchange.complete(&cookies(&[("serviceToken", "t")]), 5, "D").unwrap();
            assert_eq!(data.divice_id, "D");
            let payload = mi_api::device::DeviceListPayload::new(&data);
            assert_eq!(payload.service_token, "t");
        }
        other => panic!("{other:?}"),
    }
    match mi_api::login(resp(Some(5), None), "u", "p") {
        mi_api::account::Next::Stuck(why) => assert!(why.ends_with("nonce not found in resp")),
        other => panic!("{other:?}"),
    }
    assert!(matches!(
        mi_api::login(resp(None, None), "u", "p"),
        mi_api::account::Next::Stuck(_)
    ));
    let second = mi_api::account::LoginResponse2 {
        user_id: 1,
        pass_token: String::new(),
        location: "l".to_string(),
        nonce: 2,
        ssecurity: "s".to_string(),
    };
    assert_eq!(second.service_token().nonce, 2);
}
