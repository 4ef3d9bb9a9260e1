use xiaoai_llm::gate::Decision;
use xiaoai_llm::json::Json;
use xiaoai_llm::speaker::{
    estimated_speech, Due, Heard, Latest, PlaybackWait, XiaoaiSource, XiaoaiSpeaker,
};
use xiaoai_llm::xiaoai::op::{Info, OpData};
use xiaoai_llm::xiaoai::{AuthData, Device, OpResponse};

fn speaker() -> XiaoaiSpeaker {
    let auth_data = AuthData {
        user_id: 7,
        device_id: String::new(),
        ssecurity: String::new(),
        service_token: "token".to_string(),
        pass_token: String::new(),
    };
    let device = Device {
        alias: String::new(),
        device_id: "device".to_string(),
        hardware: String::new(),
        others: Json::Null,
    };
    XiaoaiSpeaker::new(auth_data, &device)
}

fn record(time: usize, query: &str) -> Result<Option<Latest>, String> {
    Ok(Some(Latest { time, query: query.to_string() }))
}

fn status(code: Option<usize>) -> OpResponse {
    OpResponse {
        data: OpData {
            info: Some(Info {
                status: code,
                volume: None,
                loop_type: None,
                path: None,
                others: Json::Null,
            }),
        },
    }
}

#[test]
fn we_wait_for_our_own_playback_exactly_once() {
    let mut speaker = speaker();
    assert!(!speaker.took_our_playback());
    speaker.note_our_playback();
    assert!(speaker.took_our_playback());
    assert!(!speaker.took_our_playback());
}

#[test]
fn the_history_is_not_polled_over_our_own_playback() {
    let source = XiaoaiSource::new();
    let mut speaker = speaker();
    assert!(matches!(source.before_poll(&mut speaker), Due::Poll));
    speaker.on_playing();
    match source.before_poll(&mut speaker) {
        Due::Wait(mut wait) => {
            assert!(wait.wait_while_playing(Ok(true)));
            assert!(!wait.wait_while_playing(Ok(false)));
        }
        Due::Poll => panic!("our track is playing"),
    }
    assert!(matches!(source.before_poll(&mut speaker), Due::Poll));
    assert!(speaker.take_say_suppression());
}

#[test]
fn a_play_suppresses_exactly_one_following_say() {
    let mut speaker = speaker();
    assert!(!speaker.take_say_suppression());
    speaker.arm_say_suppression();
    assert!(speaker.take_say_suppression());
    assert!(!speaker.take_say_suppression());
}

#[test]
fn a_play_that_never_spoke_does_not_swallow_the_next_reply() {
    let mut speaker = speaker();
    speaker.arm_say_suppression();
    speaker.discard_suppressed_say();
    assert!(!speaker.take_say_suppression());
}

#[test]
fn the_first_poll_only_sets_the_cursor() {
    let mut source = XiaoaiSource::new();
    assert_eq!(source.consider(100, "播放晴天"), Decision::Ignore);
    assert_eq!(source.last_seen(), Some(100));
    assert_eq!(source.consider(200, "播放晴天"), Decision::Forward);
}

#[test]
fn a_record_is_marked_seen_even_when_it_is_dropped() {
    let mut source = XiaoaiSource::new();
    source.consider(100, "");
    assert_eq!(source.consider(200, "嗯"), Decision::Ignore);
    assert_eq!(source.last_seen(), Some(200));
    assert_eq!(source.consider(200, "播放晴天"), Decision::Ignore);
}

#[test]
fn an_empty_history_does_not_eat_the_first_command() {
    let mut source = XiaoaiSource::new();
    source.consider_nothing();
    assert_eq!(
        source.consider(1_700_000_000_000, "播放晴天"),
        Decision::Forward
    );
}

#[test]
fn the_same_record_is_never_returned_twice() {
    let mut source = XiaoaiSource::new();
    source.consider(100, "");
    assert_eq!(source.consider(200, "播放晴天"), Decision::Forward);
    assert_eq!(source.consider(200, "播放晴天"), Decision::Ignore);
    assert_eq!(source.consider(150, "播放晴天"), Decision::Ignore);
}

#[test]
fn the_poll_interval_backs_off_when_idle_and_snaps_back_on_activity() {
    let mut source = XiaoaiSource::new();
    assert_eq!(source.poll_interval(), 3_000);

    source.slow_down();
    assert_eq!(source.poll_interval(), 4_000);

    for _ in 0..20 {
        source.slow_down();
    }
    assert_eq!(source.poll_interval(), 10_000);

    source.speed_up();
    assert_eq!(source.poll_interval(), 5_000);
    source.speed_up();
    assert_eq!(source.poll_interval(), 3_000);
    source.speed_up();
    assert_eq!(source.poll_interval(), 3_000);
}

#[test]
fn a_poll_hands_on_a_new_command_and_adapts_its_pace() {
    let mut source = XiaoaiSource::new();
    let mut speaker = speaker();
    assert_eq!(source.next(&mut speaker, Ok(None)), Heard::Nothing);
    assert_eq!(source.last_seen(), Some(0));
    assert_eq!(source.poll_interval(), 4_000);

    assert_eq!(source.next(&mut speaker, Err("offline".to_string())), Heard::Nothing);
    assert_eq!(source.poll_interval(), 4_000);

    speaker.arm_say_suppression();
    match source.next(&mut speaker, record(1_700_000_000_000, "播放晴天")) {
        Heard::Forward(u) => {
            assert_eq!(u.id, "1700000000000");
            assert_eq!(u.text, "播放晴天");
            assert_eq!(u.timestamp_ms, 1_700_000_000_000);
        }
        other => panic!("{other:?}"),
    }
    assert!(!speaker.take_say_suppression());
    assert_eq!(source.poll_interval(), 3_000);

    assert_eq!(
        source.next(&mut speaker, record(1_700_000_000_001, "不嘻嘻")),
        Heard::Say("奶龙，关闭！")
    );
    speaker.arm_say_suppression();
    assert_eq!(
        source.next(&mut speaker, record(1_700_000_000_002, "播放晴天")),
        Heard::Nothing
    );
    assert!(speaker.take_say_suppression());
}

#[test]
fn waiting_blocks_until_playback_ends() {
    let mut wait = PlaybackWait::new();
    let mut asked = 0;
    for state in [true, true, false] {
        asked += 1;
        if !wait.wait_while_playing(Ok(state)) {
            break;
        }
    }
    assert_eq!(asked, 3);
}

#[test]
fn a_broken_status_ends_the_wait() {
    assert!(!PlaybackWait::new().wait_while_playing(Err("offline".to_string())));
}

#[test]
fn a_wedged_speaker_does_not_wait_forever() {
    let mut wait = PlaybackWait::new();
    let mut again = 0;
    while wait.wait_while_playing(Ok(true)) {
        again += 1;
    }
    assert_eq!(again, 400);
}

#[test]
fn operations_are_addressed_to_the_speaker() {
    let mut speaker = speaker();
    let op = speaker.say("你好").unwrap();
    assert_eq!(op.user_id, 7);
    assert_eq!(op.service_token, "token");
    assert_eq!(op.device_id, "device");
    assert_eq!(op.op.path, "mibrain");
    assert_eq!(op.op.method, "text_to_speech");
    assert_eq!(op.op.message_text(), r#"{"text":"你好"}"#);
    assert!(op.request_id.starts_with("app_ios_"));
    assert_eq!(op.request_id.len(), 38);

    let (pause, play) = speaker.play("http://host/a.mp3");
    assert_eq!(pause.op.message_text(), r#"{"action":"pause"}"#);
    assert_eq!(play.op.method, "player_play_url");
    assert_eq!(play.op.message_text(), r#"{"type":1,"url":"http://host/a.mp3"}"#);
    assert_ne!(pause.request_id, play.request_id);

    speaker.on_playing();
    assert!(speaker.say("好的").is_none());
    assert!(speaker.say("好的").is_some());
    assert!(speaker.took_our_playback());

    assert_eq!(speaker.set_volume(40).op.message_text(), r#"{"volume":40}"#);
    assert_eq!(speaker.set_volume(100).op.message_text(), r#"{"volume":100}"#);
    for level in [101, 255] {
        assert_eq!(speaker.set_volume(level).op.message_text(), r#"{"volume":100}"#);
    }
    assert_eq!(speaker.status().op.message_text(), "{}");
    assert_eq!(speaker.stop().op.method, "player_play_operation");
}

#[test]
fn an_announcement_is_given_time() {
    assert_eq!(estimated_speech(""), 2_500);
    assert_eq!(estimated_speech("正在播放"), 3_780);
    assert_eq!(estimated_speech(&"字".repeat(23)), 9_860);
    assert_eq!(estimated_speech(&"字".repeat(24)), 10_000);
    let speaker = speaker();
    let (say, hold, play) = speaker.announce_then_play("晴天", "u");
    assert_eq!(say.op.message_text(), r#"{"text":"晴天"}"#);
    assert_eq!(hold, 3_140);
    assert_eq!(play.op.message_text(), r#"{"type":1,"url":"u"}"#);
}

#[test]
fn a_pause_counts_as_playing() {
    assert!(XiaoaiSpeaker::is_playing(&status(Some(1))));
    assert!(XiaoaiSpeaker::is_playing(&status(Some(2))));
    for code in [Some(0), Some(3), Some(9), None] {
        assert!(!XiaoaiSpeaker::is_playing(&status(code)));
    }
}
