use xiaoai_llm::gate::{noise_reason, Decision, Gate};

#[test]
fn the_toggles_work_and_disable_wins() {
    let mut gate = Gate::new();
    assert_eq!(gate.decide("不嘻嘻"), Decision::Reply("奶龙，关闭！"));
    assert!(!gate.is_enabled());
    assert_eq!(gate.decide("不嘻嘻了"), Decision::Reply("奶龙，关闭！"));
    assert!(!gate.is_enabled());

    assert_eq!(gate.decide("嘻嘻"), Decision::Reply("奶龙，启动！"));
    assert!(gate.is_enabled());
    assert_eq!(gate.decide("嘻嘻，你好"), Decision::Reply("奶龙，启动！"));
}

#[test]
fn while_disabled_only_the_enable_phrase_is_obeyed() {
    let mut gate = Gate::new();
    gate.decide("不嘻嘻");
    for text in ["播放晴天", "讲个故事", "今天天气怎么样"] {
        assert_eq!(gate.decide(text), Decision::Ignore, "{text}");
    }
    assert_eq!(gate.decide("嘻嘻"), Decision::Reply("奶龙，启动！"));
    assert_eq!(gate.decide("播放晴天"), Decision::Forward);
}

#[test]
fn noise_is_dropped() {
    let mut gate = Gate::new();
    for text in [
        "",
        "   ",
        "嗯",
        "好的",
        "小爱同学",
        "……",
        "，。？",
        "然后我就跟他说这个事情其实没有那么复杂你要是早点告诉我的话我们完全可以换一个方案来处理这件事情根本不至于闹成现在这样大家都下不来台",
    ] {
        assert_eq!(gate.decide(text), Decision::Ignore, "{text:?}");
    }
}

#[test]
fn anything_plausibly_for_us_is_forwarded() {
    let mut gate = Gate::default();
    for text in [
        "播放晴天",
        "我想听周杰伦的歌",
        "随便放首歌",
        "讲个故事",
        "声音大一点",
        "别唱了",
        "跟我辩论一下猫和狗哪个更好",
        "今天天气怎么样",
        "好的那就放稻香吧",
        "停",
        "放",
    ] {
        assert_eq!(gate.decide(text), Decision::Forward, "{text}");
    }
}

#[test]
fn every_filter_names_its_reason() {
    assert_eq!(noise_reason("x"), Some("too short"));
    assert_eq!(noise_reason("……"), Some("no words in it"));
    assert_eq!(noise_reason("好的"), Some("filler"));
    assert_eq!(noise_reason("停"), None);
    assert_eq!(noise_reason(&"歌".repeat(59)), None);
    for n in [60, 61] {
        assert_eq!(
            noise_reason(&"歌".repeat(n)),
            Some("too long to be speech aimed at a speaker")
        );
    }
}

#[test]
fn surrounding_white_space_does_not_matter() {
    let mut gate = Gate::new();
    assert_eq!(gate.decide("\u{3000} 不嘻嘻 \n"), Decision::Reply("奶龙，关闭！"));
    assert_eq!(gate.decide("  播放晴天"), Decision::Ignore);
}
