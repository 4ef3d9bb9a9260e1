use xiaoai_llm::command::Command;

#[test]
fn toggles() {
    assert_eq!(Command::parse("嘻嘻"), Some(Command::Enable));
    assert_eq!(Command::parse("嘻嘻，你好"), Some(Command::Enable));
    assert_eq!(Command::parse("不嘻嘻"), Some(Command::Disable));
}

#[test]
fn random() {
    for query in ["随机播放", "放一首歌听", "随便放首歌听听"] {
        assert_eq!(Command::parse(query), Some(Command::PlayRandom), "{query}");
    }
}

#[test]
fn artist_only() {
    assert_eq!(
        Command::parse("播放周杰伦的歌"),
        Some(Command::PlayArtist {
            artist: "周杰伦".to_string()
        })
    );
    assert_eq!(
        Command::parse("我想听周杰伦的歌"),
        Some(Command::PlayArtist {
            artist: "周杰伦".to_string()
        })
    );
}

#[test]
fn specific_track() {
    assert_eq!(
        Command::parse("播放周杰伦的晴天"),
        Some(Command::PlayTrack {
            artist: Some("周杰伦".to_string()),
            title: "晴天".to_string(),
        })
    );
    assert_eq!(
        Command::parse("我要听晴天"),
        Some(Command::PlayTrack {
            artist: None,
            title: "晴天".to_string(),
        })
    );
}

#[test]
fn unrelated_speech_is_ignored() {
    for query in ["今天天气怎么样", "播放", ""] {
        assert_eq!(Command::parse(query), None, "{query}");
    }
}

#[test]
fn the_first_separator_splits_artist_and_title() {
    assert_eq!(
        Command::parse("播放王菲的我的歌"),
        Some(Command::PlayTrack {
            artist: Some("王菲".to_string()),
            title: "我的歌".to_string(),
        })
    );
    assert_eq!(
        Command::parse("播放的歌"),
        Some(Command::PlayTrack {
            artist: None,
            title: "的歌".to_string(),
        })
    );
    assert_eq!(
        Command::parse("播放我的"),
        Some(Command::PlayTrack {
            artist: None,
            title: "我的".to_string(),
        })
    );
}

#[test]
fn a_title_stands_on_one_line() {
    assert_eq!(Command::parse("播放晴\n天"), None);
    assert_eq!(
        Command::parse("播放周\n杰伦的晴天"),
        Some(Command::PlayTrack {
            artist: Some("周\n杰伦".to_string()),
            title: "晴天".to_string(),
        })
    );
}

#[test]
fn only_the_toggles_are_always_allowed() {
    assert!(Command::Enable.is_always_allowed());
    assert!(Command::Disable.is_always_allowed());
    assert!(!Command::PlayRandom.is_always_allowed());
    assert!(!Command::PlayArtist { artist: "x".to_string() }.is_always_allowed());
}
