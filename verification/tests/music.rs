use xiaoai_llm::agent::{Act, Agent};
use xiaoai_llm::brain::{BrainErr, Playable, Track};
use xiaoai_llm::json::Json;
use xiaoai_llm::music::{
    content_type, file_uri, is_audio, is_ncm, mount_prefix, random, random_by_artist, resolve,
    resolve_pattern, serve_ncm, wanted, Lookup, MusicIndex, Opened, RandomReply, Refusal, Resolved,
    Serving, MAX_PATTERN_LEN,
};
use xiaoai_llm::music_backend::{find_file, FileReply};
use xiaoai_llm::netease::api::search::{Artist, Song};
use xiaoai_llm::netease::api::url::{song_url, SongUrlInfo};
use xiaoai_llm::netease::stream::AudioStream;
use xiaoai_llm::netease::{Level, NeteaseErr, SongUrlErr};
use xiaoai_llm::polling_agent;
use xiaoai_llm::source::local::{describe, NcmMeta};
use xiaoai_llm::source::netease::{
    pick, proxy, proxy_resolved, proxy_response, track_of, unavailable_message,
};
use xiaoai_llm::source::{LocalSource, NeteaseSource};
use xiaoai_llm::xiaoai::op::{Info, OpData};
use xiaoai_llm::xiaoai::OpResponse;

fn files(list: &[&str]) -> Vec<String> {
    list.iter().map(|s| s.to_string()).collect()
}

fn library() -> Vec<String> {
    files(&["周杰伦/晴天.mp3", "cover.jpg"])
}

/// Look a request path up the way a server does, rebuilding the index as asked.
fn get(disk: &[String], path: &str) -> Result<String, Refusal> {
    let mut index = MusicIndex::new("/music");
    let text = wanted(path)?;
    let mut at = Lookup::First;
    loop {
        match resolve(&index, &text, at) {
            Resolved::Hit(path) => return Ok(path),
            Resolved::Refused(why) => return Err(why),
            Resolved::Rescan(next) => {
                index.rescan(&disk.to_vec());
                at = next;
            }
        }
    }
}

fn request(text: &str) -> String {
    file_uri(text)
}

#[test]
fn serves_the_file_a_pattern_matches() {
    assert_eq!(get(&library(), &request(".*晴天.*")), Ok("周杰伦/晴天.mp3".to_string()));
}

#[test]
fn unmatched_pattern_is_not_found() {
    let why = get(&library(), &request(".*不存在.*")).unwrap_err();
    assert_eq!((why.status(), why.text()), (404, "No music matches"));
}

#[test]
fn non_audio_files_are_not_indexed() {
    assert_eq!(get(&library(), &request(".*cover.*")).unwrap_err().status(), 404);
    assert!(!is_audio("cover.jpg"));
    assert!(is_audio("a.FLAC"));
    assert!(is_audio("a.ncm"));
    assert!(!is_audio("noextension"));
}

#[test]
fn invalid_pattern_is_rejected() {
    let why = get(&library(), &request("*[")).unwrap_err();
    assert_eq!((why.status(), why.text()), (400, "Not a valid pattern"));
    let why = get(&library(), &request(&"x".repeat(100))).unwrap_err();
    assert_eq!((why.status(), why.text()), (400, "Pattern too long"));
    let why = get(&library(), "/%ff").unwrap_err();
    assert_eq!((why.status(), why.text()), (400, "Path is not valid UTF-8"));
}

#[test]
fn an_exact_path_is_served_verbatim() {
    let name = "Song (Live) [Remastered 2011] - A Very Long English Title Indeed.mp3";
    assert!(name.chars().count() > MAX_PATTERN_LEN);
    assert_eq!(get(&files(&[name]), &request(name)), Ok(name.to_string()));
}

#[test]
fn traversal_is_not_an_exact_path() {
    assert_eq!(
        get(&library(), &request("../../etc/passwd")),
        Err(Refusal::NoMatch)
    );
}

#[test]
fn handed_out_paths_are_percent_encoded() {
    assert_eq!(file_uri("a b/晴.mp3"), "/a%20b%2F%E6%99%B4.mp3");
    assert_eq!(wanted("/a%20b%2F%E6%99%B4.mp3"), Ok("a b/晴.mp3".to_string()));
    assert_eq!(wanted("a+b%zz"), Ok("a+b%zz".to_string()));
    assert_eq!(
        resolve_pattern("a b.mp3"),
        Serving::File("/a%20b.mp3".to_string())
    );
    assert_eq!(resolve_pattern("a.NCM"), Serving::Decrypt("a.NCM".to_string()));
}

#[test]
fn random_redirects_to_a_track() {
    let mut index = MusicIndex::new("/music");
    assert_eq!(random(&index, ""), RandomReply::NotFound("No music found"));
    index.rescan(&library());
    let to = "/%E5%91%A8%E6%9D%B0%E4%BC%A6%2F%E6%99%B4%E5%A4%A9.mp3";
    assert_eq!(random(&index, ""), RandomReply::Redirect(to.to_string()));
    assert_eq!(random_by_artist(&index, "周杰伦", ""), RandomReply::Redirect(to.to_string()));
    assert_eq!(
        random_by_artist(&index, "无此歌手", ""),
        RandomReply::NotFound("No music found for that artist")
    );
    assert_eq!(
        random_by_artist(&index, ".*", ""),
        RandomReply::NotFound("No music found for that artist")
    );
}

#[test]
fn random_redirect_keeps_the_mount_prefix() {
    let mut index = MusicIndex::new("/music");
    index.rescan(&library());
    for (original, inner) in [
        ("/s3cret/random", "/random"),
        ("/s3cret/random/周杰伦", "/random/周杰伦"),
    ] {
        let prefix = mount_prefix(original, inner);
        assert_eq!(prefix, "/s3cret");
        match random(&index, prefix) {
            RandomReply::Redirect(to) => assert!(to.starts_with("/s3cret/"), "{to}"),
            other => panic!("{other:?}"),
        }
    }
    assert_eq!(mount_prefix("/random", "/random"), "");
    assert_eq!(mount_prefix("/a", "/b"), "");
}

#[test]
fn an_index_holds_each_audio_file_once() {
    let mut index = MusicIndex::new("/music");
    index.rescan(&files(&["a.mp3", "a.mp3", "b.txt", "c.ncm"]));
    assert!(index.contains("a.mp3"));
    assert!(!index.contains("b.txt"));
    assert_eq!(index.root(), "/music");
    let source = LocalSource::new("http://h");
    assert_eq!(source.search(&index, "a.mp3").unwrap(), ["a.mp3"]);
    index.rescan(&vec![]);
    assert!(!index.contains("a.mp3"));
}

#[test]
fn content_type_comes_from_the_metadata() {
    assert_eq!(content_type("flac"), "audio/flac");
    assert_eq!(serve_ncm(&Opened::Format("mp3".to_string())), (200, "audio/mpeg"));
    assert_eq!(
        serve_ncm(&Opened::Format("ogg".to_string())),
        (200, "application/octet-stream")
    );
    assert!(is_ncm("x/y.NcM"));
    assert!(!is_ncm("ncm"));
    assert!(!is_ncm(".ncm"));
}

#[test]
fn a_corrupt_ncm_is_an_error_not_a_panic() {
    assert_eq!(serve_ncm(&Opened::Failed("bad magic".to_string())), (500, "Cannot decrypt"));
    assert_eq!(serve_ncm(&Opened::Died), (500, "Decrypt task died"));
}

#[test]
fn ncm_files_are_indexed_and_reachable_at_random() {
    let mut index = MusicIndex::new("/music");
    index.rescan(&files(&["晴天.ncm"]));
    assert!(matches!(random(&index, ""), RandomReply::Redirect(_)));
}

// ------------------------------------------------------------ local source

fn shelf() -> MusicIndex {
    let mut index = MusicIndex::new("/music");
    index.rescan(&files(&["周杰伦/晴天.mp3", "Loose.mp3"]));
    index
}

fn local() -> LocalSource {
    LocalSource::new("http://10.0.0.1:3000")
}

fn search(query: &str) -> Result<Vec<Track>, BrainErr> {
    Ok(local().search(&shelf(), query)?.iter().map(|p| describe(p, None)).collect())
}

#[test]
fn searches_by_title_and_by_artist() {
    let hits = search("晴天").unwrap();
    assert_eq!(hits.len(), 1);
    assert_eq!(hits[0].title, "晴天");
    assert_eq!(hits[0].artist, "周杰伦");
    assert_eq!(hits[0].source, "local");
    assert_eq!(hits[0].id, "周杰伦/晴天.mp3");

    assert_eq!(search("周杰伦").unwrap().len(), 1);
    assert!(search("不存在").unwrap().is_empty());
}

#[test]
fn search_is_case_insensitive_and_literal() {
    assert_eq!(search("loose").unwrap().len(), 1);
    assert!(search("loose(").unwrap().is_empty());
    assert!(matches!(search("  "), Err(BrainErr::InvalidArguments(_))));
}

#[test]
fn a_search_is_capped() {
    let many: Vec<String> = (0..30).map(|i| format!("{i}.mp3")).collect();
    let mut index = MusicIndex::new("/music");
    index.rescan(&many);
    assert_eq!(local().search(&index, "mp3").unwrap().len(), 20);
}

#[test]
fn a_track_at_the_root_has_no_artist() {
    assert_eq!(search("Loose").unwrap()[0].artist, "");
}

#[test]
fn resolve_points_at_our_own_server() {
    let source = local();
    let track = search("晴天").unwrap().remove(0);
    let Ok(Playable::Url(url)) = source.resolve(&track) else {
        panic!("local tracks must resolve to a URL the speaker can fetch");
    };
    assert!(url.starts_with("http://10.0.0.1:3000/"), "{url}");
    assert!(url.contains("%E6%99%B4%E5%A4%A9"), "{url}");
    assert_eq!(wanted(url.strip_prefix("http://10.0.0.1:3000").unwrap()), Ok(track.id.clone()));

    let foreign = Track { source: "netease".into(), ..track };
    assert!(matches!(source.resolve(&foreign), Err(BrainErr::NotFound(_))));
}

#[test]
fn random_respects_its_filter() {
    let source = local();
    assert!(source.random(&shelf(), None).is_some());
    assert_eq!(
        source.random(&shelf(), Some("周杰伦")),
        Some("周杰伦/晴天.mp3".to_string())
    );
    assert_eq!(source.random(&shelf(), Some("无此歌手")), None);
    assert_eq!(source.name(), "local");
}

#[test]
fn an_encrypted_track_is_described_by_its_metadata() {
    let meta = NcmMeta {
        music_name: "晴天".to_string(),
        artists: files(&["周杰伦", "甲"]),
        duration: 269000,
    };
    let track = describe("x/y.ncm", Some(meta.clone()));
    assert_eq!((track.title.as_str(), track.artist.as_str()), ("晴天", "周杰伦, 甲"));
    assert_eq!(track.duration_ms, Some(269000));
    let track = describe("x/y.ncm", None);
    assert_eq!((track.title.as_str(), track.artist.as_str()), ("y", "x"));
    let track = describe("x/y.mp3", Some(meta.clone()));
    assert_eq!(track.title, "y");
    let unset = NcmMeta { duration: 0, ..meta };
    assert_eq!(describe("y.ncm", Some(unset)).duration_ms, None);
}

// ------------------------------------------------------------ netease source

fn netease() -> NeteaseSource {
    NeteaseSource::new("http://10.0.0.1:3000/")
}

fn song() -> Song {
    Song {
        id: 186016,
        name: "晴天".to_string(),
        artists: vec![Artist { id: 6452, name: "周杰伦".to_string() }],
        album: None,
        duration_ms: 269_000,
        pst: 0,
    }
}

fn entry(url: Option<&str>) -> SongUrlInfo {
    SongUrlInfo {
        id: 186016,
        url: url.map(|u| u.to_string()),
        br: 0,
        size: 0,
        md5: None,
        format: None,
        expi: 1200,
        fee: 1,
        level: None,
        free_trial_info: Some(Json::empty()),
    }
}

#[test]
fn search_maps_songs_onto_tracks() {
    let source = netease();
    let request = source.search(" 晴天 ").unwrap();
    assert_eq!((request.keywords.as_str(), request.limit), ("晴天", 10));
    let hits = source.found(Ok(vec![song()])).unwrap();
    assert_eq!(hits.len(), 1);
    assert_eq!(hits[0].id, "186016");
    assert_eq!(hits[0].title, "晴天");
    assert_eq!(hits[0].artist, "周杰伦");
    assert_eq!(hits[0].source, "netease");
    assert_eq!(hits[0].duration_ms, Some(269_000));

    assert!(matches!(source.search("  "), Err(BrainErr::InvalidArguments(_))));
    assert_eq!(
        source.found(Err(NeteaseErr::Http("x".to_string()))),
        Err(BrainErr::Backend("http request failed: x".to_string()))
    );
}

#[test]
fn resolve_points_at_our_own_proxy_not_the_cdn() {
    let source = netease();
    let track = track_of(&song());
    let id = source.song_id(&track).unwrap();
    let Ok(Playable::Url(url)) = source.resolve(&track, id, Ok(entry(Some("http://cdn/a")))) else {
        panic!("netease tracks must resolve to a URL the speaker can fetch");
    };
    assert_eq!(url, "http://10.0.0.1:3000/netease/186016");
    assert!(!url.contains("cdn"), "a CDN url must never reach the speaker");

    let foreign = Track { source: "local".into(), ..track.clone() };
    assert!(matches!(source.song_id(&foreign), Err(BrainErr::NotFound(_))));
    let nonsense = Track { id: "x".into(), ..track };
    assert_eq!(
        source.song_id(&nonsense),
        Err(BrainErr::InvalidArguments("`x` is not a netease song id".to_string()))
    );
}

#[test]
fn a_vip_track_explains_itself() {
    let source = netease();
    let track = track_of(&song());
    let info = song_url(vec![entry(None)], 186016);
    let err = source.resolve(&track, 186016, info).unwrap_err();
    assert_eq!(err.message(), "《晴天》只能试听，需要会员");
    let err = source.resolve(&track, 7, song_url(vec![], 7)).unwrap_err();
    assert_eq!(err, BrainErr::NotFound("网易云找不到编号 7 的歌曲".to_string()));
    let down = Err(SongUrlErr::Netease(NeteaseErr::Http("x".to_string())));
    assert_eq!(
        source.resolve(&track, 7, down).unwrap_err().message(),
        "http request failed: x"
    );
}

#[test]
fn unavailable_messages_name_the_actual_obstacle() {
    assert!(unavailable_message("x", 1, false).contains("需要会员"));
    assert!(unavailable_message("x", 1, true).contains("试听"));
    assert!(unavailable_message("x", 4, false).contains("专辑"));
    assert!(unavailable_message("x", 0, false).contains("无法播放"));
    assert_eq!(unavailable_message("x", 8, false), "《x》需要会员");
}

#[test]
fn random_needs_a_filter_to_have_anything_to_pick_from() {
    let source = netease();
    assert_eq!(source.random(Some(" 周杰伦 ")), Some("周杰伦"));
    assert_eq!(source.random(None), None);
    assert_eq!(source.random(Some(" ")), None);
    assert_eq!(pick(&vec![]), None);
    assert_eq!(pick(&vec![track_of(&song())]).unwrap().title, "晴天");
    assert_eq!(source.name(), "netease");
    assert_eq!(source.with_level(Level::Lossless).level(), Level::Lossless);
}

#[test]
fn the_proxy_resolves_just_in_time_and_streams_through() {
    assert_eq!(proxy("186016"), Ok(186016));
    assert_eq!(proxy("186016.mp3"), Ok(186016));
    assert_eq!(proxy_resolved(&Ok(entry(Some("http://cdn/a")))), Ok("http://cdn/a".to_string()));
    let head = AudioStream {
        status: 200,
        content_type: None,
        content_length: Some(4096),
        content_range: None,
        accept_ranges: None,
    };
    let reply = proxy_response(Ok(head)).unwrap();
    assert_eq!((reply.status, reply.content_type.as_str()), (200, "audio/mpeg"));
    assert_eq!(reply.content_length, Some(4096));
}

#[test]
fn a_range_request_is_forwarded_and_206_propagated() {
    let head = AudioStream {
        status: 206,
        content_type: Some("audio/flac".to_string()),
        content_length: Some(100),
        content_range: Some("bytes 0-99/4096".to_string()),
        accept_ranges: Some("bytes".to_string()),
    };
    let reply = proxy_response(Ok(head)).unwrap();
    assert_eq!(reply.status, 206);
    assert_eq!(reply.content_type, "audio/flac");
    assert_eq!(reply.content_range.as_deref(), Some("bytes 0-99/4096"));
    assert_eq!(reply.accept_ranges.as_deref(), Some("bytes"));
}

#[test]
fn the_proxy_refuses_nonsense_and_gated_tracks_without_panicking() {
    assert_eq!(proxy("nonsense"), Err((400, "Not a netease song id")));
    assert_eq!(proxy("1.2.mp3"), Err((400, "Not a netease song id")));
    assert_eq!(
        proxy_resolved(&song_url(vec![entry(None)], 186016)),
        Err((403, "Song is not streamable"))
    );
    assert_eq!(proxy_resolved(&song_url(vec![], 1)), Err((404, "No such song")));
    assert_eq!(
        proxy_resolved(&Err(SongUrlErr::Netease(NeteaseErr::Http(String::new())))),
        Err((502, "Cannot resolve song"))
    );
    assert_eq!(
        proxy_response(Err(NeteaseErr::Http(String::new()))),
        Err((502, "Cannot open audio stream"))
    );
}

// ------------------------------------------------------------ command-driven assistants

fn status(code: usize) -> OpResponse {
    OpResponse {
        data: OpData {
            info: Some(Info {
                status: Some(code),
                volume: None,
                loop_type: None,
                path: None,
                others: Json::Null,
            }),
        },
    }
}

fn act(agent: &mut Agent, time: usize, query: &str) -> Option<Act> {
    let command = agent.tick(time, query)?;
    Some(agent.handle(&command, "http://h"))
}

#[test]
fn a_command_plays_a_path_on_our_server() {
    let mut agent = Agent::new();
    assert_eq!(
        act(&mut agent, 1, "播放周杰伦的晴天"),
        Some(Act::Play("http://h/.%2A%E5%91%A8%E6%9D%B0%E4%BC%A6.%2A%E6%99%B4%E5%A4%A9.%2A".to_string()))
    );
    assert_eq!(act(&mut agent, 1, "播放晴天"), None);
    assert_eq!(
        act(&mut agent, 2, "播放周杰伦的歌"),
        Some(Act::Play("http://h/random/%E5%91%A8%E6%9D%B0%E4%BC%A6".to_string()))
    );
    assert_eq!(act(&mut agent, 3, "随机播放"), Some(Act::Play("http://h/random".to_string())));
    assert_eq!(act(&mut agent, 4, "不嘻嘻"), Some(Act::Speak("奶龙，关闭！")));
    assert_eq!(act(&mut agent, 5, "随机播放"), None);
    assert_eq!(act(&mut agent, 6, "嘻嘻"), Some(Act::Speak("奶龙，启动！")));
    assert!(act(&mut agent, 7, "播放晴天").is_some());
    assert!(Agent::play_and_wait(&status(2)));
    assert!(!Agent::play_and_wait(&status(3)));
}

#[test]
fn a_bare_poller_keeps_its_own_rules() {
    let mut agent = polling_agent::Agent::new();
    let play = |url: &str, through_pauses| {
        Some(polling_agent::Order::Play { url: format!("http://192.168.1.20:3000/{url}"), through_pauses })
    };
    assert_eq!(agent.run(1, "播放晴天"), play(".%2A%E6%99%B4%E5%A4%A9.%2A", false));
    assert_eq!(agent.run(1, "播放晴天"), None);
    assert_eq!(agent.run(2, "播放"), play(".%2A.%2A", false));
    assert_eq!(agent.run(3, "随机播放"), play("random", true));
    assert_eq!(agent.run(3, "随机播放"), play("random", true));
    assert_eq!(agent.run(4, "不嘻嘻"), Some(polling_agent::Order::Speak("奶龙，关闭！")));
    assert_eq!(agent.run(5, "播放晴天"), None);
    assert_eq!(agent.run(5, "嘻嘻"), Some(polling_agent::Order::Speak("奶龙，启动！")));
    assert!(polling_agent::Agent::waits(&status(1), false));
    assert!(!polling_agent::Agent::waits(&status(2), false));
    assert!(polling_agent::Agent::waits(&status(2), true));
}

#[test]
fn a_bare_server_indexes_up_to_the_first_match() {
    let disk = files(&["./cover.jpg", "./a.mp3", "./b.mp3", "./c.mp3"]);
    let mut state: Vec<String> = Vec::new();
    assert_eq!(
        find_file(&mut state, "/b", &disk),
        Some(FileReply::Serve("/b.mp3".to_string()))
    );
    assert_eq!(state, ["a.mp3", "b.mp3"]);
    assert_eq!(
        find_file(&mut state, "/a", &vec![]),
        Some(FileReply::Serve("/a.mp3".to_string()))
    );
    let reply = find_file(&mut state, "/zzz", &disk).unwrap();
    assert_eq!(reply.refusal(), Some((404, "Music not match")));
    assert_eq!(state, ["a.mp3", "b.mp3", "c.mp3"]);
    let sealed = files(&["./sealed.ncm"]);
    assert_eq!(find_file(&mut state, "/sealed", &sealed), Some(FileReply::NoMatch));
    assert_eq!(state.len(), 3);
    let long = find_file(&mut state, &format!("/{}", "x".repeat(65)), &disk).unwrap();
    assert_eq!(long.refusal(), Some((400, "Too long")));
    assert_eq!(find_file(&mut state, "/%2A%5B", &disk), None);
    assert_eq!(find_file(&mut state, "/%ff", &disk), None);
}
