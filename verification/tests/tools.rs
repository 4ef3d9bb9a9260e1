use xiaoai_llm::brain::registry::Tool;
use xiaoai_llm::brain::{BrainErr, Playable, Track};
use xiaoai_llm::json::Json;
use xiaoai_llm::tools::{
    artist, Level, PlayMusic, PlayStep, SetVolume, SourceId, Stop, TellStory, VoiceTool,
};

/// What a source does when asked to resolve one of its own tracks.
#[derive(Clone, Copy, PartialEq)]
enum Resolves {
    Fine,
    Vip,
    File,
}

struct FakeSource {
    titles: Vec<&'static str>,
    resolves: Resolves,
    broken: bool,
    searched: Vec<String>,
    randomed: usize,
}

impl FakeSource {
    fn new(titles: &[&'static str]) -> Self {
        Self {
            titles: titles.to_vec(),
            resolves: Resolves::Fine,
            broken: false,
            searched: Vec::new(),
            randomed: 0,
        }
    }

    fn vip(titles: &[&'static str]) -> Self {
        Self { resolves: Resolves::Vip, ..Self::new(titles) }
    }
}

struct World {
    local: FakeSource,
    netease: Option<FakeSource>,
    said: Vec<String>,
    played: Vec<String>,
    speaker_broken: bool,
}

impl World {
    fn new(local: FakeSource, netease: Option<FakeSource>) -> Self {
        Self { local, netease, said: Vec::new(), played: Vec::new(), speaker_broken: false }
    }

    fn source(&mut self, id: SourceId) -> &mut FakeSource {
        match id {
            SourceId::Local => &mut self.local,
            SourceId::Netease => self.netease.as_mut().unwrap(),
        }
    }

    fn track(id: SourceId, title: &str) -> Track {
        Track {
            id: title.to_string(),
            title: title.to_string(),
            artist: "某歌手".into(),
            source: id.name().to_string(),
            duration_ms: None,
        }
    }

    /// Drive a request for music to its answer.
    fn call(&mut self, args: Json) -> Result<String, BrainErr> {
        let tool = match &self.netease {
            Some(_) => PlayMusic::new().with_netease(),
            None => PlayMusic::new(),
        };
        let mut playing = tool.call(&args)?;
        loop {
            match playing.step() {
                PlayStep::Search { source, query } => {
                    let query = query.to_string();
                    let s = self.source(source);
                    s.searched.push(query.clone());
                    let found = if s.broken {
                        Err(BrainErr::Backend("down".to_string()))
                    } else {
                        Ok(s.titles
                            .iter()
                            .filter(|t| t.contains(query.as_str()))
                            .map(|t| World::track(source, t))
                            .collect())
                    };
                    playing.on_found(found);
                }
                PlayStep::Random { source, filter } => {
                    let filter = filter.map(|f| f.to_string());
                    let s = self.source(source);
                    s.randomed += 1;
                    let pick = s
                        .titles
                        .iter()
                        .find(|t| filter.as_ref().map_or(true, |f| t.contains(f.as_str())))
                        .map(|t| World::track(source, t));
                    playing.on_picked(Ok(pick));
                }
                PlayStep::Resolve { source, track } => {
                    let resolved = match self.source(source).resolves {
                        Resolves::Fine => Ok(Playable::Url(format!(
                            "http://host/{}/{}",
                            source.name(),
                            track.id
                        ))),
                        Resolves::Vip => {
                            Err(BrainErr::Backend(format!("《{}》需要会员", track.title)))
                        }
                        Resolves::File => Ok(Playable::LocalFile("/tmp/x".to_string())),
                    };
                    playing.on_resolved(resolved);
                }
                PlayStep::Announce { announcement, url } => {
                    let (announcement, url) = (announcement.to_string(), url.to_string());
                    self.said.push(announcement);
                    let played = if self.speaker_broken {
                        Err(BrainErr::Backend("speaker offline".into()))
                    } else {
                        self.played.push(url);
                        Ok(())
                    };
                    playing.on_played(played);
                }
                PlayStep::Answer(answer) => return answer.clone(),
            }
        }
    }
}

fn args(members: &[(&str, Json)]) -> Json {
    let mut out = Json::empty();
    for (k, v) in members {
        out = out.with(k, v.copy());
    }
    out
}

fn query(text: &str) -> Json {
    args(&[("query", Json::string(text))])
}

#[test]
fn the_local_library_is_tried_first() {
    let mut world = World::new(FakeSource::new(&["晴天"]), Some(FakeSource::new(&["晴天"])));
    let out = world.call(query("晴天")).unwrap();
    assert!(out.contains("晴天"), "{out}");
    assert_eq!(world.played, ["http://host/local/晴天"]);
    assert!(world.netease.unwrap().searched.is_empty());
}

#[test]
fn the_track_is_announced_before_it_plays() {
    let mut world = World::new(FakeSource::new(&["晴天"]), None);
    world.call(query("晴天")).unwrap();
    assert_eq!(world.said, ["正在播放《晴天》— 某歌手"]);
    assert_eq!(world.played, ["http://host/local/晴天"]);
}

#[test]
fn an_unknown_artist_is_not_named() {
    let mut track = World::track(SourceId::Local, "晴天");
    track.artist = "周杰伦".to_string();
    assert_eq!(artist(&track), "— 周杰伦");
    track.artist = String::new();
    assert_eq!(artist(&track), "");
}

#[test]
fn netease_takes_over_when_the_local_library_misses() {
    let mut world = World::new(FakeSource::new(&["别的歌"]), Some(FakeSource::new(&["晴天"])));
    world.call(query("晴天")).unwrap();
    assert_eq!(world.local.searched, ["晴天"]);
    assert_eq!(world.played, ["http://host/netease/晴天"]);
}

#[test]
fn an_explicit_netease_request_skips_the_local_library() {
    let mut world = World::new(FakeSource::new(&["晴天"]), Some(FakeSource::new(&["晴天"])));
    world
        .call(args(&[("query", Json::string("晴天")), ("source", Json::string("netease"))]))
        .unwrap();
    assert!(world.local.searched.is_empty());
    assert_eq!(world.played, ["http://host/netease/晴天"]);
}

#[test]
fn an_explicit_local_request_never_reaches_netease() {
    let mut world = World::new(FakeSource::new(&["晴天"]), Some(FakeSource::new(&["晴天"])));
    world
        .call(args(&[("query", Json::string("晴天")), ("source", Json::string("local"))]))
        .unwrap();
    assert!(world.netease.unwrap().searched.is_empty());
}

#[test]
fn asking_for_an_unconfigured_netease_falls_back_and_says_so() {
    let mut world = World::new(FakeSource::new(&["晴天"]), None);
    let out = world
        .call(args(&[("query", Json::string("晴天")), ("source", Json::string("netease"))]))
        .unwrap();
    assert!(out.contains("网易云音乐未配置"), "{out}");
    assert_eq!(world.played.len(), 1);
}

#[test]
fn a_search_miss_is_an_ordinary_answer() {
    let mut world = World::new(FakeSource::new(&["晴天"]), None);
    let out = world.call(query("不存在的歌")).unwrap();
    assert_eq!(out, "没有找到和「不存在的歌」有关的歌曲");
    assert!(world.played.is_empty());
}

#[test]
fn a_vip_gated_track_explains_itself_instead_of_pretending_to_play() {
    let mut world = World::new(FakeSource::new(&[]), Some(FakeSource::vip(&["晴天"])));
    let out = world.call(query("晴天")).unwrap();
    assert!(out.contains("需要会员"), "{out}");
    assert!(out.contains("晴天"), "{out}");
    assert!(world.played.is_empty());
}

#[test]
fn a_gated_hit_does_not_stop_the_local_library_from_answering() {
    let mut world = World::new(FakeSource::vip(&["晴天"]), Some(FakeSource::new(&["晴天"])));
    world.call(query("晴天")).unwrap();
    assert_eq!(world.played, ["http://host/netease/晴天"]);
}

#[test]
fn random_uses_the_random_endpoint_not_a_search() {
    let mut world = World::new(FakeSource::new(&["晴天", "稻香"]), None);
    let out = world.call(args(&[("random", Json::Bool(true))])).unwrap();
    assert!(out.contains("正在播放"), "{out}");
    assert_eq!(world.local.randomed, 1);
    assert!(world.local.searched.is_empty());

    world
        .call(args(&[("random", Json::Bool(true)), ("query", Json::string("稻香"))]))
        .unwrap();
    assert!(world.local.searched.is_empty());
    assert!(world.played[1].contains("稻香"));
}

#[test]
fn playing_nothing_in_particular_needs_a_query_or_random() {
    let mut world = World::new(FakeSource::new(&["晴天"]), None);
    assert!(matches!(world.call(Json::empty()), Err(BrainErr::InvalidArguments(_))));
    assert!(matches!(world.call(query("   ")), Err(BrainErr::InvalidArguments(_))));
}

#[test]
fn a_broken_speaker_is_an_error() {
    let mut world = World::new(FakeSource::new(&["晴天"]), None);
    world.speaker_broken = true;
    assert!(world.call(query("晴天")).is_err());
}

#[test]
fn a_source_that_is_down_does_not_sink_the_request() {
    let mut broken = FakeSource::new(&["晴天"]);
    broken.broken = true;
    let mut world = World::new(broken, Some(FakeSource::new(&["晴天"])));
    world.call(query("晴天")).unwrap();
    assert_eq!(world.played, ["http://host/netease/晴天"]);

    let mut broken = FakeSource::new(&[]);
    broken.broken = true;
    let mut world = World::new(broken, None);
    assert_eq!(world.call(query("晴天")).unwrap(), "没能播放：local：down");
}

#[test]
fn only_the_first_three_hits_are_tried() {
    let mut world = World::new(FakeSource::vip(&["歌1", "歌2", "歌3", "歌4"]), None);
    let out = world.call(query("歌")).unwrap();
    assert_eq!(out, "没能播放：《歌1》需要会员；《歌2》需要会员；《歌3》需要会员");
}

#[test]
fn a_local_file_cannot_be_played_over_the_network() {
    let mut files = FakeSource::new(&["晴天"]);
    files.resolves = Resolves::File;
    let mut world = World::new(files, None);
    assert_eq!(world.call(query("晴天")).unwrap(), "没能播放：《晴天》无法通过网络播放");
}

#[test]
fn an_empty_library_says_so() {
    let mut world = World::new(FakeSource::new(&[]), None);
    assert_eq!(
        world.call(args(&[("random", Json::Bool(true))])).unwrap(),
        "曲库里没有可播放的歌曲"
    );
}

#[test]
fn stop_stops() {
    assert_eq!(Stop::new().call(Ok(())).unwrap(), "已停止播放");
    let e = BrainErr::Backend("offline".to_string());
    assert_eq!(Stop::new().call(Err(e.clone())), Err(e));
}

fn set(level: Json) -> Result<u8, BrainErr> {
    match SetVolume::new().level(&args(&[("level", level)]))? {
        Level::Whole(n) => Ok(SetVolume::clamp(n)),
        Level::Fraction(text) => {
            let value: f64 = text.parse().unwrap();
            Ok(SetVolume::clamp(value.round() as i64))
        }
    }
}

#[test]
fn the_volume_is_clamped_at_both_ends_rather_than_rejected() {
    assert_eq!(set(Json::Int(200)), Ok(100));
    assert_eq!(set(Json::Int(-5)), Ok(0));
    assert_eq!(set(Json::Int(30)), Ok(30));
    assert_eq!(set(Json::UInt(u64::MAX)), Ok(100));
    assert_eq!(SetVolume::new().call(30, Ok(())).unwrap(), "音量已调到 30");
    assert!(SetVolume::new().call(30, Err(BrainErr::Backend("x".to_string()))).is_err());
}

#[test]
fn a_volume_may_be_a_float_or_a_string() {
    assert_eq!(set(Json::parse("30.4").unwrap()), Ok(30));
    assert_eq!(set(Json::string("45")), Ok(45));
    assert_eq!(set(Json::string(" 45 ")), Ok(45));
    assert!(matches!(
        SetVolume::new().level(&Json::empty()),
        Err(BrainErr::InvalidArguments(_))
    ));
    assert_eq!(
        set(Json::string("响一点")),
        Err(BrainErr::InvalidArguments("`\"响一点\"` 不是一个音量数字，请给 0 到 100".to_string()))
    );
}

#[test]
fn the_story_brief_lifts_the_brevity_rule_and_carries_the_topic() {
    let brief = TellStory::new().call(&args(&[("topic", Json::string("小狗"))]));
    assert!(brief.contains("小狗"), "{brief}");
    assert!(brief.contains("三句话"), "{brief}");
    let brief = TellStory::new().call(&Json::empty());
    assert!(brief.contains("自己定"), "{brief}");
}

#[test]
fn the_tools_are_registrable_and_their_schemas_well_formed() {
    let tools = [
        VoiceTool::PlayMusic(PlayMusic::new()),
        VoiceTool::Stop(Stop::new()),
        VoiceTool::SetVolume(SetVolume::new()),
        VoiceTool::TellStory(TellStory::new()),
    ];
    let names: Vec<_> = tools.iter().map(|tool| tool.name()).collect();
    assert_eq!(names, ["play_music", "stop", "set_volume", "tell_story"]);
    for tool in &tools {
        let parameters = tool.parameters();
        assert_eq!(parameters.text_of("type"), Some("object"), "{}", tool.name());
        assert!(matches!(parameters.get("properties"), Some(Json::Object(_))));
        assert!(!tool.description().is_empty());
    }
}
