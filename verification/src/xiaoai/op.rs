//! Operations on a speaker.

use crate::json::{json_text, Json, JsonView};
use crate::random::{alphanumeric, alphanumeric_text};
use crate::text::{join, joined, same, views};
use crate::xiaoai::account::AuthData;
use crate::xiaoai::error::{XiaoaiErr, XiaoaiErrView};
use vstd::prelude::*;

verus! {

/// A speaker as Xiaomi lists it.
#[derive(Debug, Clone)]
pub struct Device {
    pub alias: String,
    pub device_id: String,
    pub hardware: String,
    pub others: Json,
}

/// What a [`Device`] says.
pub struct DeviceView {
    pub alias: Seq<char>,
    pub device_id: Seq<char>,
    pub hardware: Seq<char>,
    pub others: JsonView,
}

impl View for Device {
    type V = DeviceView;

    open spec fn view(&self) -> DeviceView {
        DeviceView {
            alias: self.alias@,
            device_id: self.device_id@,
            hardware: self.hardware@,
            others: self.others@,
        }
    }
}

impl Device {
    /// The same device again.
    pub fn copy(&self) -> (r: Device)
        ensures
            r@ == self@,
    {
        Device {
            alias: self.alias.clone(),
            device_id: self.device_id.clone(),
            hardware: self.hardware.clone(),
            others: self.others.copy(),
        }
    }
}

/// The reply to a device list query.
#[derive(Debug)]
pub struct DeviceListResponse {
    pub data: Vec<Device>,
}

/// The aliases of `devices`.
pub open spec fn aliases(devices: Seq<Device>) -> Seq<Seq<char>> {
    devices.map_values(|d: Device| d.alias@)
}

/// Find a device by its alias in the reply to a device list query, or in the words
/// of the query's failure.
pub fn device_by_alias(reply: Result<DeviceListResponse, String>, alias: &str) -> (r: Result<
    Device,
    XiaoaiErr,
>)
    ensures
        match reply {
            Err(e) => r matches Err(err) && err@ == XiaoaiErrView::Op(
                "Device list query failed: "@ + e@,
            ),
            Ok(list) => match r {
                Ok(device) => exists|i: int|
                    {
                        &&& 0 <= i < list.data@.len()
                        &&& (#[trigger] list.data@[i])@ == device@
                        &&& device.alias@ == alias@
                        &&& forall|j: int| 0 <= j < i ==> (#[trigger] list.data@[j]).alias@ != alias@
                    },
                Err(err) => {
                    &&& forall|j: int|
                        0 <= j < list.data@.len() ==> (#[trigger] list.data@[j]).alias@ != alias@
                    &&& err@ == XiaoaiErrView::Op(
                        "Device "@ + alias@ + " not found in "@ + joined(
                            aliases(list.data@),
                            ", "@,
                        ),
                    )
                },
            },
        },
{
    let list = match reply {
        Ok(list) => list,
        Err(e) => {
            let mut message = "Device list query failed: ".to_owned();
            message.append(e.as_str());
            return Err(XiaoaiErr::Op(message));
        },
    };
    let devices = &list.data;
    let mut names: Vec<String> = Vec::new();
    let mut i: usize = 0;
    while i < devices.len()
        invariant
            i <= devices@.len(),
            devices@ == list.data@,
            reply == Ok::<DeviceListResponse, String>(list),
            names@.len() == i,
            forall|j: int| 0 <= j < i ==> (#[trigger] devices@[j]).alias@ != alias@,
            forall|j: int| 0 <= j < i ==> (#[trigger] names@[j])@ == devices@[j].alias@,
        decreases devices@.len() - i,
    {
        let device = &devices[i];
        if same(device.alias.as_str(), alias) {
            let found = device.copy();
            assert(list.data@[i as int]@ == found@);
            return Ok(found);
        }
        names.push(device.alias.clone());
        i += 1;
    }
    assert(views(names@) =~= aliases(list.data@));
    let mut message = "Device ".to_owned();
    message.append(alias);
    message.append(" not found in ");
    message.append(join(&names, ", ").as_str());
    Err(XiaoaiErr::Op(message))
}

/// Whether `id` is a request id: a fixed prefix and 30 letters or digits.
pub open spec fn is_request_id(id: Seq<char>) -> bool {
    &&& id.len() == 38
    &&& "app_ios_"@.is_prefix_of(id)
    &&& forall|i: int| 8 <= i < 38 ==> alphanumeric(#[trigger] id[i])
}

/// Every request carries a fresh opaque request id.
pub fn request_id() -> (r: String)
    ensures
        is_request_id(r@),
{
    let mut out = "app_ios_".to_owned();
    let tail = alphanumeric_text(30);
    out.append(tail.as_str());
    proof {
        reveal_strlit("app_ios_");
        assert forall|i: int| 8 <= i < 38 implies alphanumeric(#[trigger] out@[i]) by {
            assert(out@[i] == tail@[i - 8]);
        }
        assert("app_ios_"@ =~= out@.take(8));
    }
    out
}

/// The query for the account's devices.
#[derive(Debug)]
pub struct DeviceListPayload {
    pub user_id: i64,
    pub service_token: String,
    pub master: i64,
    pub request_id: String,
}

impl DeviceListPayload {
    pub fn new(auth_data: &AuthData) -> (r: Self)
        ensures
            r.user_id == auth_data.user_id,
            r.service_token@ == auth_data.service_token@,
            r.master == 0,
            is_request_id(r.request_id@),
    {
        Self {
            user_id: auth_data.user_id,
            service_token: auth_data.service_token.clone(),
            master: 0,
            request_id: request_id(),
        }
    }
}

/// What an operation tells the speaker.
pub trait Message {
    /// The document.
    spec fn doc(&self) -> JsonView;

    /// The document that goes over the wire.
    fn to_json(&self) -> (r: Json)
        ensures
            r@ == self.doc(),
    ;
}

/// Say something.
#[derive(Debug)]
pub struct Speak {
    pub text: String,
}

impl Message for Speak {
    open spec fn doc(&self) -> JsonView {
        JsonView::empty().with("text"@, JsonView::Str(self.text@))
    }

    fn to_json(&self) -> (r: Json) {
        Json::empty().with("text", Json::string(self.text.as_str()))
    }
}

/// Set the volume.
#[derive(Debug)]
pub struct Volume {
    pub volume: usize,
}

impl Message for Volume {
    open spec fn doc(&self) -> JsonView {
        JsonView::empty().with("volume"@, JsonView::Int(self.volume as int))
    }

    fn to_json(&self) -> (r: Json) {
        Json::empty().with("volume", Json::UInt(self.volume as u64))
    }
}

/// Pause or resume.
#[derive(Debug)]
pub struct Play {
    pub action: String,
}

impl Message for Play {
    open spec fn doc(&self) -> JsonView {
        JsonView::empty().with("action"@, JsonView::Str(self.action@))
    }

    fn to_json(&self) -> (r: Json) {
        Json::empty().with("action", Json::string(self.action.as_str()))
    }
}

/// Ask for the playback status.
#[derive(Debug)]
pub struct Status {}

impl Message for Status {
    open spec fn doc(&self) -> JsonView {
        JsonView::empty()
    }

    fn to_json(&self) -> (r: Json) {
        Json::empty()
    }
}

/// Play a URL.
#[derive(Debug)]
pub struct PlayUrl {
    pub url: String,
    pub kind: usize,
}

impl Message for PlayUrl {
    open spec fn doc(&self) -> JsonView {
        JsonView::empty().with("url"@, JsonView::Str(self.url@)).with(
            "type"@,
            JsonView::Int(self.kind as int),
        )
    }

    fn to_json(&self) -> (r: Json) {
        Json::empty().with("url", Json::string(self.url.as_str())).with(
            "type",
            Json::UInt(self.kind as u64),
        )
    }
}

/// One call on the speaker's bus.
#[derive(Debug)]
pub struct Op<T: Message> {
    pub method: String,
    pub path: String,
    pub message: T,
}

impl<T: Message> Op<T> {
    /// The message as it travels: a document inside a string.
    pub fn message_text(&self) -> (r: String)
        ensures
            r@ == json_text(self.message.doc()),
    {
        self.message.to_json().render()
    }
}

/// One operation; build it with [`OpPayloadBuilder`].
#[derive(Debug)]
pub struct OpPayload<T: Message> {
    pub user_id: i64,
    pub service_token: String,
    pub request_id: String,
    pub device_id: String,
    pub op: Op<T>,
}

/// What every operation shares.
#[derive(Debug)]
pub struct OpPayloadBuilder {
    pub user_id: i64,
    pub service_token: String,
    pub request_id: String,
    pub device_id: String,
}

/// Whether `payload` is the call `method` on `path`, in the envelope of `builder`.
pub open spec fn carries<T: Message>(
    payload: OpPayload<T>,
    builder: OpPayloadBuilder,
    path: Seq<char>,
    method: Seq<char>,
    doc: JsonView,
) -> bool {
    &&& payload.user_id == builder.user_id
    &&& payload.service_token == builder.service_token
    &&& payload.request_id == builder.request_id
    &&& payload.device_id == builder.device_id
    &&& payload.op.path@ == path
    &&& payload.op.method@ == method
    &&& payload.op.message.doc() == doc
}

impl Default for OpPayloadBuilder {
    fn default() -> (r: Self)
        ensures
            r.user_id == 0,
            r.service_token@.len() == 0,
            r.device_id@.len() == 0,
            is_request_id(r.request_id@),
    {
        OpPayloadBuilder {
            user_id: 0,
            service_token: String::new(),
            request_id: request_id(),
            device_id: String::new(),
        }
    }
}

impl OpPayloadBuilder {
    pub fn new(auth_data: &AuthData, device_id: &str) -> (r: Self)
        ensures
            r.user_id == auth_data.user_id,
            r.service_token@ == auth_data.service_token@,
            r.device_id@ == device_id@,
            is_request_id(r.request_id@),
    {
        Self {
            user_id: auth_data.user_id,
            service_token: auth_data.service_token.clone(),
            request_id: request_id(),
            device_id: device_id.to_owned(),
        }
    }

    pub fn with_auth_data(self, auth_data: AuthData) -> (r: Self)
        ensures
            r.user_id == auth_data.user_id,
            r.service_token == auth_data.service_token,
            r.request_id == self.request_id,
            r.device_id == self.device_id,
    {
        Self {
            user_id: auth_data.user_id,
            service_token: auth_data.service_token,
            request_id: self.request_id,
            device_id: self.device_id,
        }
    }

    pub fn with_device_id(self, device_id: String) -> (r: Self)
        ensures
            r == (OpPayloadBuilder { device_id, ..self }),
    {
        Self {
            user_id: self.user_id,
            service_token: self.service_token,
            request_id: self.request_id,
            device_id,
        }
    }

    /// Wrap one call in the envelope every operation shares.
    pub fn build<T: Message>(self, path: &str, method: &str, message: T) -> (r: OpPayload<T>)
        ensures
            carries(r, self, path@, method@, message.doc()),
            r.op.message == message,
    {
        OpPayload {
            user_id: self.user_id,
            service_token: self.service_token,
            request_id: self.request_id,
            device_id: self.device_id,
            op: Op { method: method.to_owned(), path: path.to_owned(), message },
        }
    }

    /// Say `text`.
    pub fn speak(self, text: &str) -> (r: OpPayload<Speak>)
        ensures
            carries(
                r,
                self,
                "mibrain"@,
                "text_to_speech"@,
                JsonView::empty().with("text"@, JsonView::Str(text@)),
            ),
    {
        self.build("mibrain", "text_to_speech", Speak { text: text.to_owned() })
    }

    /// Set the volume.
    pub fn volume(self, volume: usize) -> (r: OpPayload<Volume>)
        ensures
            carries(
                r,
                self,
                "mediaplayer"@,
                "player_set_volume"@,
                JsonView::empty().with("volume"@, JsonView::Int(volume as int)),
            ),
    {
        self.build("mediaplayer", "player_set_volume", Volume { volume })
    }

    /// Pause playback.
    pub fn pause(self) -> (r: OpPayload<Play>)
        ensures
            carries(
                r,
                self,
                "mediaplayer"@,
                "player_play_operation"@,
                JsonView::empty().with("action"@, JsonView::Str("pause"@)),
            ),
    {
        self.build("mediaplayer", "player_play_operation", Play { action: "pause".to_owned() })
    }

    /// Resume playback.
    pub fn play(self) -> (r: OpPayload<Play>)
        ensures
            carries(
                r,
                self,
                "mediaplayer"@,
                "player_play_operation"@,
                JsonView::empty().with("action"@, JsonView::Str("play"@)),
            ),
    {
        self.build("mediaplayer", "player_play_operation", Play { action: "play".to_owned() })
    }

    /// Ask for the playback status; see [`XiaoaiStatus`].
    pub fn status(self) -> (r: OpPayload<Status>)
        ensures
            carries(r, self, "mediaplayer"@, "player_get_play_status"@, JsonView::empty()),
    {
        self.build("mediaplayer", "player_get_play_status", Status {  })
    }

    /// Play `url`.
    pub fn play_url(self, url: &str) -> (r: OpPayload<PlayUrl>)
        ensures
            carries(
                r,
                self,
                "mediaplayer"@,
                "player_play_url"@,
                JsonView::empty().with("url"@, JsonView::Str(url@)).with(
                    "type"@,
                    JsonView::Int(1),
                ),
            ),
    {
        self.build("mediaplayer", "player_play_url", PlayUrl { url: url.to_owned(), kind: 1 })
    }
}

/// Playback status of the speaker.
#[derive(Debug, Clone, Copy, PartialEq, Eq, Structural)]
pub enum XiaoaiStatus {
    Idle,
    Playing,
    Paused,
    Stopped,
    Unknown,
}

/// The status that a code stands for.
pub open spec fn status_of(code: Option<usize>) -> XiaoaiStatus {
    match code {
        Some(0) => XiaoaiStatus::Idle,
        Some(1) => XiaoaiStatus::Playing,
        Some(2) => XiaoaiStatus::Paused,
        Some(3) => XiaoaiStatus::Stopped,
        _ => XiaoaiStatus::Unknown,
    }
}

impl XiaoaiStatus {
    /// The status that `code` stands for.
    pub fn from_code(code: usize) -> (r: Self)
        ensures
            r == status_of(Some(code)),
    {
        if code == 0 {
            XiaoaiStatus::Idle
        } else if code == 1 {
            XiaoaiStatus::Playing
        } else if code == 2 {
            XiaoaiStatus::Paused
        } else if code == 3 {
            XiaoaiStatus::Stopped
        } else {
            XiaoaiStatus::Unknown
        }
    }

    /// Whether a playback session is in progress. A pause counts: whoever waits
    /// for the end must not resume in the middle of a song.
    pub fn in_session(&self) -> (r: bool)
        ensures
            r == (*self == XiaoaiStatus::Playing || *self == XiaoaiStatus::Paused),
    {
        match self {
            XiaoaiStatus::Playing => true,
            XiaoaiStatus::Paused => true,
            _ => false,
        }
    }
}

/// What the speaker said to an operation.
#[derive(Debug)]
pub struct Info {
    pub status: Option<usize>,
    pub volume: Option<usize>,
    pub loop_type: Option<usize>,
    pub path: Option<String>,
    pub others: Json,
}

#[derive(Debug)]
pub struct OpData {
    pub info: Option<Info>,
}

#[derive(Debug)]
pub struct OpResponse {
    pub data: OpData,
}

impl OpResponse {
    /// The status code the response carries.
    pub open spec fn code(&self) -> Option<usize> {
        match self.data.info {
            Some(info) => info.status,
            None => None,
        }
    }

    /// Playback status, or [`XiaoaiStatus::Unknown`] if the response carried none,
    /// as is the case for every operation other than the status query.
    pub fn status(&self) -> (r: XiaoaiStatus)
        ensures
            r == status_of(self.code()),
    {
        match &self.data.info {
            Some(info) => match info.status {
                Some(code) => XiaoaiStatus::from_code(code),
                None => XiaoaiStatus::Unknown,
            },
            None => XiaoaiStatus::Unknown,
        }
    }
}

/// An operation carries what it was built with: the login and the device of its builder,
/// the path and method it is for, and the document it sends, and no other.
pub proof fn an_operation_carries_what_it_was_built_with<T: Message>(
    payload: OpPayload<T>,
    builder: OpPayloadBuilder,
    path: Seq<char>,
    method: Seq<char>,
    doc: JsonView,
)
    requires
        carries(payload, builder, path, method, doc),
    ensures
        payload.user_id == builder.user_id,
        payload.service_token@ == builder.service_token@,
        payload.request_id@ == builder.request_id@,
        payload.device_id@ == builder.device_id@,
        payload.op.path@ == path,
        payload.op.method@ == method,
        payload.op.message.doc() == doc,
{
}

/// The documents that are sent say what the messages hold: the text to speak, the volume
/// to set, the action to take, the address to play from and its kind.
pub proof fn a_message_sends_what_it_holds(
    speak: Speak,
    volume: Volume,
    play: Play,
    status: Status,
    play_url: PlayUrl,
)
    ensures
        speak.doc().get("text"@) == Some(JsonView::Str(speak.text@)),
        volume.doc().get("volume"@) == Some(JsonView::Int(volume.volume as int)),
        play.doc().get("action"@) == Some(JsonView::Str(play.action@)),
        status.doc() == JsonView::Object(Seq::empty()),
        play_url.doc().get("url"@) == Some(JsonView::Str(play_url.url@)),
        play_url.doc().get("type"@) == Some(JsonView::Int(play_url.kind as int)),
{
    reveal_strlit("url");
    reveal_strlit("type");
    reveal_with_fuel(crate::json::member, 3);
    assert("url"@.len() == 3 && "type"@.len() == 4);
}

/// A request id is `app_ios_` and thirty letters and digits.
pub proof fn a_request_id_has_its_form(id: Seq<char>)
    ensures
        is_request_id(id) <==> id.len() == 38 && id.take(8) == "app_ios_"@ && forall|i: int|
            8 <= i < id.len() ==> ('a' <= #[trigger] id[i] <= 'z' || 'A' <= id[i] <= 'Z' || '0'
                <= id[i] <= '9'),
{
    reveal_strlit("app_ios_");
    if id.len() == 38 {
        assert(forall|i: int|
            8 <= i < id.len() ==> (alphanumeric(#[trigger] id[i]) <==> ('a' <= id[i] <= 'z' || 'A'
                <= id[i] <= 'Z' || '0' <= id[i] <= '9')));
    }
}

/// Each status has its own code, and a speaker that reports none, or any other, is in a
/// status that is not known.
pub proof fn each_status_has_its_own_code(code: Option<usize>)
    ensures
        status_of(code) == XiaoaiStatus::Idle <==> code == Some(0usize),
        status_of(code) == XiaoaiStatus::Playing <==> code == Some(1usize),
        status_of(code) == XiaoaiStatus::Paused <==> code == Some(2usize),
        status_of(code) == XiaoaiStatus::Stopped <==> code == Some(3usize),
        status_of(code) == XiaoaiStatus::Unknown <==> code is None || code->0 > 3,
{
}

/// The status is the one that the speaker reports, where it reports any.
pub proof fn a_report_is_read_as_it_is(resp: OpResponse)
    ensures
        match resp.data.info {
            Some(info) => resp.code() == info.status,
            None => resp.code() is None,
        },
{
}

/// What is said of a device is what it holds, and a list of devices names each of them.
pub proof fn a_device_shows_its_fields(device: Device, devices: Seq<Device>)
    ensures
        device@.alias == device.alias@,
        device@.device_id == device.device_id@,
        device@.hardware == device.hardware@,
        device@.others == device.others@,
        aliases(devices).len() == devices.len(),
        forall|i: int| 0 <= i < devices.len() ==> #[trigger] aliases(devices)[i] == devices[i].alias@,
{
}

} // verus!
