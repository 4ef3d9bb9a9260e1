//! The speaker's conversation history.

use crate::xiaoai::account::AuthData;
use crate::xiaoai::op::Device;
use vstd::prelude::*;

verus! {

/// The query for the newest records.
#[derive(Debug)]
pub struct LastAskPayload {
    pub user_id: i64,
    pub service_token: String,
    pub device_id: String,
    pub hardware: String,
    pub timestamp: usize,
    pub limit: usize,
}

impl LastAskPayload {
    /// A query made at `timestamp`, in milliseconds since the Unix epoch, for at
    /// most `limit` records.
    pub fn new(auth_data: &AuthData, device: &Device, limit: usize, timestamp: usize) -> (r: Self)
        ensures
            r.user_id == auth_data.user_id,
            r.service_token@ == auth_data.service_token@,
            r.device_id@ == device.device_id@,
            r.hardware@ == device.hardware@,
            r.timestamp == timestamp,
            r.limit == limit,
    {
        Self {
            user_id: auth_data.user_id,
            service_token: auth_data.service_token.clone(),
            device_id: device.device_id.clone(),
            hardware: device.hardware.clone(),
            timestamp,
            limit,
        }
    }
}

/// The reply to a [`LastAskPayload`].
#[derive(Debug)]
pub struct LastAskResponse {
    pub data: Data,
}

impl LastAskResponse {
    /// The newest record.
    pub fn first(&self) -> (r: Option<&Record>)
        ensures
            r is Some <==> self.data.records@.len() > 0,
            r matches Some(record) ==> *record == self.data.records@[0],
    {
        if self.data.records.len() > 0 {
            Some(&self.data.records[0])
        } else {
            None
        }
    }
}

#[derive(Debug)]
pub struct Data {
    pub records: Vec<Record>,
    pub next_end_time: usize,
}

/// One exchange with the speaker.
#[derive(Debug)]
pub struct Record {
    pub answers: Vec<Answer>,
    pub time: usize,
    pub query: String,
    pub request_id: String,
}

/// What the built-in assistant answered.
#[derive(Debug)]
pub struct Answer {
    pub answer_type: String,
    pub tts: Option<Tts>,
    pub audio: Option<Audio>,
}

#[derive(Debug)]
pub struct Tts {
    pub text: String,
}

#[derive(Debug)]
pub struct Audio {
    pub audio_info_list: Vec<AudioInfo>,
}

#[derive(Debug)]
pub struct AudioInfo {
    pub title: String,
    pub artist: String,
    pub cp_name: String,
}

} // verus!
