//! Remote control of XiaoAi speakers (小爱音箱) through Xiaomi's cloud APIs.
//!
//! - [`account`]: the two-step login and what its replies come to.
//! - [`verification`]: the interactive identity verification.
//! - [`redact`]: keeping credentials out of messages.
//! - [`op`]: operations on a speaker.
//! - [`record`]: the speaker's conversation history.
//! - [`sid`]: the Xiaomi service a login is scoped to.

pub mod account;
pub mod error;
pub mod op;
pub mod record;
pub mod redact;
pub mod serde_util;
pub mod sid;
pub mod verification;

pub use account::{
    absolute_url, login_flow, refresh, refreshed, try_login, AuthData, Grant, LoginFlow,
    LoginPayload, LoginPayload2, LoginResponse, LoginResponse2,
};
pub use error::XiaoaiErr;
pub use op::{
    device_by_alias, Device, DeviceListPayload, DeviceListResponse, OpPayload, OpPayloadBuilder,
    OpResponse, XiaoaiStatus,
};
pub use verification::Verification;
pub use record::{
    Answer, Audio, AudioInfo, Data, LastAskPayload, LastAskResponse, Record, Tts,
};
