//! The query for the account's devices.

use crate::mi_api::account::AuthData;
use crate::xiaoai::op::{is_request_id, request_id};
use vstd::prelude::*;

verus! {

/// The query for the account's devices.
#[derive(Debug)]
pub struct DeviceListPayload {
    pub user_id: i64,
    pub service_token: String,
    pub master: i64,
    pub request_id: String,
}

impl DeviceListPayload {
    /// The query for the devices of the account that is logged in.
    pub fn new(auth_data: &AuthData) -> (r: Self)
        ensures
            r.user_id == auth_data.user_id,
            r.service_token@ == auth_data.service_token@,
            r.master == 0,
            is_request_id(r.request_id@),
    {
        DeviceListPayload {
            user_id: auth_data.user_id,
            service_token: auth_data.service_token.clone(),
            master: 0,
            request_id: request_id(),
        }
    }
}

} // verus!
