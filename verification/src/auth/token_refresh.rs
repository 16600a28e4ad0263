//! Trading a refresh token for new tokens.

use vstd::prelude::*;
use vstd::string::*;
use crate::auth::code::AccessTokenResponse;
use crate::config::app_config::AppContext;

verus! {

/// What is sent to the service to refresh the tokens.
#[derive(Debug, PartialEq)]
pub struct RefreshTokenRequestParams {
    pub grant_type: String,
    pub refresh_token: String,
    pub client_id: String,
}

/// What is sent to refresh the tokens of the context `cx`.
pub fn refresh_request(cx: &AppContext) -> (r: RefreshTokenRequestParams)
    ensures
        r.grant_type@ == "refresh_token"@,
        r.refresh_token@ == cx.refresh_token@,
        r.client_id@ == cx.client_id@,
{
    RefreshTokenRequestParams {
        grant_type: String::from_str("refresh_token"),
        refresh_token: cx.refresh_token.clone(),
        client_id: cx.client_id.clone(),
    }
}

/// Takes the tokens that arrived at the time `now` into the context.
pub fn apply_refresh(cx: &mut AppContext, response: &AccessTokenResponse, now: u64)
    requires
        now + response.expires_in <= u64::MAX,
    ensures
        final(cx).token@ == response.access_token@,
        final(cx).refresh_token@ == response.refresh_token@,
        final(cx).expires_after == now + response.expires_in,
        final(cx).client_id == old(cx).client_id,
        final(cx).data == old(cx).data,
        final(cx).user_config == old(cx).user_config,
{
    cx.token = response.access_token.clone();
    cx.refresh_token = response.refresh_token.clone();
    cx.expires_after = now + response.expires_in;
}

} // verus!
