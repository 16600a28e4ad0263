//! What the program keeps while it runs.

use vstd::prelude::*;
use vstd::string::*;
use crate::auth::code::AuthFileContent;
use crate::config::user_config::UserConfig;
use crate::query::data::Data;

verus! {

/// The identifier under which the program is known to the service.
pub const CLIENT_ID: &'static str = "d46aab9576a9435593e70791f3cf70d7";

/// The tokens, the loaded collections and the settings.
#[derive(Debug, PartialEq)]
pub struct AppContext {
    pub client_id: String,
    pub token: String,
    pub refresh_token: String,
    pub expires_after: u64,
    pub data: Data,
    pub user_config: UserConfig,
}

impl Default for AppContext {
    fn default() -> (r: Self)
        ensures
            r.client_id@ == CLIENT_ID@,
            r.token@ == Seq::<char>::empty(),
            r.refresh_token@ == Seq::<char>::empty(),
            r.expires_after == 0,
            r.data.playlist_data is None,
            r.data.saved_album_data is None,
            r.user_config.debug == false,
    {
        AppContext {
            client_id: String::from_str(CLIENT_ID),
            token: String::new(),
            refresh_token: String::new(),
            expires_after: 0,
            data: Data::default(),
            user_config: UserConfig::default(),
        }
    }
}

impl AppContext {
    /// The context of a run that found the tokens `auth` on disk and the
    /// settings `user_config`.
    pub fn with_auth(auth: AuthFileContent, user_config: UserConfig) -> (r: Self)
        ensures
            r.client_id@ == CLIENT_ID@,
            r.token == auth.token,
            r.refresh_token == auth.refresh_token,
            r.expires_after == auth.expires_after,
            r.data.playlist_data is None,
            r.data.saved_album_data is None,
            r.user_config == user_config,
    {
        let mut cx = AppContext::default();
        cx.token = auth.token;
        cx.refresh_token = auth.refresh_token;
        cx.expires_after = auth.expires_after;
        cx.user_config = user_config;
        cx
    }

    /// Whether nobody is signed in: there is no token.
    pub fn signed_out(&self) -> (r: bool)
        ensures
            r == (self.token@.len() == 0),
    {
        self.token.as_str().is_empty()
    }
}

} // verus!
