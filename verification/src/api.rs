//! The requests to the catalogue service.

use vstd::prelude::*;
use vstd::string::*;
use crate::text::{nat_text, string_of, u128_text};
use crate::utils::url::{build_url, param_views, url_text};

verus! {

/// What is asked of the service.
#[derive(Clone, Copy, Debug, PartialEq, Eq, Structural)]
pub enum QueryType {
    UserPlaylist,
    UserFollowing,
    UserSavedAlbums,
    UserSavedTracks,
    Search,
    /// Nothing behind the address of the service.
    Root,
}

impl QueryType {
    /// What stands behind the address of the service for this kind of
    /// request.
    pub open spec fn path_spec(self) -> Seq<char> {
        match self {
            QueryType::UserPlaylist => "/me/playlists"@,
            QueryType::UserFollowing => "/me/following"@,
            QueryType::UserSavedAlbums => "/me/albums"@,
            QueryType::UserSavedTracks => "/me/tracks"@,
            QueryType::Search => "/search"@,
            QueryType::Root => ""@,
        }
    }

    /// The address for this kind of request at the service `start`.
    pub fn make_endpoint(&self, start: &str) -> (r: String)
        ensures
            r@ == start@ + self.path_spec(),
    {
        let path = match self {
            QueryType::UserPlaylist => "/me/playlists",
            QueryType::UserFollowing => "/me/following",
            QueryType::UserSavedAlbums => "/me/albums",
            QueryType::UserSavedTracks => "/me/tracks",
            QueryType::Search => "/search",
            QueryType::Root => "",
        };
        let mut out = String::from_str(start);
        out.append(path);
        out
    }
}

/// A request: an address with the window of the results that is asked
/// for.
#[derive(Debug, PartialEq)]
pub struct APIQuery {
    pub url: String,
    pub limit: Option<u32>,
    pub offset: Option<u32>,
    pub fields: Option<String>,
}

/// The address of the service.
pub const API_ENDPOINT: &'static str = "https://api.spotify.com/v1";

/// The parameters of a request: the limit and the offset, each where it is
/// given.
pub open spec fn window_params(limit: Option<u32>, offset: Option<u32>) -> Seq<
    (Seq<char>, Seq<char>),
> {
    let first = match limit {
        Some(l) => seq![("limit"@, nat_text(l as nat))],
        None => seq![],
    };
    match offset {
        Some(o) => first.push(("offset"@, nat_text(o as nat))),
        None => first,
    }
}

fn number_text(n: u32) -> (r: String)
    ensures
        r@ == nat_text(n as nat),
{
    let digits = u128_text(n as u128);
    string_of(digits.as_slice())
}

impl APIQuery {
    pub fn new() {
    }

    /// The request for the playlists of the user.
    pub fn playlists(limit: Option<u32>, offset: Option<u32>) -> (r: APIQuery)
        ensures
            r.url@ == API_ENDPOINT@ + QueryType::UserPlaylist.path_spec(),
            r.limit == limit,
            r.offset == offset,
            r.fields is None,
    {
        APIQuery {
            url: QueryType::UserPlaylist.make_endpoint(API_ENDPOINT),
            limit,
            offset,
            fields: None,
        }
    }

    /// The request for the saved albums of the user.
    pub fn saved_albums(limit: Option<u32>, offset: Option<u32>) -> (r: APIQuery)
        ensures
            r.url@ == API_ENDPOINT@ + QueryType::UserSavedAlbums.path_spec(),
            r.limit == limit,
            r.offset == offset,
            r.fields is None,
    {
        APIQuery {
            url: QueryType::UserSavedAlbums.make_endpoint(API_ENDPOINT),
            limit,
            offset,
            fields: None,
        }
    }

    /// The request for the tracks of a playlist. It goes to the address of
    /// the saved albums, without a window and with an empty list of fields.
    pub fn playlist_tracks(playlist_id: String) -> (r: APIQuery)
        ensures
            r.url@ == API_ENDPOINT@ + QueryType::UserSavedAlbums.path_spec(),
            r.limit is None,
            r.offset is None,
            r.fields is Some,
            r.fields->0@ == Seq::<char>::empty(),
    {
        APIQuery {
            url: QueryType::UserSavedAlbums.make_endpoint(API_ENDPOINT),
            limit: None,
            offset: None,
            fields: Some(String::new()),
        }
    }

    /// The parameters of the request.
    pub fn params(&self) -> (r: Vec<(String, String)>)
        ensures
            param_views(r@) == window_params(self.limit, self.offset),
    {
        let mut params: Vec<(String, String)> = Vec::new();
        if let Some(limit) = self.limit {
            params.push((String::from_str("limit"), number_text(limit)));
        }
        if let Some(offset) = self.offset {
            params.push((String::from_str("offset"), number_text(offset)));
        }
        assert(param_views(params@) =~= window_params(self.limit, self.offset));
        params
    }

    /// The address that the request is sent to: its address with its
    /// parameters.
    pub fn request_url(&self) -> (r: String)
        ensures
            r@ == url_text(self.url@, window_params(self.limit, self.offset)),
    {
        let params = self.params();
        build_url(self.url.as_str(), params)
    }

    /// The value of the header that authorises a request with the token
    /// `token`.
    pub fn authorization(token: &str) -> (r: String)
        ensures
            r@ == "Bearer "@ + token@,
    {
        let mut out = String::from_str("Bearer ");
        out.append(token);
        out
    }
}

} // verus!
