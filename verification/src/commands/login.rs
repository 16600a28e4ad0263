//! The sign-in: the address that the browser is sent to, and the code that
//! comes back.

use vstd::prelude::*;
use vstd::string::*;
use crate::auth::code::AuthError;
use crate::query::literal::{find, lemma_position, position};
use crate::text::{chars_of, occurs_at, occurs_here, slice_of, string_of};
use crate::utils::url::{build_url, list_text, param_views, parameterise_list, url_text};

verus! {

/// Where the service sends the browser back to.
pub const REDIRECT: &'static str = "http://127.0.0.1:5907";

/// Where the browser is sent to.
pub const AUTHORIZE: &'static str = "https://accounts.spotify.com/authorize";

/// What the program asks to be allowed: to read the private playlists, the
/// saved content and whom the user follows.
pub open spec fn scopes() -> Seq<Seq<char>> {
    seq!["playlist-read-private"@, "user-library-read"@, "user-follow-read"@]
}

/// The parameters of the address that the browser is sent to.
pub open spec fn authorize_params(client_id: Seq<char>, challenge: Seq<char>) -> Seq<
    (Seq<char>, Seq<char>),
> {
    seq![
        ("response_type"@, "code"@),
        ("client_id"@, client_id),
        ("scope"@, list_text(scopes(), 3)),
        ("code_challenge_method"@, "S256"@),
        ("code_challenge"@, challenge),
        ("redirect_uri"@, REDIRECT@),
    ]
}

fn pair(key: &str, value: &str) -> (r: (String, String))
    ensures
        r.0@ == key@,
        r.1@ == value@,
{
    (String::from_str(key), String::from_str(value))
}

/// The address that the browser is sent to for the sign-in.
pub fn authorize_url(client_id: &str, challenge: &str) -> (r: String)
    ensures
        r@ == url_text(AUTHORIZE@, authorize_params(client_id@, challenge@)),
{
    let mut scope: Vec<String> = Vec::new();
    scope.push(String::from_str("playlist-read-private"));
    scope.push(String::from_str("user-library-read"));
    scope.push(String::from_str("user-follow-read"));
    assert(crate::text::texts_of(scope@) =~= scopes());
    let scope_text = parameterise_list(scope);
    let mut params: Vec<(String, String)> = Vec::new();
    params.push(pair("response_type", "code"));
    params.push(pair("client_id", client_id));
    params.push(pair("scope", scope_text.as_str()));
    params.push(pair("code_challenge_method", "S256"));
    params.push(pair("code_challenge", challenge));
    params.push(pair("redirect_uri", REDIRECT));
    assert(param_views(params@) =~= authorize_params(client_id@, challenge@));
    build_url(AUTHORIZE, params)
}

/// The position of the first place at which `needle` stands in `hay`; the
/// length of `hay` where it stands nowhere.
pub open spec fn first_occurrence(hay: Seq<char>, needle: Seq<char>) -> int
    decreases hay.len(),
{
    if hay.len() == 0 || occurs_at(hay, needle, 0) {
        0
    } else {
        1 + first_occurrence(hay.drop_first(), needle)
    }
}

pub proof fn lemma_first_occurrence_is(hay: Seq<char>, needle: Seq<char>, n: int)
    requires
        0 <= n <= hay.len(),
        forall|j: int| 0 <= j < n ==> !#[trigger] occurs_at(hay, needle, j),
        n < hay.len() ==> occurs_at(hay, needle, n),
    ensures
        first_occurrence(hay, needle) == n,
    decreases hay.len(),
{
    if n > 0 {
        let t = hay.drop_first();
        assert(!occurs_at(hay, needle, 0));
        assert forall|j: int| 0 <= j < n - 1 implies !#[trigger] occurs_at(t, needle, j) by {
            assert(!occurs_at(hay, needle, j + 1));
            if j + needle.len() <= t.len() {
                assert(t.subrange(j, j + needle.len()) =~= hay.subrange(
                    j + 1,
                    j + 1 + needle.len(),
                ));
            }
        }
        if n - 1 < t.len() {
            assert(t.subrange(n - 1, n - 1 + needle.len()) =~= hay.subrange(n, n + needle.len()));
        }
        lemma_first_occurrence_is(t, needle, n - 1);
    }
}

/// The authorisation code in the parameters of the redirect. Of the
/// parameters only what stands before the first `&` is read. It must begin
/// with `code=`, and the code is what follows, up to the place where
/// `code=` stands again.
pub open spec fn code_spec(params: Seq<char>) -> Result<Seq<char>, AuthError> {
    let first = params.take(position(params, '&'));
    if !(first.len() >= 5 && first.take(5) == "code="@) {
        Err(AuthError::InvalidRedirect)
    } else {
        let rest = first.skip(5);
        Ok(rest.take(first_occurrence(rest, "code="@)))
    }
}

/// Reads the authorisation code out of the parameters of the redirect.
pub fn extract_code(params: String) -> (r: Result<String, AuthError>)
    ensures
        match r {
            Ok(code) => code_spec(params@) == Ok::<Seq<char>, AuthError>(code@),
            Err(e) => code_spec(params@) == Err::<Seq<char>, AuthError>(e),
        },
{
    let all = chars_of(params.as_str());
    let end = find(all.as_slice(), 0, '&');
    proof {
        assert(all@.skip(0) =~= all@);
        lemma_position(all@, '&');
    }
    let first = slice_of(all.as_slice(), 0, end);
    assert(first@ =~= params@.take(position(params@, '&')));
    let prefix = chars_of("code=");
    proof {
        reveal_strlit("code=");
    }
    if first.len() < 5 {
        return Err(AuthError::InvalidRedirect);
    }
    let head = slice_of(first.as_slice(), 0, 5);
    assert(head@ =~= first@.take(5));
    if !crate::text::chars_equal(head.as_slice(), prefix.as_slice()) {
        return Err(AuthError::InvalidRedirect);
    }
    let rest = slice_of(first.as_slice(), 5, first.len());
    assert(rest@ =~= first@.skip(5));
    let mut i: usize = 0;
    while i < rest.len()
        invariant
            i <= rest.len(),
            prefix@ == "code="@,
            prefix@.len() == 5,
            forall|j: int| 0 <= j < i ==> !#[trigger] occurs_at(rest@, prefix@, j),
        ensures
            i <= rest.len(),
            prefix@ == "code="@,
            forall|j: int| 0 <= j < i ==> !#[trigger] occurs_at(rest@, prefix@, j),
            i < rest.len() ==> occurs_at(rest@, prefix@, i as int),
        decreases rest.len() - i,
    {
        if rest.len() - i >= 5 && occurs_here(rest.as_slice(), prefix.as_slice(), i) {
            break ;
        }
        i += 1;
    }
    proof {
        lemma_first_occurrence_is(rest@, "code="@, i as int);
    }
    let code = slice_of(rest.as_slice(), 0, i);
    assert(code@ =~= rest@.take(i as int));
    Ok(string_of(code.as_slice()))
}

} // verus!
