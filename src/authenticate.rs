use vstd::prelude::*;

verus! {

/// OAuth client credentials and the tokens obtained with them.
#[derive(Clone, Debug, PartialEq, Eq)]
pub struct Creds {
    pub client_id: String,
    pub client_secret: String,
    pub token: String,
    pub refresh_token: String,
}

/// Why authentication failed.
#[derive(Clone, Copy, Debug, PartialEq, Eq)]
pub enum AuthError {
    /// The pasted redirect URL is not an absolute URL.
    InvalidUrl,
    /// The redirect URL lacks its `code` or its `state` query parameter.
    MissingParameters,
    /// The token exchange gave an empty access or refresh token.
    EmptyToken,
}

/// The query pairs of `url`, percent-decoded, in order; `None` where `url`
/// is not an absolute URL.
pub uninterp spec fn query_pairs_of(url: Seq<char>) -> Option<Seq<(Seq<char>, Seq<char>)>>;

/// The views of a list of key/value pairs.
pub open spec fn pairs_view(pairs: Seq<(String, String)>) -> Seq<(Seq<char>, Seq<char>)> {
    pairs.map_values(|p: (String, String)| (p.0@, p.1@))
}

/// The value of the last pair whose key is `key`.
pub open spec fn last_value(pairs: Seq<(Seq<char>, Seq<char>)>, key: Seq<char>) -> Option<
    Seq<char>,
>
    decreases pairs.len(),
{
    if pairs.len() == 0 {
        None
    } else if pairs.last().0 == key {
        Some(pairs.last().1)
    } else {
        last_value(pairs.drop_last(), key)
    }
}

/// The `code` and `state` values of a redirect's query, where both occur;
/// a repeated key counts with its last value.
pub open spec fn code_and_state_of(pairs: Seq<(Seq<char>, Seq<char>)>) -> Option<
    (Seq<char>, Seq<char>),
> {
    match (last_value(pairs, "code"@), last_value(pairs, "state"@)) {
        (Some(c), Some(s)) => Some((c, s)),
        _ => None,
    }
}

/// Relies on url's `Url::parse` and `Url::query_pairs`: parsing fails on a
/// string that is not an absolute URL; otherwise the query's key/value pairs
/// come out decoded and in order.
#[verifier::external_body]
fn parse_query_pairs(url: &str) -> (r: Option<Vec<(String, String)>>)
    ensures
        match r {
            None => query_pairs_of(url@) is None,
            Some(v) => query_pairs_of(url@) == Some(pairs_view(v@)),
        },
{
    match url::Url::parse(url) {
        Ok(u) => Some(u.query_pairs().map(|(k, v)| (k.into_owned(), v.into_owned())).collect()),
        Err(_) => None,
    }
}

/// The `code` and `state` values among a redirect URL's query pairs, the
/// last of each where one repeats; `None` where either is missing.
pub fn code_and_state(pairs: &Vec<(String, String)>) -> (r: Option<(String, String)>)
    ensures
        match r {
            Some((c, s)) => code_and_state_of(pairs_view(pairs@)) == Some((c@, s@)),
            None => code_and_state_of(pairs_view(pairs@)) is None,
        },
{
    proof {
        reveal_strlit("code");
        reveal_strlit("state");
    }
    assert("code"@ != "state"@) by {
        assert("code"@.len() != "state"@.len());
    }
    let code_key = String::from_str("code");
    let state_key = String::from_str("state");
    let ghost view = pairs_view(pairs@);
    let mut code: Option<String> = None;
    let mut state: Option<String> = None;
    let n = pairs.len();
    for i in 0..n
        invariant
            n == pairs@.len(),
            view == pairs_view(pairs@),
            code_key@ == "code"@,
            state_key@ == "state"@,
            "code"@ != "state"@,
            match code {
                Some(c) => last_value(view.take(i as int), "code"@) == Some(c@),
                None => last_value(view.take(i as int), "code"@) is None,
            },
            match state {
                Some(s) => last_value(view.take(i as int), "state"@) == Some(s@),
                None => last_value(view.take(i as int), "state"@) is None,
            },
    {
        proof {
            assert(view.take(i as int + 1).drop_last() =~= view.take(i as int));
            assert(view.take(i as int + 1).last() == view[i as int]);
            assert(view[i as int] == (pairs@[i as int].0@, pairs@[i as int].1@));
        }
        let (k, v) = &pairs[i];
        if *k == code_key {
            code = Some(v.clone());
        } else if *k == state_key {
            state = Some(v.clone());
        }
    }
    assert(view.take(n as int) =~= view);
    match (code, state) {
        (Some(c), Some(s)) => Some((c, s)),
        _ => None,
    }
}

impl Creds {
    /// The `code` and `state` query parameters of the redirect URL that the
    /// consent page sends the user to.
    pub fn parse_redirect_url(redirect_url: &str) -> (r: Result<(String, String), AuthError>)
        ensures
            match query_pairs_of(redirect_url@) {
                None => r == Err::<(String, String), AuthError>(AuthError::InvalidUrl),
                Some(p) => match code_and_state_of(p) {
                    None => r == Err::<(String, String), AuthError>(AuthError::MissingParameters),
                    Some((c, s)) => r matches Ok((c2, s2)) && c2@ == c && s2@ == s,
                },
            },
    {
        match parse_query_pairs(redirect_url) {
            None => Err(AuthError::InvalidUrl),
            Some(pairs) => match code_and_state(&pairs) {
                None => Err(AuthError::MissingParameters),
                Some(cs) => Ok(cs),
            },
        }
    }

    /// Credentials from a token exchange; an empty access or refresh token is
    /// a failure.
    pub fn from_tokens(
        client_id: &str,
        client_secret: &str,
        access_token: String,
        refresh_token: String,
    ) -> (r: Result<Creds, AuthError>)
        ensures
            (access_token@.len() == 0 || refresh_token@.len() == 0) <==> r is Err,
            r matches Err(e) ==> e == AuthError::EmptyToken,
            r matches Ok(c) ==> {
                &&& c.client_id@ == client_id@
                &&& c.client_secret@ == client_secret@
                &&& c.token == access_token
                &&& c.refresh_token == refresh_token
            },
    {
        if access_token.as_str().unicode_len() == 0 || refresh_token.as_str().unicode_len() == 0 {
            return Err(AuthError::EmptyToken);
        }
        Ok(
            Creds {
                client_id: String::from_str(client_id),
                client_secret: String::from_str(client_secret),
                token: access_token,
                refresh_token,
            },
        )
    }
}

} // verus!
