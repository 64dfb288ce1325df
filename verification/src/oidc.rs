//! Refreshing OIDC tokens of kubeconfig users: which contexts need a
//! refresh, the token request built from an auth provider's settings, and
//! the messages of the failures.

use vstd::prelude::*;
use crate::string_map::{Entry, StringMap, lookup};
use crate::text::owned;

verus! {

/// The request that refreshes a token: the token endpoint and the form
/// parameters.
pub struct TokenRequest {
    pub url: String,
    pub params: Vec<(String, String)>,
}

/// The mathematical value of a `TokenRequest`.
pub struct TokenRequestView {
    pub url: Seq<char>,
    pub params: Seq<Entry>,
}

impl View for TokenRequest {
    type V = TokenRequestView;

    open spec fn view(&self) -> TokenRequestView {
        TokenRequestView {
            url: self.url@,
            params: self.params@.map_values(|p: (String, String)| (p.0@, p.1@)),
        }
    }
}

/// Why a token could not be refreshed.
pub enum OidcError {
    /// The auth provider has no `idp-issuer-url`.
    MissingIssuerUrl,
    /// The auth provider has no `client-id`.
    MissingClientId,
    /// The auth provider has no `refresh-token`.
    MissingRefreshToken,
    /// The token endpoint refused, with this response body.
    Rejected(String),
}

/// The token endpoint of an OpenID Connect issuer.
pub open spec fn token_url(issuer: Seq<char>) -> Seq<char> {
    issuer + "/protocol/openid-connect/token"@
}

/// The form parameters of a refresh: grant type, client id, refresh token,
/// and the client secret when there is one.
pub open spec fn refresh_params(client_id: Seq<char>, token: Seq<char>, secret: Option<Seq<char>>) -> Seq<Entry> {
    let base = Seq::<Entry>::empty().push(("grant_type"@, "refresh_token"@)).push(
        ("client_id"@, client_id),
    ).push(("refresh_token"@, token));
    match secret {
        Some(s) => base.push(("client_secret"@, s)),
        None => base,
    }
}

/// The refresh request for an auth provider with settings `config`, or the
/// first setting missing among `idp-issuer-url`, `client-id`, `refresh-token`.
pub open spec fn refresh_request(config: Seq<Entry>) -> Result<TokenRequestView, OidcError> {
    match lookup(config, "idp-issuer-url"@) {
        None => Err(OidcError::MissingIssuerUrl),
        Some(issuer) => match lookup(config, "client-id"@) {
            None => Err(OidcError::MissingClientId),
            Some(id) => match lookup(config, "refresh-token"@) {
                None => Err(OidcError::MissingRefreshToken),
                Some(token) => Ok(
                    TokenRequestView {
                        url: token_url(issuer),
                        params: refresh_params(id, token, lookup(config, "client-secret"@)),
                    },
                ),
            },
        },
    }
}

fn push_param(params: &mut Vec<(String, String)>, k: String, v: String)
    ensures
        final(params)@.map_values(|p: (String, String)| (p.0@, p.1@)) == old(params)@.map_values(
            |p: (String, String)| (p.0@, p.1@),
        ).push((k@, v@)),
{
    let ghost before = params@;
    let ghost e = (k@, v@);
    params.push((k, v));
    assert(params@.map_values(|p: (String, String)| (p.0@, p.1@)) =~= before.map_values(
        |p: (String, String)| (p.0@, p.1@),
    ).push(e));
}

/// The request that refreshes the token of an auth provider with settings
/// `config`.
pub fn token_refresh_request(config: &StringMap) -> (r: Result<TokenRequest, OidcError>)
    ensures
        match r {
            Ok(req) => (refresh_request(config@) matches Ok(v) && v == req@),
            Err(e) => (refresh_request(config@) matches Err(f) && f == e),
        },
{
    let issuer = match config.get("idp-issuer-url") {
        Some(v) => v,
        None => {
            return Err(OidcError::MissingIssuerUrl);
        },
    };
    let client_id = match config.get("client-id") {
        Some(v) => v,
        None => {
            return Err(OidcError::MissingClientId);
        },
    };
    let token = match config.get("refresh-token") {
        Some(v) => v,
        None => {
            return Err(OidcError::MissingRefreshToken);
        },
    };
    let mut url = issuer.clone();
    url.append("/protocol/openid-connect/token");
    let mut params: Vec<(String, String)> = Vec::new();
    assert(params@.map_values(|p: (String, String)| (p.0@, p.1@)) =~= Seq::<Entry>::empty());
    push_param(&mut params, owned("grant_type"), owned("refresh_token"));
    push_param(&mut params, owned("client_id"), client_id.clone());
    push_param(&mut params, owned("refresh_token"), token.clone());
    match config.get("client-secret") {
        Some(secret) => push_param(&mut params, owned("client_secret"), secret.clone()),
        None => {},
    }
    Ok(TokenRequest { url, params })
}

/// The message of a failure, as it is reported.
pub open spec fn error_message(e: OidcError) -> Seq<char> {
    match e {
        OidcError::MissingIssuerUrl => "idp-issuer-url not found"@,
        OidcError::MissingClientId => "client-id not found"@,
        OidcError::MissingRefreshToken => "refresh-token not found"@,
        OidcError::Rejected(body) => "Failed to refresh token: "@ + body@,
    }
}

impl OidcError {
    /// The message of this failure.
    pub fn message(&self) -> (m: String)
        ensures
            m@ == error_message(*self),
    {
        match self {
            OidcError::MissingIssuerUrl => owned("idp-issuer-url not found"),
            OidcError::MissingClientId => owned("client-id not found"),
            OidcError::MissingRefreshToken => owned("refresh-token not found"),
            OidcError::Rejected(body) => {
                let mut m = owned("Failed to refresh token: ");
                m.append(body.as_str());
                m
            },
        }
    }
}

/// What the token endpoint's reply leads to: on a success status, the body,
/// which holds the new id token; else the refusal, with the body.
pub fn token_reply(success: bool, body: String) -> (r: Result<String, OidcError>)
    ensures
        success ==> (r matches Ok(b) && b@ == body@),
        !success ==> (r matches Err(OidcError::Rejected(b)) && b@ == body@),
{
    if success {
        Ok(body)
    } else {
        Err(OidcError::Rejected(body))
    }
}

/// A refresh request is made exactly when the issuer URL, the client id and
/// the refresh token are all configured. It goes to the issuer's
/// `/protocol/openid-connect/token` endpoint and always asks for the
/// `refresh_token` grant with the configured client id and refresh token,
/// in that order; a configured client secret only adds a `client_secret`
/// parameter after them.
pub proof fn lemma_refresh_request_carries_refresh_token(config: Seq<Entry>)
    ensures
        refresh_request(config) is Ok <==> (lookup(config, "idp-issuer-url"@) is Some && lookup(
            config,
            "client-id"@,
        ) is Some && lookup(config, "refresh-token"@) is Some),
        refresh_request(config) matches Ok(req) ==> (lookup(config, "idp-issuer-url"@) matches Some(issuer)
            && req.url == issuer + "/protocol/openid-connect/token"@),
        refresh_request(config) matches Ok(req) ==> {
            &&& req.params.len() >= 3
            &&& req.params[0] == ("grant_type"@, "refresh_token"@)
            &&& lookup(config, "client-id"@) matches Some(id) && req.params[1] == ("client_id"@, id)
            &&& lookup(config, "refresh-token"@) matches Some(t) && req.params[2] == ("refresh_token"@, t)
        },
        refresh_request(config) matches Ok(req) ==> match lookup(config, "client-secret"@) {
            Some(secret) => req.params.len() == 4 && req.params[3] == ("client_secret"@, secret),
            None => req.params.len() == 3,
        },
{
}

/// A context of a kubeconfig: its name and the user it names, if any.
pub struct KubeContext {
    pub name: String,
    pub user: Option<String>,
}

/// A user of a kubeconfig: its name and whether it has an auth provider.
pub struct KubeUser {
    pub name: String,
    pub has_auth_provider: bool,
}

/// `i` is the first user named `name`.
pub open spec fn is_first_user(users: Seq<KubeUser>, name: Seq<char>, i: int) -> bool {
    &&& 0 <= i < users.len()
    &&& users[i].name@ == name
    &&& forall|j: int| 0 <= j < i ==> (#[trigger] users[j]).name@ != name
}

/// Some user is named `name`.
pub open spec fn has_user(users: Seq<KubeUser>, name: Seq<char>) -> bool {
    exists|i: int| 0 <= i < users.len() && (#[trigger] users[i]).name@ == name
}

/// Whether context `c` needs a token refresh, and with which user: the
/// first user with the context's user name, when it has an auth provider.
pub open spec fn refresh_user(c: KubeContext, users: Seq<KubeUser>) -> Option<int> {
    match c.user {
        Some(u) => if has_user(users, u@) {
            let i = choose|i: int| is_first_user(users, u@, i);
            if users[i].has_auth_provider {
                Some(i)
            } else {
                None
            }
        } else {
            None
        },
        None => None,
    }
}

/// The (context, user) index pairs of the contexts whose tokens are
/// refreshed, in context order.
pub open spec fn refresh_plan(contexts: Seq<KubeContext>, users: Seq<KubeUser>) -> Seq<(usize, usize)>
    decreases contexts.len(),
{
    if contexts.len() == 0 {
        Seq::empty()
    } else {
        let rest = refresh_plan(contexts.drop_last(), users);
        match refresh_user(contexts.last(), users) {
            Some(i) => rest.push(((contexts.len() - 1) as usize, i as usize)),
            None => rest,
        }
    }
}

/// The index of the first user named `name`, if any.
pub fn find_user(users: &Vec<KubeUser>, name: &String) -> (r: Option<usize>)
    ensures
        match r {
            Some(i) => is_first_user(users@, name@, i as int),
            None => !has_user(users@, name@),
        },
{
    let n = users.len();
    let mut i: usize = 0;
    while i < n
        invariant
            i <= n,
            n == users@.len(),
            forall|j: int| 0 <= j < i ==> (#[trigger] users@[j]).name@ != name@,
        decreases n - i,
    {
        if users[i].name == *name {
            return Some(i);
        }
        i = i + 1;
    }
    None
}

proof fn lemma_first_user_unique(users: Seq<KubeUser>, name: Seq<char>, i: int, j: int)
    requires
        is_first_user(users, name, i),
        is_first_user(users, name, j),
    ensures
        i == j,
{
}

/// For each context in order, the (context, user) index pair when its
/// user has an auth provider whose token is to be refreshed.
pub fn contexts_to_refresh(contexts: &Vec<KubeContext>, users: &Vec<KubeUser>) -> (r: Vec<(usize, usize)>)
    ensures
        r@ == refresh_plan(contexts@, users@),
{
    let n = contexts.len();
    let mut r: Vec<(usize, usize)> = Vec::new();
    let mut c: usize = 0;
    assert(contexts@.take(0) =~= Seq::<KubeContext>::empty());
    while c < n
        invariant
            c <= n,
            n == contexts@.len(),
            r@ == refresh_plan(contexts@.take(c as int), users@),
        decreases n - c,
    {
        let ghost t = contexts@.take(c + 1);
        assert(t.drop_last() =~= contexts@.take(c as int));
        assert(t.last() == contexts@[c as int]);
        match &contexts[c].user {
            Some(u) => match find_user(users, u) {
                Some(i) => {
                    proof {
                        let k = choose|k: int| is_first_user(users@, u@, k);
                        lemma_first_user_unique(users@, u@, i as int, k);
                    }
                    if users[i].has_auth_provider {
                        r.push((c, i));
                    }
                },
                None => {},
            },
            None => {},
        }
        c = c + 1;
    }
    assert(contexts@.take(n as int) =~= contexts@);
    r
}

proof fn lemma_first_user_exists(users: Seq<KubeUser>, name: Seq<char>)
    requires
        has_user(users, name),
    ensures
        exists|i: int| is_first_user(users, name, i),
    decreases users.len(),
{
    let init = users.drop_last();
    if has_user(init, name) {
        lemma_first_user_exists(init, name);
        let i = choose|i: int| is_first_user(init, name, i);
        assert forall|j: int| 0 <= j < i implies (#[trigger] users[j]).name@ != name by {
            assert(users[j] == init[j]);
        }
        assert(is_first_user(users, name, i));
    } else {
        let k = choose|k: int| 0 <= k < users.len() && (#[trigger] users[k]).name@ == name;
        if k < init.len() {
            assert(init[k] == users[k]);
        }
        let last = users.len() - 1;
        assert forall|j: int| 0 <= j < last implies (#[trigger] users[j]).name@ != name by {
            assert(users[j] == init[j]);
        }
        assert(is_first_user(users, name, last));
    }
}

/// The plan of token refreshes picks, in context order, exactly the
/// contexts whose user is named and whose first user of that name has an
/// auth provider, each with that user: every pair `(c, u)` is such a context
/// `c` and its first user `u`, the contexts come in increasing order, and
/// every such context is picked.
pub proof fn lemma_refresh_plan_picks_auth_provider_users(contexts: Seq<KubeContext>, users: Seq<KubeUser>)
    requires
        contexts.len() <= usize::MAX,
        users.len() <= usize::MAX,
    ensures
        forall|k: int|
            0 <= k < refresh_plan(contexts, users).len() ==> {
                let (c, u) = #[trigger] refresh_plan(contexts, users)[k];
                &&& c < contexts.len()
                &&& contexts[c as int].user matches Some(name) && is_first_user(users, name@, u as int)
                &&& users[u as int].has_auth_provider
            },
        forall|k: int, k2: int|
            0 <= k < k2 < refresh_plan(contexts, users).len() ==> (#[trigger] refresh_plan(contexts, users)[k]).0
                < (#[trigger] refresh_plan(contexts, users)[k2]).0,
        forall|c: int, i: int|
            #![trigger contexts[c], users[i]]
            0 <= c < contexts.len() ==> (contexts[c].user matches Some(name) ==> (is_first_user(users, name@, i)
                && users[i].has_auth_provider ==> exists|k: int|
                0 <= k < refresh_plan(contexts, users).len() && #[trigger] refresh_plan(contexts, users)[k] == (
                    c as usize,
                    i as usize,
                ))),
    decreases contexts.len(),
{
    if contexts.len() > 0 {
        let init = contexts.drop_last();
        let last = (contexts.len() - 1) as int;
        lemma_refresh_plan_picks_auth_provider_users(init, users);
        let prev = refresh_plan(init, users);
        let plan = refresh_plan(contexts, users);
        assert(contexts.last() == contexts[last]);
        match refresh_user(contexts.last(), users) {
            Some(i) => {
                let u = contexts.last().user->0;
                lemma_first_user_exists(users, u@);
                assert(is_first_user(users, u@, i));
                assert(plan == prev.push((last as usize, i as usize)));
            },
            None => {
                assert(plan == prev);
            },
        }
        assert forall|k: int| 0 <= k < prev.len() implies #[trigger] plan[k] == prev[k] && (prev[k].0 as int)
            < last by {
            assert(init[prev[k].0 as int] == contexts[prev[k].0 as int]);
        }
        assert forall|k: int|
            0 <= k < plan.len() implies {
                let (c, u) = #[trigger] plan[k];
                &&& c < contexts.len()
                &&& contexts[c as int].user matches Some(name) && is_first_user(users, name@, u as int)
                &&& users[u as int].has_auth_provider
            } by {
            if k < prev.len() {
                assert(init[prev[k].0 as int] == contexts[prev[k].0 as int]);
            }
        }
        assert forall|c: int, i: int|
            #![trigger contexts[c], users[i]]
            0 <= c < contexts.len() && contexts[c].user is Some && is_first_user(users, contexts[c].user->0@, i)
                && users[i].has_auth_provider implies exists|k: int|
                0 <= k < plan.len() && #[trigger] plan[k] == (c as usize, i as usize) by {
            if c < last {
                assert(init[c] == contexts[c]);
                let k = choose|k: int| 0 <= k < prev.len() && #[trigger] prev[k] == (c as usize, i as usize);
                assert(plan[k] == prev[k]);
            } else {
                let name = contexts[c].user->0;
                assert(has_user(users, name@));
                lemma_first_user_exists(users, name@);
                let j = choose|j: int| is_first_user(users, name@, j);
                lemma_first_user_unique(users, name@, i, j);
                assert(plan[prev.len() as int] == (c as usize, i as usize));
            }
        }
    }
}

} // verus!
