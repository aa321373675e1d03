//! The MotionTag client: which requests it wants sent, and what it makes of
//! the replies.
//!
//! Nothing here touches the network. A caller sends each [`Request`] and
//! hands back the [`Reply`].

use crate::error::{ClientError, ClientErrorView, ConfigFault, ProtocolFault};
use crate::json::{decoded, parse, views, Json, JsonView};
use crate::text::{lemma_plain_text_quoted, lemma_quoted_prefix_free, plain, push_quoted, quoted};
use crate::wire::{
    admitted, header_char, header_text, header_views, is_header_value, is_success, success,
    Header, Method, Reply, ReplyView, Request, RequestView,
};
use vstd::prelude::*;
use vstd::string::StringExecFns;

verus! {

/// Where the API lives unless the caller says otherwise.
pub const DEFAULT_BASE_URL: &'static str = "https://api.motion-tag.de/api";

/// The `User-Agent` that the server asks for: that of its own mobile client.
pub const USER_AGENT: &'static str =
    "MotionTag Android, device: Samsung SM-G991B, os_version: 11, app_version: 3.38.80, flavor: motiontag";

/// The address of the token endpoint.
pub open spec fn token_url(base_url: Seq<char>) -> Seq<char> {
    base_url + "/token"@
}

/// The address of the days endpoint.
pub open spec fn days_url(base_url: Seq<char>) -> Seq<char> {
    base_url + "/days"@
}

/// The JSON object that asks for a token by password. Each credential is
/// written as the string literal that denotes it.
pub open spec fn credentials_body(username: Seq<char>, password: Seq<char>) -> Seq<char> {
    "{\"grant_type\":\"password\",\"username\":"@ + quoted(username) + ",\"password\":"@ + quoted(
        password,
    ) + "}"@
}

/// The request that exchanges credentials for a token.
pub open spec fn token_request_of(
    base_url: Seq<char>,
    username: Seq<char>,
    password: Seq<char>,
) -> RequestView {
    RequestView {
        method: Method::Post,
        url: token_url(base_url),
        headers: seq![("Content-Type"@, "application/json"@), ("User-Agent"@, USER_AGENT@)],
        body: Some(credentials_body(username, password)),
    }
}

/// The value of the `Authorization` header that presents `token`.
pub open spec fn bearer(token: Seq<char>) -> Seq<char> {
    "Bearer "@ + token
}

/// The headers that every request of a configured client carries.
pub open spec fn default_headers_of(token: Seq<char>) -> Seq<(Seq<char>, Seq<char>)> {
    seq![("Authorization"@, bearer(token)), ("User-Agent"@, USER_AGENT@)]
}

/// The request that lists the days.
pub open spec fn days_request_of(base_url: Seq<char>, token: Seq<char>) -> RequestView {
    RequestView {
        method: Method::Get,
        url: days_url(base_url),
        headers: default_headers_of(token),
        body: None,
    }
}

/// The token in the answer of the token endpoint: the string member
/// `access_token` of the document.
pub open spec fn access_token_of(doc: JsonView) -> Option<Seq<char>> {
    match doc.member("access_token"@) {
        Some(value) => value.text(),
        None => None,
    }
}

/// The date of one day record: its string member `date`, and the empty text
/// where the record has none.
pub open spec fn date_of(day: JsonView) -> Seq<char> {
    match day.member("date"@) {
        Some(JsonView::Text(date)) => date,
        _ => Seq::empty(),
    }
}

/// The dates in the answer of the days endpoint: one for each element of the
/// array member `days` of the document, in the order of the array.
pub open spec fn dates_of(doc: JsonView) -> Option<Seq<Seq<char>>> {
    match doc.member("days"@) {
        Some(JsonView::Array(days)) => Some(Seq::new(days.len(), |i: int| date_of(days[i]))),
        _ => None,
    }
}

/// What the body of a successful token response yields, given what the
/// decoder made of it.
pub open spec fn token_in(doc: Option<JsonView>) -> Result<Seq<char>, ClientErrorView> {
    match doc {
        None => Err(ClientErrorView::ProtocolError(ProtocolFault::NotJson)),
        Some(doc) => match access_token_of(doc) {
            Some(token) => Ok(token),
            None => Err(ClientErrorView::ProtocolError(ProtocolFault::NoAccessToken)),
        },
    }
}

/// What the body of a successful days response yields, given what the
/// decoder made of it.
pub open spec fn dates_in(doc: Option<JsonView>) -> Result<Seq<Seq<char>>, ClientErrorView> {
    match doc {
        None => Err(ClientErrorView::ProtocolError(ProtocolFault::NotJson)),
        Some(doc) => match dates_of(doc) {
            Some(dates) => Ok(dates),
            None => Err(ClientErrorView::ProtocolError(ProtocolFault::NoDays)),
        },
    }
}

/// What the reply of the token endpoint yields: the token of a successful
/// response, and else the failure that the reply amounts to.
pub open spec fn token_of_reply(reply: ReplyView) -> Result<Seq<char>, ClientErrorView> {
    match reply {
        ReplyView::NoResponse { cause } => Err(ClientErrorView::TransportError(cause)),
        ReplyView::Response { status, body } => if success(status) {
            token_in(decoded(body))
        } else {
            Err(ClientErrorView::AuthError(status))
        },
    }
}

/// What the reply of the days endpoint yields: the dates of a successful
/// response, and else the failure that the reply amounts to.
pub open spec fn days_of_reply(reply: ReplyView) -> Result<Seq<Seq<char>>, ClientErrorView> {
    match reply {
        ReplyView::NoResponse { cause } => Err(ClientErrorView::TransportError(cause)),
        ReplyView::Response { status, body } => if success(status) {
            dates_in(decoded(body))
        } else {
            Err(ClientErrorView::ApiError(status))
        },
    }
}

/// What client construction yields: a client for every token that a header
/// value may hold, and a configuration failure for every other.
pub open spec fn client_of(base_url: Seq<char>, token: Seq<char>) -> Result<
    ApiClientView,
    ClientErrorView,
> {
    if header_text(token) {
        Ok(ApiClientView { base_url, token })
    } else {
        Err(ClientErrorView::ConfigError(ConfigFault::MalformedToken))
    }
}

/// The mathematical value of a result that holds a text.
pub open spec fn text_outcome(r: Result<String, ClientError>) -> Result<
    Seq<char>,
    ClientErrorView,
> {
    match r {
        Ok(text) => Ok(text@),
        Err(failure) => Err(failure@),
    }
}

/// The mathematical value of a result that holds a list of texts.
pub open spec fn list_outcome(r: Result<Vec<String>, ClientError>) -> Result<
    Seq<Seq<char>>,
    ClientErrorView,
> {
    match r {
        Ok(list) => Ok(list.deep_view()),
        Err(failure) => Err(failure@),
    }
}

/// The mathematical value of a result that holds a client.
pub open spec fn client_outcome(r: Result<ApiClient, ClientError>) -> Result<
    ApiClientView,
    ClientErrorView,
> {
    match r {
        Ok(client) => Ok(client@),
        Err(failure) => Err(failure@),
    }
}

/// Builds the request that exchanges credentials for a token.
pub fn token_request(base_url: &str, username: &str, password: &str) -> (request: Request)
    ensures
        request@ == token_request_of(base_url@, username@, password@),
        admitted(request@),
{
    proof {
        lemma_fixed_values_admitted();
    }
    let mut url = String::from_str(base_url);
    url.append("/token");
    let mut body = String::from_str("{\"grant_type\":\"password\",\"username\":");
    push_quoted(&mut body, username);
    body.append(",\"password\":");
    push_quoted(&mut body, password);
    body.append("}");
    let mut headers: Vec<Header> = Vec::new();
    headers.push(
        Header { name: String::from_str("Content-Type"), value: String::from_str("application/json") },
    );
    headers.push(Header { name: String::from_str("User-Agent"), value: String::from_str(USER_AGENT) });
    let request = Request { method: Method::Post, url, headers, body: Some(body) };
    assert(request@.headers =~= token_request_of(base_url@, username@, password@).headers);
    request
}

/// Reads the token out of what the decoder made of a token response.
pub fn access_token(doc: Option<&Json>) -> (r: Result<String, ClientError>)
    ensures
        text_outcome(r) == token_in(
            match doc {
                Some(doc) => Some(doc@),
                None => None,
            },
        ),
{
    match doc {
        None => Err(ClientError::ProtocolError(ProtocolFault::NotJson)),
        Some(doc) => match doc.member("access_token") {
            Some(value) => match value.as_text() {
                Some(token) => Ok(String::from_str(token)),
                None => Err(ClientError::ProtocolError(ProtocolFault::NoAccessToken)),
            },
            None => Err(ClientError::ProtocolError(ProtocolFault::NoAccessToken)),
        },
    }
}

/// Reads the date out of one day record.
pub fn date(day: &Json) -> (text: String)
    ensures
        text@ == date_of(day@),
{
    match day.member("date") {
        Some(value) => match value.as_text() {
            Some(date) => String::from_str(date),
            None => String::new(),
        },
        None => String::new(),
    }
}

/// Reads the dates out of what the decoder made of a days response. A
/// record without a date yields the empty text and fails nothing.
pub fn dates(doc: Option<&Json>) -> (r: Result<Vec<String>, ClientError>)
    ensures
        list_outcome(r) == dates_in(
            match doc {
                Some(doc) => Some(doc@),
                None => None,
            },
        ),
{
    match doc {
        None => Err(ClientError::ProtocolError(ProtocolFault::NotJson)),
        Some(doc) => match doc.member("days") {
            Some(value) => match value.as_items() {
                Some(days) => {
                    let mut list: Vec<String> = Vec::new();
                    let mut i: usize = 0;
                    while i < days.len()
                        invariant
                            i <= days.len(),
                            list@.len() == i,
                            forall|j: int|
                                0 <= j < i ==> (#[trigger] list@[j])@ == date_of(views(days@)[j]),
                        decreases days.len() - i,
                    {
                        let text = date(&days[i]);
                        list.push(text);
                        i = i + 1;
                    }
                    assert(list.deep_view() =~= dates_of(doc@)->0);
                    Ok(list)
                },
                None => Err(ClientError::ProtocolError(ProtocolFault::NoDays)),
            },
            None => Err(ClientError::ProtocolError(ProtocolFault::NoDays)),
        },
    }
}

/// Makes of the reply of the token endpoint what [`token_of_reply`] says:
/// the token, or the failure.
pub fn get_token(reply: &Reply) -> (r: Result<String, ClientError>)
    ensures
        text_outcome(r) == token_of_reply(reply@),
{
    match reply {
        Reply::NoResponse { cause } => Err(ClientError::TransportError(cause.clone())),
        Reply::Response { status, body } => {
            if is_success(*status) {
                let doc = parse(body.as_slice());
                access_token(doc.as_ref())
            } else {
                Err(ClientError::AuthError(*status))
            }
        },
    }
}

/// A client for one account: the address of the API and the token that
/// every request presents. Once built it never changes, and its token is
/// one that a header can carry.
#[derive(Debug, PartialEq, Eq)]
pub struct ApiClient {
    base_url: String,
    token: String,
}

/// The mathematical value of an [`ApiClient`].
pub struct ApiClientView {
    pub base_url: Seq<char>,
    pub token: Seq<char>,
}

impl View for ApiClient {
    type V = ApiClientView;

    closed spec fn view(&self) -> ApiClientView {
        ApiClientView { base_url: self.base_url@, token: self.token@ }
    }
}

impl ApiClient {
    #[verifier::type_invariant]
    spec fn configured(self) -> bool {
        header_text(self.token@)
    }

    /// Builds the client for a token. Nothing is sent.
    ///
    /// Fails with a configuration failure exactly if the token holds a
    /// character that no header value may hold.
    pub fn new_from_token(base_url: &str, token: &str) -> (r: Result<ApiClient, ClientError>)
        ensures
            client_outcome(r) == client_of(base_url@, token@),
    {
        let mut value = String::from_str("Bearer ");
        value.append(token);
        proof {
            lemma_bearer_admitted(token@);
        }
        if is_header_value(value.as_str()) {
            Ok(ApiClient { base_url: String::from_str(base_url), token: String::from_str(token) })
        } else {
            Err(ClientError::ConfigError(ConfigFault::MalformedToken))
        }
    }

    /// Builds the client for a user from the reply of the token endpoint to
    /// that user's credentials.
    pub fn new_from_user(base_url: &str, reply: &Reply) -> (r: Result<ApiClient, ClientError>)
        ensures
            client_outcome(r) == (match token_of_reply(reply@) {
                Ok(token) => client_of(base_url@, token),
                Err(failure) => Err(failure),
            }),
    {
        match get_token(reply) {
            Ok(token) => ApiClient::new_from_token(base_url, token.as_str()),
            Err(failure) => Err(failure),
        }
    }

    /// The address of the API.
    pub fn base_url(&self) -> (text: &str)
        ensures
            text@ == self@.base_url,
    {
        self.base_url.as_str()
    }

    /// The token that the client presents.
    pub fn token(&self) -> (text: &str)
        ensures
            text@ == self@.token,
            header_text(text@),
    {
        proof {
            use_type_invariant(self);
        }
        self.token.as_str()
    }

    /// The headers that every request of this client carries.
    pub fn default_headers(&self) -> (headers: Vec<Header>)
        ensures
            header_views(headers@) == default_headers_of(self@.token),
            forall|i: int| 0 <= i < headers.len() ==> header_text(#[trigger] headers@[i].value@),
    {
        proof {
            use_type_invariant(self);
            lemma_bearer_admitted(self@.token);
            lemma_fixed_values_admitted();
        }
        let mut value = String::from_str("Bearer ");
        value.append(self.token.as_str());
        let mut headers: Vec<Header> = Vec::new();
        headers.push(Header { name: String::from_str("Authorization"), value });
        headers.push(
            Header { name: String::from_str("User-Agent"), value: String::from_str(USER_AGENT) },
        );
        assert(header_views(headers@) =~= default_headers_of(self@.token));
        headers
    }

    /// Builds the request that lists the days.
    pub fn days_request(&self) -> (request: Request)
        ensures
            request@ == days_request_of(self@.base_url, self@.token),
            admitted(request@),
    {
        let mut url = String::from_str(self.base_url.as_str());
        url.append("/days");
        let headers = self.default_headers();
        Request { method: Method::Get, url, headers, body: None }
    }

    /// Makes of the reply of the days endpoint what [`days_of_reply`] says:
    /// the dates in the order of the server, or the failure.
    pub fn get_days(&self, reply: &Reply) -> (r: Result<Vec<String>, ClientError>)
        ensures
            list_outcome(r) == days_of_reply(reply@),
    {
        match reply {
            Reply::NoResponse { cause } => Err(ClientError::TransportError(cause.clone())),
            Reply::Response { status, body } => {
                if is_success(*status) {
                    let doc = parse(body.as_slice());
                    dates(doc.as_ref())
                } else {
                    Err(ClientError::ApiError(*status))
                }
            },
        }
    }
}

/// The fixed header values hold no character that a header refuses.
pub proof fn lemma_fixed_values_admitted()
    ensures
        header_text(USER_AGENT@),
        header_text("application/json"@),
{
    reveal_strlit(
        "MotionTag Android, device: Samsung SM-G991B, os_version: 11, app_version: 3.38.80, flavor: motiontag",
    );
    reveal_strlit("application/json");
}

/// The `Authorization` value is admitted exactly if the token is: the words
/// before the token hold no character that a header refuses.
pub proof fn lemma_bearer_admitted(token: Seq<char>)
    ensures
        header_text(bearer(token)) == header_text(token),
{
    reveal_strlit("Bearer ");
    let value = bearer(token);
    if header_text(token) {
        assert forall|i: int| 0 <= i < value.len() implies header_char(#[trigger] value[i]) by {
            if i >= 7 {
                assert(value[i] == token[i - 7]);
            }
        }
    }
    if header_text(value) {
        assert forall|i: int| 0 <= i < token.len() implies header_char(#[trigger] token[i]) by {
            assert(token[i] == value[i + 7]);
        }
    }
}

/// Both requests carry only header values that a header may hold, the
/// request for the days wherever its token is one.
pub proof fn lemma_requests_admitted(
    base_url: Seq<char>,
    username: Seq<char>,
    password: Seq<char>,
    token: Seq<char>,
)
    ensures
        admitted(token_request_of(base_url, username, password)),
        header_text(token) ==> admitted(days_request_of(base_url, token)),
{
    lemma_fixed_values_admitted();
    lemma_bearer_admitted(token);
}

/// The two endpoints have different addresses.
pub proof fn lemma_endpoints_differ(base_url: Seq<char>)
    ensures
        days_url(base_url) != token_url(base_url),
{
    reveal_strlit("/days");
    reveal_strlit("/token");
    assert(days_url(base_url).len() == base_url.len() + 5);
    assert(token_url(base_url).len() == base_url.len() + 6);
}

/// For every token that a header can carry, construction yields a client,
/// and the request of that client has one `Authorization` header, whose
/// value is `Bearer ` and then the token as it stands: cutting the seven
/// characters of the prefix off leaves the token, whatever it begins with.
pub proof fn law_bearer_header(base_url: Seq<char>, token: Seq<char>)
    requires
        header_text(token),
    ensures
        client_of(base_url, token) == Ok::<ApiClientView, ClientErrorView>(
            ApiClientView { base_url, token },
        ),
        ({
            let headers = days_request_of(base_url, token).headers;
            &&& headers[0] == ("Authorization"@, "Bearer "@ + token)
            &&& forall|i: int|
                0 <= i < headers.len() && (#[trigger] headers[i]).0 == "Authorization"@ ==> i == 0
            &&& headers[0].1.subrange(0, 7) == "Bearer "@
            &&& headers[0].1.skip(7) == token
        }),
{
    reveal_strlit("Bearer ");
    reveal_strlit("Authorization");
    reveal_strlit("User-Agent");
    assert("User-Agent"@.len() != "Authorization"@.len());
}

/// The body of the token request tells the credentials: two pairs of
/// credentials with the same body are the same pair, whatever characters
/// they hold.
pub proof fn law_body_tells_credentials(
    username: Seq<char>,
    password: Seq<char>,
    other_username: Seq<char>,
    other_password: Seq<char>,
)
    requires
        credentials_body(username, password) == credentials_body(other_username, other_password),
    ensures
        username == other_username,
        password == other_password,
{
    let head = "{\"grant_type\":\"password\",\"username\":"@;
    let middle = ",\"password\":"@;
    let end = "}"@;
    let body = credentials_body(username, password);
    let other = credentials_body(other_username, other_password);
    let after = middle + quoted(password) + end;
    let other_after = middle + quoted(other_password) + end;
    assert(quoted(username) + after =~= body.skip(head.len() as int));
    assert(quoted(other_username) + other_after =~= other.skip(head.len() as int));
    lemma_quoted_prefix_free(username, other_username, after, other_after);
    assert(quoted(password) + end =~= after.skip(middle.len() as int));
    assert(quoted(other_password) + end =~= other_after.skip(middle.len() as int));
    lemma_quoted_prefix_free(password, other_password, end, end);
}

/// Credentials of plain characters stand in the body as they are, each
/// between two quotation marks.
pub proof fn law_plain_credentials_verbatim(username: Seq<char>, password: Seq<char>)
    requires
        forall|i: int| 0 <= i < username.len() ==> plain(#[trigger] username[i]),
        forall|i: int| 0 <= i < password.len() ==> plain(#[trigger] password[i]),
    ensures
        credentials_body(username, password) == "{\"grant_type\":\"password\",\"username\":\""@
            + username + "\",\"password\":\""@ + password + "\"}"@,
{
    lemma_plain_text_quoted(username);
    lemma_plain_text_quoted(password);
    reveal_strlit("{\"grant_type\":\"password\",\"username\":");
    reveal_strlit("{\"grant_type\":\"password\",\"username\":\"");
    reveal_strlit(",\"password\":");
    reveal_strlit("\",\"password\":\"");
    reveal_strlit("}");
    reveal_strlit("\"}");
    let quote = seq!['"'];
    assert("{\"grant_type\":\"password\",\"username\":\""@
        =~= "{\"grant_type\":\"password\",\"username\":"@ + quote);
    assert("\",\"password\":\""@ =~= quote + ",\"password\":"@ + quote);
    assert("\"}"@ =~= quote + "}"@);
    assert(credentials_body(username, password) =~= "{\"grant_type\":\"password\",\"username\":\""@
        + username + "\",\"password\":\""@ + password + "\"}"@);
}

} // verus!
