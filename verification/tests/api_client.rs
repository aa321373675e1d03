use downloader::error::{ConfigFault, ClientError, ProtocolFault};
use downloader::json::{parse, Json, Member};
use downloader::motion_tag::{
    access_token, date, dates, get_token, token_request, ApiClient, DEFAULT_BASE_URL, USER_AGENT,
};
use downloader::wire::{Method, Reply};

const BASE: &str = "https://api.example.test/api";

fn response(status: u16, body: &str) -> Reply {
    Reply::Response { status, body: body.as_bytes().to_vec() }
}

fn client(token: &str) -> ApiClient {
    ApiClient::new_from_token(BASE, token).unwrap()
}

fn header_values(request: &downloader::wire::Request, name: &str) -> Vec<String> {
    request.headers.iter().filter(|h| h.name == name).map(|h| h.value.clone()).collect()
}

#[test]
fn constants_are_those_of_the_service() {
    assert_eq!(DEFAULT_BASE_URL, "https://api.motion-tag.de/api");
    assert_eq!(
        USER_AGENT,
        "MotionTag Android, device: Samsung SM-G991B, os_version: 11, app_version: 3.38.80, flavor: motiontag"
    );
}

#[test]
fn token_request_posts_the_credentials_as_json() {
    let request = token_request(BASE, "alice", "secret");
    assert_eq!(request.method, Method::Post);
    assert_eq!(request.url, "https://api.example.test/api/token");
    assert_eq!(
        request.body.as_deref(),
        Some(r#"{"grant_type":"password","username":"alice","password":"secret"}"#)
    );
    assert_eq!(request.headers.len(), 2);
    assert_eq!(header_values(&request, "Content-Type"), vec!["application/json".to_string()]);
    assert_eq!(header_values(&request, "User-Agent"), vec![USER_AGENT.to_string()]);
    assert!(header_values(&request, "Authorization").is_empty());
}

#[test]
fn token_request_body_denotes_the_credentials_whatever_they_hold() {
    let username = "al\"ice\\ \u{e9}";
    let password = "p\"}, \"x\": \"y\n\t\u{1}";
    let request = token_request(BASE, username, password);
    let body: serde_json::Value = serde_json::from_str(request.body.as_deref().unwrap()).unwrap();
    let object = body.as_object().unwrap();
    assert_eq!(object.len(), 3);
    assert_eq!(object["grant_type"].as_str(), Some("password"));
    assert_eq!(object["username"].as_str(), Some(username));
    assert_eq!(object["password"].as_str(), Some(password));
}

#[test]
fn token_acquisition_yields_the_token_of_the_response() {
    let reply = response(200, r#"{"access_token":"T"}"#);
    for (username, password) in [("alice", "secret"), ("bob", "hunter2"), ("\u{e9}", "\"")] {
        let request = token_request(BASE, username, password);
        assert_eq!(request.url, "https://api.example.test/api/token");
        assert_eq!(get_token(&reply), Ok("T".to_string()));
    }
}

#[test]
fn token_acquisition_accepts_every_successful_status() {
    let body = r#"{"token_type":"bearer","access_token":"abc.def","expires_in":3600}"#;
    assert_eq!(get_token(&response(200, body)), Ok("abc.def".to_string()));
    assert_eq!(get_token(&response(201, body)), Ok("abc.def".to_string()));
    assert_eq!(get_token(&response(299, body)), Ok("abc.def".to_string()));
}

#[test]
fn token_acquisition_reports_the_status_of_a_refusal() {
    let failure = get_token(&response(401, r#"{"access_token":"T"}"#)).unwrap_err();
    assert_eq!(failure, ClientError::AuthError(401));
    assert_eq!(failure.message(), "Failed to retrieve token. Response code: 401");
    assert!(failure.message().contains("401"));
    assert!(!failure.message().contains("-1"));
    assert_eq!(get_token(&response(199, "{}")), Err(ClientError::AuthError(199)));
    assert_eq!(get_token(&response(300, "{}")), Err(ClientError::AuthError(300)));
    assert_eq!(get_token(&response(500, "")), Err(ClientError::AuthError(500)));
}

#[test]
fn token_acquisition_reports_a_transport_failure_with_its_cause() {
    let reply = Reply::NoResponse { cause: "dns error: no such host".to_string() };
    assert_eq!(
        get_token(&reply),
        Err(ClientError::TransportError("dns error: no such host".to_string()))
    );
}

#[test]
fn token_acquisition_reports_a_malformed_response() {
    let not_json = ClientError::ProtocolError(ProtocolFault::NotJson);
    let no_token = ClientError::ProtocolError(ProtocolFault::NoAccessToken);
    assert_eq!(get_token(&response(200, "<html>")), Err(not_json.clone()));
    assert_eq!(get_token(&response(200, "")), Err(not_json));
    assert_eq!(get_token(&response(200, "{}")), Err(no_token.clone()));
    assert_eq!(get_token(&response(200, r#"{"access_token":17}"#)), Err(no_token.clone()));
    assert_eq!(get_token(&response(200, r#"{"access_token":null}"#)), Err(no_token.clone()));
    assert_eq!(get_token(&response(200, r#"["access_token"]"#)), Err(no_token.clone()));
    assert_eq!(get_token(&response(200, r#"{"Access_Token":"T"}"#)), Err(no_token));
}

#[test]
fn access_token_reads_a_decoded_document() {
    let doc = Json::Object(vec![Member {
        key: "access_token".to_string(),
        value: Json::Text("T".to_string()),
    }]);
    assert_eq!(access_token(Some(&doc)), Ok("T".to_string()));
    assert_eq!(access_token(None), Err(ClientError::ProtocolError(ProtocolFault::NotJson)));
    assert_eq!(
        access_token(Some(&Json::Null)),
        Err(ClientError::ProtocolError(ProtocolFault::NoAccessToken))
    );
}

#[test]
fn client_construction_presents_the_token_as_bearer() {
    let client = client("T");
    assert_eq!(client.base_url(), BASE);
    assert_eq!(client.token(), "T");
    let request = client.days_request();
    assert_eq!(header_values(&request, "Authorization"), vec!["Bearer T".to_string()]);
    assert_eq!(header_values(&request, "User-Agent"), vec![USER_AGENT.to_string()]);
    assert_eq!(request.headers.len(), 2);
}

#[test]
fn client_construction_keeps_the_token_as_it_stands() {
    for token in ["abc.DEF-123", "with space", "Bearer X", "bearer", "", "t\tab", "\u{fc}ber"] {
        let request = client(token).days_request();
        assert_eq!(header_values(&request, "Authorization"), vec![format!("Bearer {}", token)]);
    }
}

#[test]
fn client_construction_refuses_a_token_that_no_header_can_carry() {
    let malformed = Err(ClientError::ConfigError(ConfigFault::MalformedToken));
    assert_eq!(ApiClient::new_from_token(BASE, "a\nb"), malformed);
    assert_eq!(ApiClient::new_from_token(BASE, "a\r\nX-Injected: 1"), malformed);
    assert_eq!(ApiClient::new_from_token(BASE, "\u{0}"), malformed);
    assert_eq!(ApiClient::new_from_token(BASE, "del\u{7f}"), malformed);
}

#[test]
fn default_headers_are_authorization_then_user_agent() {
    let headers = client("T").default_headers();
    assert_eq!(headers.len(), 2);
    assert_eq!(headers[0].name, "Authorization");
    assert_eq!(headers[0].value, "Bearer T");
    assert_eq!(headers[1].name, "User-Agent");
    assert_eq!(headers[1].value, USER_AGENT);
}

#[test]
fn client_for_a_user_is_built_from_the_token_response() {
    let built = ApiClient::new_from_user(BASE, &response(200, r#"{"access_token":"T"}"#)).unwrap();
    assert_eq!(built.base_url(), BASE);
    assert_eq!(built.token(), "T");
    assert_eq!(built, client("T"));
}

#[test]
fn client_for_a_user_fails_as_the_token_exchange_does() {
    assert_eq!(
        ApiClient::new_from_user(BASE, &response(401, "")),
        Err(ClientError::AuthError(401))
    );
    assert_eq!(
        ApiClient::new_from_user(BASE, &Reply::NoResponse { cause: "timeout".to_string() }),
        Err(ClientError::TransportError("timeout".to_string()))
    );
    assert_eq!(
        ApiClient::new_from_user(BASE, &response(200, "{}")),
        Err(ClientError::ProtocolError(ProtocolFault::NoAccessToken))
    );
    assert_eq!(
        ApiClient::new_from_user(BASE, &response(200, r#"{"access_token":"a\nb"}"#)),
        Err(ClientError::ConfigError(ConfigFault::MalformedToken))
    );
}

#[test]
fn days_request_gets_the_days_endpoint() {
    let request = client("T").days_request();
    assert_eq!(request.method, Method::Get);
    assert_eq!(request.url, "https://api.example.test/api/days");
    assert_eq!(request.body, None);
    assert!(header_values(&request, "Content-Type").is_empty());
}

#[test]
fn day_listing_returns_the_dates_in_server_order() {
    let reply = response(200, r#"{"days":[{"date":"2023-01-01"},{"date":"2023-01-02"}]}"#);
    let days = client("T").get_days(&reply).unwrap();
    assert_eq!(days, vec!["2023-01-01".to_string(), "2023-01-02".to_string()]);
    assert_eq!(days.len(), 2);
}

#[test]
fn day_listing_keeps_the_order_and_the_repeats_of_the_server() {
    let reply = response(
        200,
        r#"{"days":[{"date":"2023-03-01"},{"date":"2021-01-01"},{"date":"2023-03-01"}]}"#,
    );
    assert_eq!(
        client("T").get_days(&reply).unwrap(),
        vec!["2023-03-01".to_string(), "2021-01-01".to_string(), "2023-03-01".to_string()]
    );
}

#[test]
fn day_listing_defaults_a_missing_date_to_the_empty_text() {
    let reply = response(200, r#"{"days":[{"date":"2023-01-01"},{"no_date_field":true}]}"#);
    assert_eq!(
        client("T").get_days(&reply).unwrap(),
        vec!["2023-01-01".to_string(), String::new()]
    );
}

#[test]
fn day_listing_defaults_every_bad_entry_to_the_empty_text() {
    let reply = response(
        200,
        r#"{"days":[{"date":17},{"date":null},"2023-01-01",null,[],{"date":"ok","x":1}]}"#,
    );
    assert_eq!(
        client("T").get_days(&reply).unwrap(),
        vec![
            String::new(),
            String::new(),
            String::new(),
            String::new(),
            String::new(),
            "ok".to_string()
        ]
    );
}

#[test]
fn day_listing_of_no_days_is_empty() {
    let days = client("T").get_days(&response(200, r#"{"days":[]}"#)).unwrap();
    assert!(days.is_empty());
}

#[test]
fn day_listing_reports_the_status_of_a_refusal() {
    let failure = client("T").get_days(&response(403, r#"{"days":[]}"#)).unwrap_err();
    assert_eq!(failure, ClientError::ApiError(403));
    assert_eq!(failure.message(), "Failed to retrieve days. Response code: 403");
    assert!(!failure.message().contains("-1"));
    assert_eq!(client("T").get_days(&response(404, "")), Err(ClientError::ApiError(404)));
    assert_eq!(client("T").get_days(&response(300, "")), Err(ClientError::ApiError(300)));
}

#[test]
fn day_listing_reports_a_transport_failure_with_its_cause() {
    let reply = Reply::NoResponse { cause: "connection reset".to_string() };
    assert_eq!(
        client("T").get_days(&reply),
        Err(ClientError::TransportError("connection reset".to_string()))
    );
}

#[test]
fn day_listing_reports_a_malformed_response() {
    let not_json = ClientError::ProtocolError(ProtocolFault::NotJson);
    let no_days = ClientError::ProtocolError(ProtocolFault::NoDays);
    let client = client("T");
    assert_eq!(client.get_days(&response(200, "days")), Err(not_json));
    assert_eq!(client.get_days(&response(200, "{}")), Err(no_days.clone()));
    assert_eq!(client.get_days(&response(200, r#"{"days":{}}"#)), Err(no_days.clone()));
    assert_eq!(client.get_days(&response(200, r#"{"days":"2023-01-01"}"#)), Err(no_days.clone()));
    assert_eq!(client.get_days(&response(200, r#"[{"date":"2023-01-01"}]"#)), Err(no_days));
}

#[test]
fn dates_reads_a_decoded_document() {
    let doc = parse(br#"{"days":[{"date":"2023-05-01","distance":12.5},{}]}"#).unwrap();
    assert_eq!(dates(Some(&doc)), Ok(vec!["2023-05-01".to_string(), String::new()]));
    assert_eq!(dates(None), Err(ClientError::ProtocolError(ProtocolFault::NotJson)));
    assert_eq!(dates(Some(&Json::Array(vec![]))), Err(ClientError::ProtocolError(ProtocolFault::NoDays)));
}

#[test]
fn date_reads_one_record() {
    assert_eq!(date(&parse(br#"{"date":"2023-05-01"}"#).unwrap()), "2023-05-01");
    assert_eq!(date(&parse(br#"{"date":""}"#).unwrap()), "");
    assert_eq!(date(&parse(br#"{"Date":"2023-05-01"}"#).unwrap()), "");
    assert_eq!(date(&parse(br#"{"date":20230501}"#).unwrap()), "");
    assert_eq!(date(&Json::Null), "");
}
