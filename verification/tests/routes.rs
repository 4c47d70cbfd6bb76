use http_echo::auth::AuthConfig;
use http_echo::body::RawPart;
use http_echo::error::{DecodeError, ExtractionError, Failure};
use http_echo::handlers;
use http_echo::reply::Reply;
use http_echo::response::Extra;
use http_echo::service::{respond, serve, RawRequest, Route};
use http_echo::snapshot::RequestSnapshot;
use serde_json::Value;

fn basic_method_handler(snapshot: RequestSnapshot) -> Reply {
    Reply::ok(&handlers::basic_method_handler(snapshot))
}

fn form_handler(snapshot: RequestSnapshot, body: &[u8]) -> Reply {
    Reply::of(handlers::form_handler(snapshot, body))
}

fn posted(content_type: &str) -> RequestSnapshot {
    snapshot("POST", "/post", vec![pair("Content-Type", content_type)])
}

fn posted_text(content_type: &str) -> String {
    format!(
        "\"method\":\"POST\",\"url\":\"/post\",\"origin\":\"127.0.0.1\",\"args\":{{}},\
         \"headers\":{{\"Content-Type\":\"{}\"}}",
        content_type
    )
}

const JSON: &str = "application/json";
const FORM: &str = "application/x-www-form-urlencoded";
const MULTIPART: &str = "multipart/form-data; boundary=x";

fn post_json_handler(snapshot: RequestSnapshot, body: &[u8]) -> Reply {
    Reply::of(handlers::post_json_handler(snapshot, body))
}

fn post_file_handler(snapshot: RequestSnapshot, parts: Vec<RawPart>) -> Reply {
    Reply::of(handlers::post_file_handler(snapshot, parts))
}

fn get_basic_auth_handler(snapshot: RequestSnapshot, config: &AuthConfig) -> Reply {
    Reply::of(handlers::get_basic_auth_handler(snapshot, config))
}

fn get_bearer_auth_handler(snapshot: RequestSnapshot) -> Reply {
    Reply::of(handlers::get_bearer_auth_handler(snapshot))
}

fn request(method: &str, url: &str, headers: Vec<(String, String)>, body: &[u8]) -> RawRequest {
    RawRequest {
        method: method.to_string(),
        url: url.to_string(),
        origin: "127.0.0.1".to_string(),
        header_lines: headers,
        query: url.split_once('?').map(|(_, query)| query.to_string()),
        body: body.to_vec(),
        parts: Vec::new(),
    }
}

fn pair(key: &str, value: &str) -> (String, String) {
    (key.to_string(), value.to_string())
}

fn snapshot(method: &str, path: &str, headers: Vec<(String, String)>) -> RequestSnapshot {
    RequestSnapshot::capture(method, path, "127.0.0.1", headers, None)
}

fn with_authorization(value: &str) -> RequestSnapshot {
    snapshot("GET", "/", vec![pair("Host", "localhost:3000"), pair("Authorization", value)])
}

fn config() -> AuthConfig {
    AuthConfig { expected_password: "passwd".to_string() }
}

fn json(reply: &Reply) -> Value {
    serde_json::from_str(&reply.body).unwrap()
}

fn parsed(text: &str) -> Value {
    serde_json::from_str(text).unwrap()
}


#[test]
fn echo_answers_with_the_snapshot() {
    let request = RequestSnapshot::capture(
        "GET",
        "http://localhost:3000/get?a=1&b=x%20y",
        "127.0.0.1",
        vec![pair("Host", "localhost:3000"), pair("Accept", "*/*")],
        Some("a=1&b=x%20y"),
    );
    let reply = basic_method_handler(request);
    assert_eq!(reply.status, 200);
    assert_eq!(reply.headers, vec![pair("content-type", "application/json")]);
    assert_eq!(
        reply.body,
        "{\"method\":\"GET\",\"url\":\"http://localhost:3000/get?a=1&b=x%20y\",\
         \"origin\":\"127.0.0.1\",\"args\":{\"a\":\"1\",\"b\":\"x y\"},\
         \"headers\":{\"Host\":\"localhost:3000\",\"Accept\":\"*/*\"}}"
    );
}

#[test]
fn method_in_the_response_is_the_method_used() {
    for (method, path) in
        [("GET", "/get"), ("POST", "/post"), ("PUT", "/put"), ("PATCH", "/patch"), ("DELETE", "/delete")]
    {
        let reply = basic_method_handler(snapshot(method, path, Vec::new()));
        assert_eq!(json(&reply)["method"], Value::String(method.to_string()));
        assert_eq!(json(&reply)["url"], Value::String(path.to_string()));
    }
}

#[test]
fn repeated_header_is_written_once_for_each_value() {
    let reply = basic_method_handler(snapshot(
        "GET",
        "/get",
        vec![
            pair("Set-Cookie", "a=1"),
            pair("Host", "h"),
            pair("set-cookie", "b=2"),
            pair("Set-Cookie", "a=1"),
        ],
    ));
    assert_eq!(
        reply.body,
        "{\"method\":\"GET\",\"url\":\"/get\",\"origin\":\"127.0.0.1\",\"args\":{},\
         \"headers\":{\"Set-Cookie\":\"a=1\",\"Set-Cookie\":\"b=2\",\"Set-Cookie\":\"a=1\",\"Host\":\"h\"}}"
    );
    assert_eq!(reply.body.matches("\"Set-Cookie\":\"a=1\"").count(), 2);
    assert_eq!(reply.body.matches("\"Set-Cookie\":\"b=2\"").count(), 1);
}

#[test]
fn names_and_values_are_written_as_json_strings() {
    let reply = basic_method_handler(snapshot(
        "GET",
        "/get",
        vec![pair("X-Quote", "say \"hi\" \\ bye"), pair("X-Tab", "a\tb")],
    ));
    assert_eq!(
        reply.body,
        "{\"method\":\"GET\",\"url\":\"/get\",\"origin\":\"127.0.0.1\",\"args\":{},\
         \"headers\":{\"X-Quote\":\"say \\\"hi\\\" \\\\ bye\",\"X-Tab\":\"a\\tb\"}}"
    );
    assert_eq!(json(&reply)["headers"]["X-Quote"], Value::String("say \"hi\" \\ bye".to_string()));
}

#[test]
fn posted_json_comes_back_as_value_and_as_text() {
    let reply = post_json_handler(posted(JSON), b"{\"x\":1}");
    assert_eq!(reply.status, 200);
    assert_eq!(json(&reply)["json"], parsed("{\"x\":1}"));
    assert_eq!(json(&reply)["data"], Value::String("{\"x\":1}".to_string()));
    assert_eq!(
        reply.body,
        format!("{{{},\"json\":{{\"x\":1}},\"data\":\"{{\\\"x\\\":1}}\"}}", posted_text(JSON))
    );
}

#[test]
fn posted_json_without_a_body_is_null() {
    let reply = post_json_handler(posted(JSON), b"");
    assert_eq!(reply.status, 200);
    assert_eq!(reply.body, format!("{{{},\"json\":null,\"data\":\"\"}}", posted_text(JSON)));
}

#[test]
fn posted_json_that_is_malformed_is_refused() {
    let reply = post_json_handler(posted(JSON), b"{\"x\":1");
    assert_eq!(reply.status, 400);
    assert_eq!(reply.headers, vec![pair("content-type", "application/json")]);
    assert_eq!(reply.body, "{\"error\":\"body is not valid JSON\"}");
}

#[test]
fn posted_form_comes_back_as_a_mapping() {
    let reply = form_handler(posted(FORM), b"k=v&k2=v2");
    assert_eq!(reply.status, 200);
    assert_eq!(json(&reply)["form"], parsed("{\"k\":\"v\",\"k2\":\"v2\"}"));
    assert_eq!(reply.body, format!("{{{},\"form\":{{\"k\":\"v\",\"k2\":\"v2\"}}}}", posted_text(FORM)));
}

#[test]
fn posted_file_comes_back_as_text() {
    let parts = vec![RawPart { name: Some("file".to_string()), content: b"abc".to_vec() }];
    let reply = post_file_handler(posted(MULTIPART), parts);
    assert_eq!(reply.status, 200);
    assert_eq!(json(&reply)["files"], parsed("{\"file\":\"abc\"}"));
    assert_eq!(reply.body, format!("{{{},\"files\":{{\"file\":\"abc\"}}}}", posted_text(MULTIPART)));
}

#[test]
fn posted_file_that_is_not_utf8_is_refused() {
    let parts = vec![RawPart { name: Some("file".to_string()), content: vec![0xff, 0xfe] }];
    let reply = post_file_handler(posted(MULTIPART), parts);
    assert_eq!(reply.status, 400);
    assert_eq!(reply.body, "{\"error\":\"multipart part is not valid UTF-8\"}");
}

#[test]
fn posted_file_without_a_name_is_refused() {
    let parts = vec![RawPart { name: None, content: b"abc".to_vec() }];
    let reply = post_file_handler(posted(MULTIPART), parts);
    assert_eq!(reply.status, 400);
    assert_eq!(reply.body, "{\"error\":\"multipart part without a field name\"}");
}

#[test]
fn basic_auth_with_the_password_is_authenticated() {
    // "user:passwd"
    let reply = get_basic_auth_handler(with_authorization("Basic dXNlcjpwYXNzd2Q="), &config());
    assert_eq!(reply.status, 200);
    assert_eq!(json(&reply)["user"], Value::String("user".to_string()));
    assert_eq!(json(&reply)["authenticated"], Value::Bool(true));
    assert!(reply.body.ends_with(",\"authenticated\":true,\"user\":\"user\"}"));
}

#[test]
fn basic_auth_with_a_wrong_password_is_challenged() {
    // "user:wrong"
    let reply = get_basic_auth_handler(with_authorization("Basic dXNlcjp3cm9uZw=="), &config());
    assert_eq!(reply.status, 401);
    assert_eq!(reply.headers, vec![pair("WWW-Authenticate", "Basic realm=\"Fake Realm\"")]);
    assert_eq!(reply.body, "");
}

#[test]
fn basic_auth_without_a_password_is_challenged() {
    // "user"
    let reply = get_basic_auth_handler(with_authorization("Basic dXNlcg=="), &config());
    assert_eq!(reply.status, 401);
    assert_eq!(reply.headers, vec![pair("WWW-Authenticate", "Basic realm=\"Fake Realm\"")]);
}

#[test]
fn basic_auth_without_credentials_is_challenged() {
    let reply = get_basic_auth_handler(snapshot("GET", "/", Vec::new()), &config());
    assert_eq!(reply.status, 401);
    assert_eq!(reply.headers, vec![pair("WWW-Authenticate", "Basic realm=\"Fake Realm\"")]);
    let reply = get_basic_auth_handler(with_authorization("Bearer dXNlcjpwYXNzd2Q="), &config());
    assert_eq!(reply.status, 401);
    let reply = get_basic_auth_handler(with_authorization("Basic not base64!"), &config());
    assert_eq!(reply.status, 401);
}

#[test]
fn basic_auth_password_may_hold_a_colon() {
    // "id:pass:wd"
    let other = AuthConfig { expected_password: "pass:wd".to_string() };
    let reply = get_basic_auth_handler(with_authorization("Basic aWQ6cGFzczp3ZA=="), &other);
    assert_eq!(reply.status, 200);
    assert_eq!(json(&reply)["user"], Value::String("id".to_string()));
}

#[test]
fn bearer_token_comes_back() {
    let reply = get_bearer_auth_handler(with_authorization("Bearer abc123"));
    assert_eq!(reply.status, 200);
    assert_eq!(json(&reply)["token"], Value::String("abc123".to_string()));
    assert_eq!(json(&reply)["authenticated"], Value::Bool(true));
    assert!(reply.body.ends_with(",\"authenticated\":true,\"token\":\"abc123\"}"));
}

#[test]
fn bearer_token_may_be_empty() {
    let reply = get_bearer_auth_handler(with_authorization("Bearer "));
    assert_eq!(reply.status, 200);
    assert_eq!(json(&reply)["token"], Value::String(String::new()));
    let reply = get_bearer_auth_handler(with_authorization("Bearer"));
    assert_eq!(reply.status, 200);
    assert_eq!(json(&reply)["token"], Value::String(String::new()));
}

#[test]
fn bearer_token_may_hold_spaces() {
    let reply = get_bearer_auth_handler(with_authorization("Bearer a b  c"));
    assert_eq!(json(&reply)["token"], Value::String("a b  c".to_string()));
}

#[test]
fn bearer_without_a_token_is_refused() {
    let reply = get_bearer_auth_handler(snapshot("GET", "/bearer", Vec::new()));
    assert_eq!(reply.status, 400);
    assert_eq!(
        reply.body,
        "{\"error\":\"authorization header is missing or of another scheme\"}"
    );
    let reply = get_bearer_auth_handler(with_authorization("Basic dXNlcjpwYXNzd2Q="));
    assert_eq!(reply.status, 400);
    let reply = get_bearer_auth_handler(with_authorization("bearer abc"));
    assert_eq!(reply.status, 400);
    let reply = get_bearer_auth_handler(with_authorization("Bearer caf\u{e9}"));
    assert_eq!(reply.status, 400);
}

#[test]
fn authorization_header_is_found_whatever_its_case() {
    let request = snapshot("GET", "/bearer", vec![pair("AUTHORIZATION", "Bearer t")]);
    let reply = get_bearer_auth_handler(request);
    assert_eq!(json(&reply)["token"], Value::String("t".to_string()));
}

#[test]
fn same_request_gives_the_same_bytes() {
    let make = || {
        RequestSnapshot::capture(
            "POST",
            "/post/json?z=1&a=2&z=3",
            "127.0.0.1",
            vec![pair("B", "1"), pair("Content-Type", JSON), pair("b", "3")],
            Some("z=1&a=2&z=3"),
        )
    };
    let first = post_json_handler(make(), b"{\"k\":[1,2,{\"b\":null,\"a\":1.5}]}");
    for _ in 0..5 {
        let again = post_json_handler(make(), b"{\"k\":[1,2,{\"b\":null,\"a\":1.5}]}");
        assert_eq!(again.status, first.status);
        assert_eq!(again.headers, first.headers);
        assert_eq!(again.body.as_bytes(), first.body.as_bytes());
    }
}

#[test]
fn handlers_give_typed_outcomes() {
    let response = handlers::basic_method_handler(snapshot("PUT", "/put", Vec::new()));
    assert!(matches!(response.extra(), Extra::Echo));
    assert_eq!(response.snapshot().method(), "PUT");
    let outcome = handlers::post_json_handler(posted(JSON), b"[");
    assert!(matches!(outcome, Err(Failure::Decode(DecodeError::InvalidJson))));
    let outcome = handlers::get_bearer_auth_handler(snapshot("GET", "/bearer", Vec::new()));
    assert!(matches!(outcome, Err(Failure::Extraction(ExtractionError::Authorization))));
    let outcome = handlers::get_basic_auth_handler(snapshot("GET", "/", Vec::new()), &config());
    match outcome {
        Err(Failure::Challenge(challenge)) => assert_eq!(challenge, "Basic realm=\"Fake Realm\""),
        _ => panic!("no challenge"),
    }
    let outcome = handlers::get_bearer_auth_handler(with_authorization("Bearer abc123")).ok().unwrap();
    match outcome.extra() {
        Extra::Bearer { authenticated, token } => {
            assert!(*authenticated);
            assert_eq!(token, "abc123");
        }
        _ => panic!("no token"),
    }
}

#[test]
fn json_outcome_holds_value_and_text() {
    let outcome =
        handlers::post_json_handler(posted("Application/JSON; charset=utf-8"), b" {\"x\" : 1} ")
            .ok()
            .unwrap();
    match outcome.extra() {
        Extra::Json { json, data } => {
            assert_eq!(json, &Some("{\"x\":1}".to_string()));
            assert_eq!(data, "{\"x\":1}");
        }
        _ => panic!("no JSON"),
    }
}

#[test]
fn service_answers_each_route() {
    let reply = serve(Route::Echo, request("DELETE", "/delete?x=1&x=2", Vec::new(), b""), &config());
    assert_eq!(
        reply.body,
        "{\"method\":\"DELETE\",\"url\":\"/delete?x=1&x=2\",\"origin\":\"127.0.0.1\",\
         \"args\":{\"x\":\"2\"},\"headers\":{}}"
    );
    let reply = serve(Route::PostJson, request("POST", "/post/json", vec![pair("content-type", JSON)], b"{\"x\":1}"), &config());
    assert_eq!(json(&reply)["json"], parsed("{\"x\":1}"));
    assert_eq!(json(&reply)["data"], Value::String("{\"x\":1}".to_string()));
    let reply = serve(Route::PostForm, request("POST", "/post/form", vec![pair("content-type", FORM)], b"k=v&k2=v2"), &config());
    assert_eq!(json(&reply)["form"], parsed("{\"k\":\"v\",\"k2\":\"v2\"}"));
    let mut upload = request("POST", "/post/file", vec![pair("content-type", MULTIPART)], b"");
    upload.parts = vec![RawPart { name: Some("file".to_string()), content: b"abc".to_vec() }];
    let reply = serve(Route::PostFile, upload, &config());
    assert_eq!(json(&reply)["files"], parsed("{\"file\":\"abc\"}"));
    let headers = vec![pair("Authorization", "Basic dXNlcjpwYXNzd2Q=")];
    let reply = serve(Route::BasicAuth, request("GET", "/basic-auth/user/passwd", headers, b""), &config());
    assert_eq!(reply.status, 200);
    assert_eq!(json(&reply)["user"], Value::String("user".to_string()));
    let headers = vec![pair("Authorization", "Bearer abc123")];
    let reply = serve(Route::Bearer, request("GET", "/bearer", headers, b""), &config());
    assert_eq!(reply.status, 200);
    assert_eq!(json(&reply)["token"], Value::String("abc123".to_string()));
}

#[test]
fn service_turns_failures_into_replies() {
    let reply = serve(Route::PostJson, request("POST", "/post/json", vec![pair("content-type", JSON)], b"nope"), &config());
    assert_eq!(reply.status, 400);
    let headers = vec![pair("Authorization", "Basic dXNlcjp3cm9uZw==")];
    let reply = serve(Route::BasicAuth, request("GET", "/basic-auth/user/passwd", headers, b""), &config());
    assert_eq!(reply.status, 401);
    assert_eq!(reply.headers, vec![pair("WWW-Authenticate", "Basic realm=\"Fake Realm\"")]);
    let outcome = respond(Route::Bearer, request("GET", "/bearer", Vec::new(), b""), &config());
    assert!(matches!(outcome, Err(Failure::Extraction(ExtractionError::Authorization))));
}

#[test]
fn service_replies_the_same_to_the_same_request() {
    let make = || {
        let headers = vec![pair("Cookie", "a"), pair("Content-Type", FORM), pair("cookie", "b")];
        request("POST", "/post/form?q=1", headers, b"b=2&a=1&b=3")
    };
    let first = serve(Route::PostForm, make(), &config());
    let second = serve(Route::PostForm, make(), &config());
    assert_eq!(first.status, second.status);
    assert_eq!(first.headers, second.headers);
    assert_eq!(first.body.as_bytes(), second.body.as_bytes());
    assert_eq!(
        first.body,
        "{\"method\":\"POST\",\"url\":\"/post/form?q=1\",\"origin\":\"127.0.0.1\",\
         \"args\":{\"q\":\"1\"},\"headers\":{\"Cookie\":\"a\",\"Cookie\":\"b\",\
         \"Content-Type\":\"application/x-www-form-urlencoded\"},\
         \"form\":{\"b\":\"3\",\"a\":\"1\"}}"
    );
}

#[test]
fn json_route_without_declared_json_answers_as_without_a_body() {
    let reply = post_json_handler(snapshot("POST", "/post/json", Vec::new()), b"{\"x\":1}");
    assert_eq!(reply.status, 200);
    assert_eq!(json(&reply)["json"], Value::Null);
    assert_eq!(json(&reply)["data"], Value::String(String::new()));
    let reply = post_json_handler(posted(FORM), b"not json at all");
    assert_eq!(reply.status, 200);
    assert_eq!(json(&reply)["json"], Value::Null);
}

#[test]
fn form_route_turns_other_content_types_away() {
    let reply = form_handler(snapshot("POST", "/post/form", Vec::new()), b"k=v");
    assert_eq!(reply.status, 400);
    assert_eq!(
        reply.body,
        "{\"error\":\"content type is not the one that this route decodes\"}"
    );
    let outcome = handlers::form_handler(posted(JSON), b"k=v");
    assert!(matches!(outcome, Err(Failure::Extraction(ExtractionError::ContentType))));
}

#[test]
fn file_route_turns_other_content_types_away() {
    let parts = vec![RawPart { name: Some("file".to_string()), content: b"abc".to_vec() }];
    let outcome = handlers::post_file_handler(posted(FORM), parts);
    assert!(matches!(outcome, Err(Failure::Extraction(ExtractionError::ContentType))));
}
