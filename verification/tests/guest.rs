use omnia::guest::{
    extract_params, handler_input, method_name, Config, Handler, HandlerInput, Http, Messaging,
    Method, Route, Setting, Topic,
};

fn path(segments: &[&str]) -> Vec<String> {
    segments.iter().map(|s| s.to_string()).collect()
}

fn get_handler(request: &str, reply: &str) -> Handler {
    Handler::new(Method::Get, path(&[request]), path(&[reply]), false, false).unwrap()
}

#[test]
fn test_parse_params() {
    let params = extract_params(&"{vehicle_id}/{trip_id}".to_string());
    assert_eq!(params, vec!["vehicle_id".to_string(), "trip_id".to_string()]);
}

#[test]
fn params_skip_plain_segments() {
    let params = extract_params(&"/god-mode/set-trip/{vehicle_id}/{trip_id}".to_string());
    assert_eq!(params, vec!["vehicle_id".to_string(), "trip_id".to_string()]);
    assert!(extract_params(&"/jobs/detector".to_string()).is_empty());
    assert_eq!(extract_params(&"/{}/{".to_string()), vec![String::new()]);
}

#[test]
fn method_from_path() {
    // one letter
    assert_eq!(method_name(&path(&["H"])), "h");
    // one word
    assert_eq!(method_name(&path(&["Hello"])), "hello");
    // two words
    assert_eq!(method_name(&path(&["HelloWorld"])), "hello");
}

#[test]
fn method_name_uses_last_segment() {
    assert_eq!(method_name(&path(&["crate", "R9kMessage"])), "r9k");
    assert_eq!(method_name(&path(&[])), "handle");
    assert_eq!(method_name(&path(&["ABc"])), "a");
}

#[test]
fn parse_config() {
    let route = Route::new(
        "/jobs/detector".to_string(),
        vec![get_handler("DetectionRequest", "DetectionReply")],
    )
    .unwrap();
    let topic = Topic::new("realtime-r9k.v1".to_string(), vec![path(&["R9kMessage"])]).unwrap();
    let settings = vec![
        Setting::Owner("at".to_string()),
        Setting::Provider("MyProvider".to_string()),
        Setting::Http(Http { routes: vec![route] }),
        Setting::Messaging(Messaging { topics: vec![topic] }),
    ];

    let parsed = Config::from_settings(settings).expect("should parse");
    assert_eq!(parsed.owner, "at");
    assert_eq!(parsed.provider, "MyProvider");

    let http = parsed.http.expect("should have http");
    assert_eq!(http.routes.len(), 1);
    assert_eq!(http.routes[0].path, "/jobs/detector");
    assert!(http.routes[0].params.is_empty());

    let messaging = parsed.messaging.expect("should have messaging");
    assert_eq!(messaging.topics.len(), 1);
    assert_eq!(messaging.topics[0].pattern, "realtime-r9k.v1");
    assert_eq!(messaging.topics[0].handler, "r9k");
}

#[test]
fn parse_http_path_params() {
    let route = Route::new(
        "/god-mode/set-trip/{vehicle_id}/{trip_id}".to_string(),
        vec![get_handler("SetTripRequest", "SetTripReply")],
    )
    .unwrap();
    let settings = vec![
        Setting::Owner("at".to_string()),
        Setting::Provider("MyProvider".to_string()),
        Setting::Http(Http { routes: vec![route] }),
    ];
    let parsed = Config::from_settings(settings).expect("should parse");
    let http = parsed.http.expect("should have http");
    assert_eq!(http.routes.len(), 1);
    assert_eq!(http.routes[0].params.len(), 2);
    assert_eq!(http.routes[0].params[0], "vehicle_id");
    assert_eq!(http.routes[0].params[1], "trip_id");
    assert!(parsed.messaging.is_none());
}

#[test]
fn config_requires_owner_and_provider_once() {
    let missing_owner = Config::from_settings(vec![Setting::Provider("P".to_string())]);
    assert_eq!(missing_owner.unwrap_err(), "missing `owner`");

    let missing_provider = Config::from_settings(vec![Setting::Owner("o".to_string())]);
    assert_eq!(missing_provider.unwrap_err(), "missing `provider`");

    let twice = Config::from_settings(vec![
        Setting::Owner("o".to_string()),
        Setting::Owner("p".to_string()),
        Setting::Provider("P".to_string()),
    ]);
    assert_eq!(twice.unwrap_err(), "cannot specify second owner");

    let twice = Config::from_settings(vec![
        Setting::Provider("P".to_string()),
        Setting::Owner("o".to_string()),
        Setting::Provider("Q".to_string()),
    ]);
    assert_eq!(twice.unwrap_err(), "cannot specify second provider");
}

#[test]
fn later_http_setting_replaces_earlier() {
    let first = Route::new("/a".to_string(), vec![get_handler("A", "B")]).unwrap();
    let second = Route::new("/b".to_string(), vec![get_handler("A", "B")]).unwrap();
    let parsed = Config::from_settings(vec![
        Setting::Http(Http { routes: vec![first] }),
        Setting::Owner("o".to_string()),
        Setting::Provider("P".to_string()),
        Setting::Http(Http { routes: vec![second] }),
    ])
    .unwrap();
    assert_eq!(parsed.http.unwrap().routes[0].path, "/b");
}

#[test]
fn handler_rules() {
    let get_body = Handler::new(Method::Get, path(&["Req"]), path(&["Rep"]), true, false);
    assert_eq!(
        get_body.unwrap_err(),
        "GET requests should not have a body; consider using query parameters"
    );
    let post_query = Handler::new(Method::Post, path(&["Req"]), path(&["Rep"]), false, true);
    assert_eq!(
        post_query.unwrap_err(),
        "POST requests should not have query parameters; consider using body"
    );
    let ok = Handler::new(Method::Get, path(&["Req"]), path(&["Rep"]), false, true).unwrap();
    assert!(ok.with_query);
    assert_eq!(ok.request, path(&["Req"]));
}

#[test]
fn route_needs_exactly_one_handler() {
    let none = Route::new("/x".to_string(), vec![]);
    assert_eq!(
        none.unwrap_err(),
        "route is missing handler (e.g., `get(Request, Response)` or `post(Request, Response)`)"
    );
    let two = Route::new("/x".to_string(), vec![get_handler("A", "B"), get_handler("C", "D")]);
    assert_eq!(two.unwrap_err(), "cannot specify second handler");
}

#[test]
fn topic_needs_exactly_one_message() {
    let none = Topic::new("t".to_string(), vec![]);
    assert_eq!(none.unwrap_err(), "topic missing `message`");
    let two = Topic::new("t".to_string(), vec![path(&["A"]), path(&["B"])]);
    assert_eq!(two.unwrap_err(), "cannot specify second message");
}

#[test]
fn handler_inputs() {
    let get = get_handler("A", "B");
    assert_eq!(handler_input(&get, 0), HandlerInput::Unit);
    assert_eq!(handler_input(&get, 1), HandlerInput::PathParam);
    assert_eq!(handler_input(&get, 3), HandlerInput::PathParams(3));
    let query = Handler::new(Method::Get, path(&["A"]), path(&["B"]), false, true).unwrap();
    assert_eq!(handler_input(&query, 0), HandlerInput::RawQuery);
    assert_eq!(handler_input(&query, 2), HandlerInput::PathParams(2));
    let post = Handler::new(Method::Post, path(&["A"]), path(&["B"]), true, false).unwrap();
    assert_eq!(handler_input(&post, 2), HandlerInput::Body);
    let post = Handler::new(Method::Post, path(&["A"]), path(&["B"]), false, false).unwrap();
    assert_eq!(handler_input(&post, 0), HandlerInput::Unit);
}

#[test]
fn method_name_of_unicode_names() {
    assert_eq!(method_name(&path(&["FooBé"])), "foo");
    assert_eq!(method_name(&path(&["Hé"])), "hé");
    assert_eq!(method_name(&path(&["AééB"])), "aé");
}
