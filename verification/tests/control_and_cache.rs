use mascot_render::control::{
    canonical_path, equals_ignoring_ascii_case, header_block_ended, parse_content_length_header,
    parse_request_line, parse_usize, response_header, route_request, spawn_command_candidates,
    split_words, ControlRoute, HttpParseError, HttpResponse,
};
use mascot_render::skin_cache::MascotSkinCache;

#[test]
fn responses_carry_status_and_body() {
    let ok = HttpResponse::ok_text("ok");
    assert_eq!((ok.status_code, ok.status_text.as_str(), ok.body.as_slice()), (200, "OK", b"ok".as_slice()));
    let bad = HttpResponse::bad_request("empty HTTP request".to_string());
    assert_eq!(bad.status_code, 400);
    assert_eq!(bad.status_text, "Bad Request");
    assert_eq!(bad.body, b"empty HTTP request".to_vec());
    let err = HttpResponse::internal_server_error("boom".to_string());
    assert_eq!((err.status_code, err.status_text.as_str()), (500, "Internal Server Error"));
    let missing = HttpResponse::not_found("not found");
    assert_eq!((missing.status_code, missing.status_text.as_str()), (404, "Not Found"));
    assert_eq!(
        response_header(&ok),
        "HTTP/1.1 200 OK\r\nContent-Length: 2\r\nContent-Type: text/plain; charset=utf-8\r\nConnection: close\r\n\r\n"
    );
}

#[test]
fn paths_are_canonical_and_routed() {
    assert_eq!(canonical_path("/health///"), "/health");
    assert_eq!(canonical_path("/"), "/");
    assert_eq!(canonical_path("//"), "");
    assert_eq!(route_request("GET", "/health/"), ControlRoute::Health);
    assert_eq!(route_request("POST", "/show"), ControlRoute::Show);
    assert_eq!(route_request("POST", "/hide"), ControlRoute::Hide);
    assert_eq!(route_request("POST", "/change-skin"), ControlRoute::ChangeSkin);
    assert_eq!(route_request("POST", "/timeline"), ControlRoute::Timeline);
    assert_eq!(route_request("GET", "/show"), ControlRoute::NotFound);
    assert_eq!(route_request("POST", "/health"), ControlRoute::NotFound);
}

#[test]
fn request_lines_are_split_on_whitespace() {
    assert_eq!(split_words(" GET  /health\tHTTP/1.1\r\n"), vec!["GET", "/health", "HTTP/1.1"]);
    let (method, path) = parse_request_line("POST /show HTTP/1.1\r\n").unwrap();
    assert_eq!((method.as_str(), path.as_str()), ("POST", "/show"));
    assert_eq!(parse_request_line("\r\n"), Err(HttpParseError::EmptyRequest));
    assert_eq!(parse_request_line("GET\r\n"), Err(HttpParseError::MissingPath));
    assert_eq!(parse_request_line("GET /x\r\n"), Err(HttpParseError::MissingVersion));
    assert_eq!(HttpParseError::MissingVersion.message(), "missing HTTP version");
    assert_eq!(HttpParseError::EmptyRequest.message(), "empty HTTP request");
}

#[test]
fn headers_give_the_body_length() {
    assert!(header_block_ended("\r\n"));
    assert!(header_block_ended("\n"));
    assert!(!header_block_ended(" \r\n"));
    assert!(equals_ignoring_ascii_case("Content-LENGTH", "content-length"));
    assert!(!equals_ignoring_ascii_case("Content-Type", "content-length"));
    assert_eq!(parse_usize("42"), Some(42));
    assert_eq!(parse_usize("x"), None);
    assert_eq!(parse_content_length_header("Content-Length: 12\r\n"), Ok(Some(12)));
    assert_eq!(parse_content_length_header(" content-length :7"), Ok(Some(7)));
    assert_eq!(parse_content_length_header("Host: localhost\r\n"), Ok(None));
    assert_eq!(parse_content_length_header("no colon here"), Ok(None));
    assert_eq!(
        parse_content_length_header("Content-Length: lots\r\n"),
        Err(HttpParseError::InvalidContentLength)
    );
    assert_eq!(HttpParseError::InvalidContentLength.message(), "invalid Content-Length header");
}

#[test]
fn spawn_candidates_try_the_sibling_binary_first() {
    let both = spawn_command_candidates(Some("/bin/mascot-render-server".to_string()), "c.toml");
    assert_eq!(both.len(), 2);
    assert_eq!(both[0].0, "/bin/mascot-render-server");
    assert_eq!(both[0].1, vec!["--config", "c.toml"]);
    assert_eq!(both[1].0, "cargo");
    assert_eq!(
        both[1].1,
        vec!["run", "-p", "mascot-render-server", "--bin", "mascot-render-server", "--", "--config", "c.toml"]
    );
    let cargo_only = spawn_command_candidates(None, "c.toml");
    assert_eq!(cargo_only.len(), 1);
    assert_eq!(cargo_only[0].0, "cargo");
}

#[test]
fn skin_cache_evicts_the_oldest_entry() {
    let mut cache = MascotSkinCache::new(2);
    cache.insert("a.png".to_string(), 1);
    cache.insert("b.png".to_string(), 2);
    cache.insert("a.png".to_string(), 3);
    cache.insert("c.png".to_string(), 4);
    assert_eq!(cache.get(&"a.png".to_string()), Some(&3));
    assert_eq!(cache.get(&"b.png".to_string()), None);
    assert_eq!(cache.get(&"c.png".to_string()), Some(&4));
}

#[test]
fn skin_cache_holds_at_least_one_entry() {
    let mut cache = MascotSkinCache::new(0);
    cache.insert("a.png".to_string(), 'a');
    assert_eq!(cache.get(&"a.png".to_string()), Some(&'a'));
    cache.insert("b.png".to_string(), 'b');
    assert_eq!(cache.get(&"a.png".to_string()), None);
    assert_eq!(cache.get(&"b.png".to_string()), Some(&'b'));
}

#[test]
fn cache_keeps_most_recent_distinct_paths() {
    let mut cache = MascotSkinCache::new(3);
    for (path, value) in [("a", 1), ("b", 2), ("a", 3), ("c", 4), ("b", 5), ("d", 6)] {
        cache.insert(path.to_string(), value);
    }
    // Most recent distinct paths: d, b, c (a was pushed out).
    assert_eq!(cache.get(&"a".to_string()), None);
    assert_eq!(cache.get(&"b".to_string()), Some(&5));
    assert_eq!(cache.get(&"c".to_string()), Some(&4));
    assert_eq!(cache.get(&"d".to_string()), Some(&6));
    assert_eq!(cache.get(&"e".to_string()), None);
}

#[test]
fn cache_treats_spellings_of_one_path_alike() {
    let mut cache = MascotSkinCache::new(2);
    cache.insert("/skins/a.png".to_string(), 1);
    assert_eq!(cache.get(&"/skins//a.png".to_string()), Some(&1));
    assert_eq!(cache.get(&"/skins/./a.png/".to_string()), Some(&1));
    cache.insert("/skins/a.png/".to_string(), 2);
    cache.insert("/skins/b.png".to_string(), 3);
    assert_eq!(cache.get(&"/skins/a.png".to_string()), Some(&2));
    assert_eq!(cache.get(&"skins/a.png".to_string()), None);
}
