use urglance::daemon::{
    autostart_dir, autostart_file, choose_script, desktop_entry, script_candidates, DEFAULT_SCRIPT,
};
use urglance::hover::HoverState;
use urglance::listing::{sort_entries, sort_with_keys, FileEntry};
use urglance::request::{
    enable_param, http_response, listing_status, listing_target, parse_request, parse_request_text,
    path_param,
    query_value, route, Route, NOT_FOUND_REPLY, STATUS_OK,
};

fn entry(name: &str, is_dir: bool, size: u64) -> FileEntry {
    FileEntry { name: name.to_string(), path: format!("/d/{}", name), is_dir, size }
}

#[test]
fn request_line_is_parsed() {
    let r = parse_request(b"GET /api/files?path=%2Ftmp HTTP/1.1\r\nHost: x\r\n\r\n").unwrap();
    assert_eq!(r.method, "GET");
    assert_eq!(r.path, "/api/files");
    assert_eq!(r.query, "path=%2Ftmp");
    let r = parse_request(b"  POST\t/api/startup?enable=true\r\n").unwrap();
    assert_eq!(r.method, "POST");
    assert_eq!(r.path, "/api/startup");
    assert_eq!(r.query, "enable=true");
    let r = parse_request(b"GET /a?b?c").unwrap();
    assert_eq!(r.path, "/a");
    assert_eq!(r.query, "b?c");
    let r = parse_request(b"GET /\r").unwrap();
    assert_eq!(r.path, "/");
    assert!(parse_request(b"GET\r\n/ HTTP/1.1").is_none());
    assert!(parse_request(b"").is_none());
    assert!(parse_request(b"   \r\n").is_none());
    let r = parse_request(b"GET /caf\xe9 HTTP/1.1").unwrap();
    assert_eq!(r.path, "/caf\u{fffd}");
    let r = parse_request("GET\u{3000}/x".as_bytes()).unwrap();
    assert_eq!(r.path, "/x");
}

#[test]
fn routes() {
    assert_eq!(route("GET", "/"), Route::Index);
    assert_eq!(route("GET", "/api/status"), Route::Status);
    assert_eq!(route("GET", "/api/files"), Route::Files);
    assert_eq!(route("GET", "/api/preview"), Route::Preview);
    assert_eq!(route("POST", "/api/startup"), Route::Startup);
    assert_eq!(route("POST", "/"), Route::NotFound);
    assert_eq!(route("GET", "/api/startup"), Route::NotFound);
    assert_eq!(route("get", "/"), Route::NotFound);
}

#[test]
fn query_parameters() {
    assert_eq!(query_value("a=1&path=x&b=2", "path").as_deref(), Some("x"));
    assert_eq!(query_value("path=x&path=y", "path").as_deref(), Some("y"));
    assert_eq!(query_value("path=x&path", "path").as_deref(), Some("x"));
    assert_eq!(query_value("path=a=b", "path").as_deref(), Some("a"));
    assert_eq!(query_value("path=", "path").as_deref(), Some(""));
    assert_eq!(query_value("", "path"), None);
    assert_eq!(query_value("pathx=1", "path"), None);
    assert_eq!(path_param("path=%2Fhome%2Fme+too"), "/home/me too");
    assert_eq!(path_param("other=1"), "");
    assert!(enable_param("enable=true"));
    assert!(!enable_param("enable=TRUE"));
    assert!(!enable_param("enable=true&enable=false"));
    assert!(enable_param("enable=false&enable=true"));
    assert!(!enable_param(""));
}

#[test]
fn listing_targets_and_status() {
    assert_eq!(listing_target(""), None);
    assert_eq!(listing_target("."), None);
    assert_eq!(listing_target("/tmp").as_deref(), Some("/tmp"));
    assert_eq!(listing_status(true), "HTTP/1.1 200 OK");
    assert_eq!(listing_status(false), "HTTP/1.1 400 Bad Request");
    assert_eq!(STATUS_OK, "HTTP/1.1 200 OK");
    assert!(NOT_FOUND_REPLY.starts_with("HTTP/1.1 404 Not Found\r\n"));
}

#[test]
fn responses_count_bytes() {
    assert_eq!(
        http_response("HTTP/1.1 200 OK", "application/json", "{}"),
        "HTTP/1.1 200 OK\r\nContent-Type: application/json\r\nContent-Length: 2\r\nConnection: close\r\n\r\n{}"
    );
    let r = http_response("HTTP/1.1 200 OK", "text/plain", "\u{e9}\u{1f600}");
    assert!(r.contains("Content-Length: 6\r\n"));
    assert!(r.ends_with("\u{e9}\u{1f600}"));
    let r = http_response("S", "t", "");
    assert!(r.contains("Content-Length: 0\r\n"));
}

#[test]
fn listing_order_folders_first_case_insensitive_stable() {
    let entries = vec![
        entry("b.txt", false, 1),
        entry("Zeta", true, 0),
        entry("A.txt", false, 2),
        entry("alpha", true, 0),
        entry("a.TXT", false, 3),
        entry("B.txt", false, 4),
    ];
    let sorted = sort_entries(entries);
    let names: Vec<&str> = sorted.iter().map(|e| e.name.as_str()).collect();
    assert_eq!(names, vec!["alpha", "Zeta", "A.txt", "a.TXT", "b.txt", "B.txt"]);
    let sizes: Vec<u64> = sorted.iter().map(|e| e.size).collect();
    assert_eq!(sizes, vec![0, 0, 2, 3, 1, 4]);
    assert!(sort_entries(Vec::new()).is_empty());
}

#[test]
fn listing_matches_std_stable_sort() {
    let names = ["x", "X", "y", "Ä", "ä", "b", "B", "10", "9", "_", "a b", "ab", "a"];
    let mut entries = Vec::new();
    for (i, n) in names.iter().enumerate() {
        entries.push(entry(n, i % 3 == 0, i as u64));
    }
    let mut expected: Vec<(String, bool, u64)> =
        entries.iter().map(|e| (e.name.clone(), e.is_dir, e.size)).collect();
    expected.sort_by(|a, b| match (a.1, b.1) {
        (true, false) => std::cmp::Ordering::Less,
        (false, true) => std::cmp::Ordering::Greater,
        _ => a.0.to_lowercase().cmp(&b.0.to_lowercase()),
    });
    let got: Vec<(String, bool, u64)> =
        sort_entries(entries).into_iter().map(|e| (e.name, e.is_dir, e.size)).collect();
    assert_eq!(got, expected);
}

#[test]
fn hover_state_machine() {
    let mut s = HoverState::new();
    assert_eq!(s.hover_off(), None);
    let first = s.hover();
    assert_eq!(first.abort, None);
    assert_eq!(first.task_id, 0);
    let second = s.hover();
    assert_eq!(second.abort, Some(0));
    assert_eq!(second.task_id, 1);
    s.task_finished(0);
    assert_eq!(s.active, Some(1));
    s.task_finished(1);
    assert_eq!(s.active, None);
    let third = s.hover();
    assert_eq!(third.task_id, 2);
    assert_eq!(s.hover_off(), Some(2));
    assert_eq!(s.active, None);
    s.task_finished(2);
    assert_eq!(s.active, None);
    assert_eq!(s.next_id, 3);
}

#[test]
fn autostart_entry() {
    assert_eq!(
        desktop_entry("/usr/bin/urglance"),
        "[Desktop Entry]\nType=Application\nName=urGlance\nComment=File preview daemon\nExec=/usr/bin/urglance\nTerminal=false\nX-GNOME-Autostart-enabled=true\n"
    );
    assert_eq!(autostart_dir("/home/u"), "/home/u/.config/autostart");
    assert_eq!(autostart_file("/home/u/"), "/home/u/.config/autostart/urGlance.desktop");
    assert_eq!(autostart_file(""), ".config/autostart/urGlance.desktop");
}

#[test]
fn overlay_script_choice() {
    let c = script_candidates(Some("/opt/app/scripts/urglance-overlay.py".to_string()));
    assert_eq!(c.len(), 5);
    assert_eq!(c[0], "/opt/app/scripts/urglance-overlay.py");
    assert_eq!(c[3], "/usr/local/bin/urglance-overlay");
    assert_eq!(choose_script(&c, &vec![false, false, true, true, false]), "../scripts/urglance-overlay.py");
    assert_eq!(choose_script(&c, &vec![true, false, false, false, false]), c[0]);
    assert_eq!(choose_script(&c, &vec![false; 5]), DEFAULT_SCRIPT);
    let c = script_candidates(None);
    assert_eq!(c.len(), 4);
    assert_eq!(c[0], "scripts/urglance-overlay.py");
}

#[test]
fn request_text_is_parsed() {
    let r = parse_request_text("GET /api/preview?path=a%20b HTTP/1.1\nX: y").unwrap();
    assert_eq!(r.method, "GET");
    assert_eq!(r.path, "/api/preview");
    assert_eq!(r.query, "path=a%20b");
    assert!(parse_request_text("GET").is_none());
}

#[test]
fn listing_with_given_keys() {
    let entries = vec![entry("one", false, 1), entry("two", false, 2), entry("dir", true, 3)];
    let keys = vec!["b".to_string(), "a".to_string(), "z".to_string()];
    let sorted = sort_with_keys(entries, keys);
    let names: Vec<&str> = sorted.iter().map(|e| e.name.as_str()).collect();
    assert_eq!(names, vec!["dir", "two", "one"]);
}
