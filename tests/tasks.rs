use rrr::paths::Root;
use rrr::render;
use rrr::state::State;
use rrr::render::RefreshKind;
use rrr::task::{decode_remote_feed_add_form, extract_task, home_flags, refreshes_for, Method, Task, TaskSpec};
use rrr::timestamp::{Timestamp, UtcOffset};

fn state_with_local() -> State {
    let root = Root::try_new(vec!["/".to_string(), "data".to_string()], true).unwrap();
    let mut state = State::new(root, UtcOffset::utc());
    state.rescan_local_paths(&vec!["/data/local-feeds/mine.xml".to_string()]).unwrap();
    state
}

fn spec(method: Method, url: &str, keys: &[&str], form: Vec<(&str, &str)>) -> TaskSpec {
    TaskSpec {
        method,
        url_suffix: url.to_string(),
        query_keys: keys.iter().map(|k| k.to_string()).collect(),
        form: Ok(form.into_iter().map(|(k, v)| (k.to_string(), v.to_string())).collect()),
    }
}

#[test]
fn home_page_flags_come_from_key_presence() {
    let state = state_with_local();
    match extract_task(spec(Method::Get, "/", &["refresh-remote", "other"], vec![]), &state) {
        Ok(Task::ShowHomePage(f)) => assert_eq!(f, 2),
        _ => panic!("expected the home page"),
    }
    assert_eq!(home_flags(&vec!["refresh-local".to_string(), "refresh-remote-urls".to_string()]), 5);
    assert_eq!(home_flags(&vec![]), 0);
}

#[test]
fn get_pages_show_forms() {
    let state = state_with_local();
    assert!(matches!(extract_task(spec(Method::Get, "/local-add", &[], vec![]), &state), Ok(Task::ShowLocalAddForm)));
    assert!(matches!(
        extract_task(spec(Method::Get, "/remote-add", &[], vec![]), &state),
        Ok(Task::ShowRemoteFeedAddForm)
    ));
}

#[test]
fn unknown_route_names_method_and_url() {
    let state = state_with_local();
    match extract_task(spec(Method::Other, "/x", &[], vec![]), &state) {
        Err(e) => assert_eq!(e.0, "No known task for HTTP ??? method at url /x"),
        _ => panic!("expected an error"),
    }
    match extract_task(spec(Method::Post, "/", &[], vec![]), &state) {
        Err(e) => assert_eq!(e.0, "No known task for HTTP POST method at url /"),
        _ => panic!("expected an error"),
    }
}

#[test]
fn local_add_form_decodes_post() {
    let state = state_with_local();
    let form = vec![
        ("target", "/data/local-feeds/mine.xml"),
        ("title", "Hello"),
        ("summary", ""),
        ("link", "https://x.test"),
        ("link", ""),
        ("link", "https://y.test"),
    ];
    match extract_task(spec(Method::Post, "/local-add", &[], form), &state) {
        Ok(Task::SubmitLocalAddForm(f)) => {
            assert_eq!(f.path.display(), "/data/local-feeds/mine.xml");
            assert_eq!(f.post.title.as_deref(), Some("Hello"));
            assert_eq!(f.post.summary, None);
            assert_eq!(f.post.links, vec!["https://x.test".to_string(), "https://y.test".to_string()]);
        }
        _ => panic!("expected a local add form"),
    }
}

#[test]
fn local_add_form_rejects_unknown_field() {
    let state = state_with_local();
    let form = vec![("target", "/data/local-feeds/mine.xml"), ("colour", "red"), ("bogus", "x")];
    match extract_task(spec(Method::Post, "/local-add", &[], form), &state) {
        Err(e) => assert_eq!(e.0, "Unhandled Form pair (colour, red)"),
        _ => panic!("expected an error"),
    }
}

#[test]
fn local_add_form_rejects_outside_or_unknown_target() {
    let state = state_with_local();
    match extract_task(spec(Method::Post, "/local-add", &[], vec![("target", "/etc/passwd")]), &state) {
        Err(e) => assert_eq!(e.0, "Bad local path prefix"),
        _ => panic!("expected an error"),
    }
    match extract_task(spec(Method::Post, "/local-add", &[], vec![("target", "/data/local-feeds/new.xml")]), &state) {
        Err(e) => assert_eq!(e.0, "Local file did not exist"),
        _ => panic!("expected an error"),
    }
    match extract_task(spec(Method::Post, "/local-add", &[], vec![("title", "x")]), &state) {
        Err(e) => assert_eq!(e.0, "Bad local path prefix"),
        _ => panic!("expected an error"),
    }
}

#[test]
fn form_read_failure_is_reported() {
    let state = state_with_local();
    let mut s = spec(Method::Post, "/remote-add", &[], vec![]);
    s.form = Err("body too large".to_string());
    match extract_task(s, &state) {
        Err(e) => assert_eq!(e.0, "body too large"),
        _ => panic!("expected an error"),
    }
}

#[test]
fn remote_add_form_decodes_url() {
    let f = decode_remote_feed_add_form(vec![
        ("feed-url".to_string(), "not a url".to_string()),
        ("feed-url".to_string(), "".to_string()),
    ])
    .unwrap();
    assert_eq!(f.url, "not a url");
    let e = decode_remote_feed_add_form(vec![("url".to_string(), "x".to_string())]).unwrap_err();
    assert_eq!(e.0, "Unhandled Form pair (url, x)");
}

#[test]
fn success_pages() {
    let mut out = String::new();
    render::local_add_form_success(&mut out);
    assert!(out.starts_with("<!DOCTYPE HTML>"));
    assert!(out.ends_with("Successfully added local post"));
    let mut out = String::new();
    render::remote_feed_add_form_success(&mut out);
    assert!(out.ends_with("Successfully added remote feed"));
}

#[test]
fn remote_form_shows_previous_url_and_message() {
    let mut out = String::new();
    let previous = render::RemoteFeedAddForm { url: "not a url".to_string() };
    render::remote_feed_add_form(&mut out, "/data", Some((previous, "relative URL without a base".to_string())));
    assert!(out.contains("<form>relative URL without a base<p>"));
    assert!(out.contains("value='not a url'"));
    assert!(out.ends_with("<footer>/data</footer>"));
}

#[test]
fn local_form_marks_chosen_target() {
    let state = state_with_local();
    let targets = render::local_targets(&state);
    assert_eq!(targets.len(), 1);
    assert_eq!(targets[0].label, "local-feeds/mine.xml");
    assert_eq!(targets[0].value, "/data/local-feeds/mine.xml");
    let previous = render::LocalAddForm {
        target: "/data/local-feeds/mine.xml".to_string(),
        title: "T".to_string(),
        summary: String::new(),
        content: "C".to_string(),
        links: vec!["https://l1.test".to_string()],
    };
    let mut out = String::new();
    render::local_add_form(&mut out, &targets, "/data", Some((previous, "oops".to_string())));
    assert!(out.contains("<option value='/data/local-feeds/mine.xml' selected>local-feeds/mine.xml</option>"));
    assert!(out.contains("value='T'"));
    assert!(out.contains("cols=128>C</textarea>"));
    assert!(out.contains("id='link1' name='link' size=128 value='https://l1.test'"));
    assert!(out.contains("id='link2' name='link' size=128 value=''"));
    let mut fresh = String::new();
    render::local_add_form(&mut fresh, &targets, "/data", None);
    assert!(fresh.contains("<option value='/data/local-feeds/mine.xml' >local-feeds/mine.xml</option>"));
}

#[test]
fn home_page_lists_sections_and_controls() {
    let mut state = state_with_local();
    let atom = "<?xml version=\"1.0\"?><feed xmlns=\"http://www.w3.org/2005/Atom\"><title>T</title>\
<id>urn:f</id><updated>2024-01-01T00:00:00Z</updated><entry><title>Hi</title><id>urn:1</id>\
<updated>2024-01-01T00:00:00Z</updated><link href=\"https://h.test/1\"/><link href=\"https://h.test/2\"/>\
<summary>S</summary></entry></feed>";
    state.refresh_local_posts(&vec![atom.to_string()], Timestamp { unix_seconds: 0, nanosecond: 0, offset: UtcOffset::utc() });
    let mut out = String::new();
    assert!(render::home_page(&mut out, &state));
    assert!(out.contains("title='Fresh as of 1970-01-01T00:00:00Z UTC (taking oldest)'>Refresh Local Posts"));
    assert!(out.contains("<details><summary>local posts</summary>#L0<h2><a href=\"https://h.test/1\">Hi</a></h2><h3>S</h3><a href=\"https://h.test/2\">1</a></details>"));
    assert!(out.contains("<details><summary>remote posts</summary></details>"));
    assert!(out.ends_with("<footer>/data</footer>"));
}

#[test]
fn output_collects_written_text() {
    let mut out = render::Output::Html(String::from("<a>"));
    out.write_str("b");
    out.write_str("</a>");
    match out {
        render::Output::Html(s) => assert_eq!(s, "<a>b</a>"),
    }
}

#[test]
fn refresh_plan_keeps_its_order() {
    assert_eq!(refreshes_for(0), vec![]);
    assert_eq!(refreshes_for(7), vec![RefreshKind::Local, RefreshKind::Remote, RefreshKind::RemoteUrls]);
    assert_eq!(refreshes_for(6), vec![RefreshKind::Remote, RefreshKind::RemoteUrls]);
}
