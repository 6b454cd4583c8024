use togglctl::error::Error;
use togglctl::http::{check_reply, read_reply, Header, Method, Reply, Request};
use togglctl::toggl::{
    endpoint_url, get_request, get_running_timer, list_projects, post_request, put_request,
    resolve, running_timer, start_timer, stop_current_timer, DataEnvelope, Project, ProjectListing, Timer,
    TimerReq, TimerReqEnvelope, Timestamp, Workspace, API_BASE,
};

const AUTH: &str = "Basic c2VjcmV0OmFwaV90b2tlbg==";

fn header(name: &str, value: &str) -> Header {
    Header { name: name.to_string(), value: value.to_string() }
}

fn project(id: usize, workspace_id: usize, name: &str) -> Project {
    Project { id, workspace_id, name: name.to_string() }
}

fn workspace(id: usize, name: &str) -> Workspace {
    Workspace { id, name: name.to_string() }
}

fn moment() -> Timestamp {
    Timestamp { secs: 1_620_000_000, nanos: 250 }
}

#[test]
fn base_address_ends_in_a_slash() {
    assert_eq!(API_BASE, "https://api.track.toggl.com/api/v8/");
}

#[test]
fn resolve_reads_a_path_against_a_directory() {
    assert_eq!(resolve("https://example.net/a/b/", "c.png"), Ok("https://example.net/a/b/c.png".to_string()));
}

#[test]
fn resolve_replaces_the_last_segment_without_a_slash() {
    assert_eq!(resolve("https://example.net/a/b.html", "c.png"), Ok("https://example.net/a/c.png".to_string()));
    assert_eq!(
        resolve("https://api.track.toggl.com/api/v8", "workspaces"),
        Ok("https://api.track.toggl.com/api/workspaces".to_string())
    );
}

#[test]
fn resolve_lets_an_absolute_reference_win() {
    assert_eq!(resolve("https://alice.com/a", "http://eve.com/b"), Ok("http://eve.com/b".to_string()));
    assert_eq!(resolve("https://alice.com/a", "//eve.com/b"), Ok("https://eve.com/b".to_string()));
}

#[test]
fn resolve_writes_the_url_in_normal_form() {
    assert_eq!(resolve("HTTPS://Example.NET:443/a/../b/", ""), Ok("https://example.net/b/".to_string()));
}

#[test]
fn resolve_needs_an_absolute_base() {
    assert_eq!(resolve("not a url", "x"), Err(Error::Url(url::ParseError::RelativeUrlWithoutBase)));
    assert_eq!(resolve("", "x"), Err(Error::Url(url::ParseError::RelativeUrlWithoutBase)));
    assert_eq!(resolve("https://", "x"), Err(Error::Url(url::ParseError::EmptyHost)));
}

#[test]
fn resolve_fails_where_the_reference_means_no_url() {
    assert_eq!(resolve("https://example.net/", "//[bad"), Err(Error::Url(url::ParseError::InvalidIpv6Address)));
    assert_eq!(
        resolve("mailto:someone@example.net", "x"),
        Err(Error::Url(url::ParseError::RelativeUrlWithCannotBeABaseBase))
    );
}

#[test]
fn endpoint_joins_path_to_base() {
    assert_eq!(endpoint_url("workspaces"), Ok("https://api.track.toggl.com/api/v8/workspaces".to_string()));
    assert_eq!(
        endpoint_url("time_entries/current"),
        Ok("https://api.track.toggl.com/api/v8/time_entries/current".to_string())
    );
}

#[test]
fn endpoint_of_empty_path_is_the_base() {
    assert_eq!(endpoint_url(""), Ok("https://api.track.toggl.com/api/v8/".to_string()));
}

#[test]
fn endpoint_follows_url_joining_rules() {
    assert_eq!(endpoint_url("/me"), Ok("https://api.track.toggl.com/me".to_string()));
    assert_eq!(endpoint_url("../v9/me"), Ok("https://api.track.toggl.com/api/v9/me".to_string()));
    assert_eq!(endpoint_url("a b"), Ok("https://api.track.toggl.com/api/v8/a%20b".to_string()));
}

#[test]
fn endpoint_that_cannot_be_joined() {
    assert!(matches!(endpoint_url("https://"), Err(Error::Url(_))));
    assert_eq!(endpoint_url("//[bad"), Err(Error::Url(url::ParseError::InvalidIpv6Address)));
}

#[test]
fn get_request_carries_credentials_and_content_type() {
    let request = get_request("secret", "workspaces").unwrap();
    assert_eq!(
        request,
        Request {
            method: Method::Get,
            url: "https://api.track.toggl.com/api/v8/workspaces".to_string(),
            headers: vec![header("Authorization", AUTH), header("Content-Type", "application/json")],
            body: None,
        }
    );
}

#[test]
fn post_request_carries_the_body() {
    let body = TimerReqEnvelope {
        time_entry: TimerReq { pid: 7, start: moment(), created_with: "test".to_string() },
    };
    let request = post_request("secret", "time_entries/start", body.clone()).unwrap();
    assert_eq!(
        request,
        Request {
            method: Method::Post,
            url: "https://api.track.toggl.com/api/v8/time_entries/start".to_string(),
            headers: vec![header("Authorization", AUTH)],
            body: Some(body),
        }
    );
}

#[test]
fn put_request_announces_an_empty_body() {
    let request = put_request("secret", "time_entries/12/stop").unwrap();
    assert_eq!(
        request,
        Request {
            method: Method::Put,
            url: "https://api.track.toggl.com/api/v8/time_entries/12/stop".to_string(),
            headers: vec![
                header("Authorization", AUTH),
                header("Content-Type", "application/json"),
                header("Content-Length", "0"),
            ],
            body: None,
        }
    );
}

#[test]
fn request_to_a_bad_path_fails() {
    assert!(matches!(get_request("secret", "https://"), Err(Error::Url(_))));
    assert!(matches!(put_request("secret", "https://"), Err(Error::Url(_))));
    let body = TimerReqEnvelope {
        time_entry: TimerReq { pid: 7, start: moment(), created_with: "test".to_string() },
    };
    assert!(matches!(post_request("secret", "https://", body), Err(Error::Url(_))));
}

#[test]
fn start_timer_posts_a_new_entry() {
    let request = start_timer("secret", 163453989, moment()).unwrap();
    assert_eq!(request.method, Method::Post);
    assert_eq!(request.url, "https://api.track.toggl.com/api/v8/time_entries/start");
    assert_eq!(request.headers, vec![header("Authorization", AUTH)]);
    assert_eq!(
        request.body,
        Some(TimerReqEnvelope {
            time_entry: TimerReq {
                pid: 163453989,
                start: moment(),
                created_with: "togglctl".to_string(),
            },
        })
    );
}

#[test]
fn running_timer_is_asked_for_at_current() {
    let request = get_running_timer("secret").unwrap();
    assert_eq!(request.method, Method::Get);
    assert_eq!(request.url, "https://api.track.toggl.com/api/v8/time_entries/current");
    assert_eq!(request.body, None);
}

#[test]
fn running_timer_is_unwrapped() {
    let timer = Timer { id: 5, workspace_id: 2, start: moment() };
    assert_eq!(running_timer(Reply::Body(Some(DataEnvelope { data: timer }))), Ok(Some(timer)));
}

#[test]
fn undecodable_body_means_no_timer() {
    assert_eq!(running_timer(Reply::Body(None)), Ok(None));
}

#[test]
fn running_timer_hands_on_failures() {
    assert_eq!(
        running_timer(Reply::Status { status: 403, url: "u".to_string() }),
        Err(Error::Status { status: 403, url: "u".to_string() })
    );
    assert_eq!(
        running_timer(Reply::Transport("dns".to_string())),
        Err(Error::Transport("dns".to_string()))
    );
}

#[test]
fn stop_without_running_timer_sends_nothing() {
    assert_eq!(stop_current_timer("secret", None), Ok(None));
}

#[test]
fn stop_puts_to_the_entry() {
    let timer = Timer { id: 1234, workspace_id: 2, start: moment() };
    let request = stop_current_timer("secret", Some(timer)).unwrap().unwrap();
    assert_eq!(request.method, Method::Put);
    assert_eq!(request.url, "https://api.track.toggl.com/api/v8/time_entries/1234/stop");
    assert_eq!(
        request.headers,
        vec![
            header("Authorization", AUTH),
            header("Content-Type", "application/json"),
            header("Content-Length", "0"),
        ]
    );
}

#[test]
fn read_reply_gives_the_body() {
    assert_eq!(read_reply(Reply::Body(Some(3))), Ok(Some(3)));
    assert_eq!(read_reply::<u8>(Reply::Body(None)), Ok(None));
}

#[test]
fn read_reply_gives_the_failure() {
    assert_eq!(
        read_reply::<u8>(Reply::Status { status: 404, url: "https://x/".to_string() }),
        Err(Error::Status { status: 404, url: "https://x/".to_string() })
    );
    assert_eq!(
        read_reply::<u8>(Reply::Transport("timed out".to_string())),
        Err(Error::Transport("timed out".to_string()))
    );
}

#[test]
fn check_reply_ignores_the_body() {
    assert_eq!(check_reply(Reply::Body(Some(3))), Ok(()));
    assert_eq!(check_reply::<u8>(Reply::Body(None)), Ok(()));
    assert_eq!(
        check_reply::<u8>(Reply::Status { status: 500, url: "u".to_string() }),
        Err(Error::Status { status: 500, url: "u".to_string() })
    );
    assert_eq!(
        check_reply::<u8>(Reply::Transport("reset".to_string())),
        Err(Error::Transport("reset".to_string()))
    );
}

#[test]
fn listing_begins_with_the_workspaces() {
    let request = list_projects("secret").unwrap();
    assert_eq!(request.method, Method::Get);
    assert_eq!(request.url, "https://api.track.toggl.com/api/v8/workspaces");
}

#[test]
fn listing_walks_the_workspaces_in_order() {
    let reply = Reply::Body(Some(vec![workspace(10, "one"), workspace(20, "two")]));
    let mut listing = ProjectListing::begin(reply).unwrap();
    assert!(!listing.is_complete());

    let first = listing.next_request("secret").unwrap().unwrap();
    assert_eq!(first.method, Method::Get);
    assert_eq!(first.url, "https://api.track.toggl.com/api/v8/workspaces/10/projects");
    assert_eq!(first.headers, vec![header("Authorization", AUTH), header("Content-Type", "application/json")]);
    assert_eq!(listing.receive(Reply::Body(Some(vec![project(1, 10, "beta"), project(2, 10, "alpha")]))), Ok(()));

    let second = listing.next_request("secret").unwrap().unwrap();
    assert_eq!(second.url, "https://api.track.toggl.com/api/v8/workspaces/20/projects");
    assert_eq!(listing.receive(Reply::Body(Some(vec![project(3, 20, "gamma"), project(4, 20, "beta")]))), Ok(()));

    assert!(listing.is_complete());
    assert_eq!(listing.next_request("secret"), Ok(None));
    assert_eq!(
        listing.finish(),
        vec![project(3, 20, "gamma"), project(1, 10, "beta"), project(4, 20, "beta"), project(2, 10, "alpha")]
    );
}

#[test]
fn listing_without_decodable_workspaces_is_empty() {
    let listing = ProjectListing::begin(Reply::Body(None)).unwrap();
    assert!(listing.is_complete());
    assert_eq!(listing.next_request("secret"), Ok(None));
    assert_eq!(listing.finish(), Vec::<Project>::new());
}

#[test]
fn listing_fails_when_workspaces_fail() {
    let failed = ProjectListing::begin(Reply::Status { status: 403, url: "u".to_string() });
    assert_eq!(failed.err(), Some(Error::Status { status: 403, url: "u".to_string() }));
}

#[test]
fn listing_skips_undecodable_projects() {
    let mut listing = ProjectListing::begin(Reply::Body(Some(vec![workspace(1, "a"), workspace(2, "b")]))).unwrap();
    assert_eq!(listing.receive(Reply::Body(None)), Ok(()));
    assert_eq!(listing.receive(Reply::Body(Some(vec![project(9, 2, "only")]))), Ok(()));
    assert!(listing.is_complete());
    assert_eq!(listing.finish(), vec![project(9, 2, "only")]);
}

#[test]
fn listing_stays_put_on_failure() {
    let mut listing = ProjectListing::begin(Reply::Body(Some(vec![workspace(1, "a")]))).unwrap();
    assert_eq!(
        listing.receive(Reply::Transport("down".to_string())),
        Err(Error::Transport("down".to_string()))
    );
    assert!(!listing.is_complete());
    let again = listing.next_request("secret").unwrap().unwrap();
    assert_eq!(again.url, "https://api.track.toggl.com/api/v8/workspaces/1/projects");
}

#[test]
fn listing_ignores_replies_nobody_asked_for() {
    let mut listing = ProjectListing::begin(Reply::Body(Some(Vec::new()))).unwrap();
    assert_eq!(listing.receive(Reply::Body(Some(vec![project(1, 1, "stray")]))), Ok(()));
    assert_eq!(listing.finish(), Vec::<Project>::new());
}
