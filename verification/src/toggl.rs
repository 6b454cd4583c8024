//! The time-tracking service: its records, the requests that the client
//! sends to it and what it makes of the answers.

use crate::auth::{authorization, authorization_value, encodable};
use crate::error::Error;
use crate::http::{
    get_view, post_view, put_view, read_reply, reply_outcome, Reply, Request, RequestView,
};
use crate::order::{is_stable_sort, stable_sort, Ranked};
use crate::text::{
    decimal, lemma_text_before_total, lemma_text_before_transitive, push_decimal, text_before,
    text_less,
};
use vstd::prelude::*;

verus! {

/// The address under which every endpoint of the service lies. The slash at
/// its end matters: without it, joining a path would replace the last
/// segment.
pub const API_BASE: &'static str = "https://api.track.toggl.com/api/v8/";

/// A grouping of projects.
#[derive(Debug, Clone, PartialEq, Eq)]
pub struct Workspace {
    pub id: usize,
    pub name: String,
}

/// Something that time is tracked against.
#[derive(Debug, Clone, PartialEq, Eq, PartialOrd, Ord)]
pub struct Project {
    pub id: usize,
    pub workspace_id: usize,
    pub name: String,
}

/// A point in time: seconds since the Unix epoch, UTC, and the nanoseconds
/// within the second.
#[derive(Debug, Clone, Copy, PartialEq, Eq)]
pub struct Timestamp {
    pub secs: i64,
    pub nanos: u32,
}

/// A time entry that is running.
#[derive(Debug, Clone, Copy, PartialEq, Eq)]
pub struct Timer {
    pub id: usize,
    pub workspace_id: usize,
    pub start: Timestamp,
}

/// What the service is told of a time entry to start.
#[derive(Debug, Clone, PartialEq, Eq)]
pub struct TimerReq {
    pub pid: usize,
    pub start: Timestamp,
    pub created_with: String,
}

/// The wrapping in which a `TimerReq` is sent.
#[derive(Debug, Clone, PartialEq, Eq)]
pub struct TimerReqEnvelope {
    pub time_entry: TimerReq,
}

/// The wrapping in which the service sends a single record.
#[derive(Debug, Clone, PartialEq, Eq)]
pub struct DataEnvelope<T> {
    pub data: T,
}

/// A project, its name as a sequence of characters.
pub struct ProjectView {
    pub id: usize,
    pub workspace_id: usize,
    pub name: Seq<char>,
}

impl View for Project {
    type V = ProjectView;

    open spec fn view(&self) -> ProjectView {
        ProjectView { id: self.id, workspace_id: self.workspace_id, name: self.name@ }
    }
}

/// A time entry to start, its texts as sequences of characters.
pub struct TimerReqView {
    pub pid: usize,
    pub start: Timestamp,
    pub created_with: Seq<char>,
}

impl View for TimerReqEnvelope {
    type V = TimerReqView;

    open spec fn view(&self) -> TimerReqView {
        TimerReqView {
            pid: self.time_entry.pid,
            start: self.time_entry.start,
            created_with: self.time_entry.created_with@,
        }
    }
}

/// The URL that `input` writes, in the form in which the `url` crate writes
/// it back; `None` where `input` writes no absolute URL.
pub uninterp spec fn parsed_url(input: Seq<char>) -> Option<Seq<char>>;

/// The URL that `reference` means when it is read against the URL that
/// `base` writes; `None` where it means none.
pub uninterp spec fn joined_url(base: Seq<char>, reference: Seq<char>) -> Option<Seq<char>>;

/// The URL that `reference` means when it is read against `base`; `None`
/// where `base` writes no absolute URL or `reference` means none against it.
pub open spec fn resolved(base: Seq<char>, reference: Seq<char>) -> Option<Seq<char>> {
    if parsed_url(base) is Some {
        joined_url(base, reference)
    } else {
        None
    }
}

/// Reads `reference` against the URL that `base` writes, as a browser reads a
/// link against the address of its page.
pub fn resolve(base: &str, reference: &str) -> (r: Result<String, Error>)
    ensures
        match r {
            Ok(url) => resolved(base@, reference@) == Some(url@),
            Err(e) => resolved(base@, reference@) is None && e is Url,
        },
{
    if let Err(reason) = parse_url(base) {
        return Err(Error::Url(reason));
    }
    match join_url(base, reference) {
        Ok(url) => Ok(url),
        Err(reason) => Err(Error::Url(reason)),
    }
}

/// The address of the endpoint `api_path`.
pub open spec fn endpoint(api_path: Seq<char>) -> Option<Seq<char>> {
    resolved(API_BASE@, api_path)
}

/// The address of the endpoint `api_path`: the path read against `API_BASE`.
pub fn endpoint_url(api_path: &str) -> (r: Result<String, Error>)
    ensures
        match r {
            Ok(url) => endpoint(api_path@) == Some(url@),
            Err(e) => endpoint(api_path@) is None && e is Url,
        },
{
    resolve(API_BASE, api_path)
}

/// Whether a request to `api_path` can be made with `token`.
pub open spec fn can_request(token: Seq<char>, api_path: Seq<char>) -> bool {
    encodable(token) && endpoint(api_path) is Some
}

/// Whether `e` says why no request to `api_path` can be made with `token`.
/// The credentials are looked at before the address.
pub open spec fn request_failure(token: Seq<char>, api_path: Seq<char>, e: Error) -> bool {
    if !encodable(token) {
        e is TokenTooLong
    } else {
        endpoint(api_path) is None && e is Url
    }
}

/// Whether `r` is what building a request to `api_path` with `token` gives,
/// where `expected` is the request to build: that request where one can be
/// made, else the reason why none can.
pub open spec fn is_built(
    r: Result<Request, Error>,
    token: Seq<char>,
    api_path: Seq<char>,
    expected: RequestView,
) -> bool {
    match r {
        Ok(request) => can_request(token, api_path) && request@ == expected,
        Err(e) => request_failure(token, api_path, e),
    }
}

/// As `is_built`, for a request that is wrapped in `Some`.
pub open spec fn is_built_some(
    r: Result<Option<Request>, Error>,
    token: Seq<char>,
    api_path: Seq<char>,
    expected: RequestView,
) -> bool {
    match r {
        Ok(Some(request)) => can_request(token, api_path) && request@ == expected,
        Ok(None) => false,
        Err(e) => request_failure(token, api_path, e),
    }
}

/// The request that reads the endpoint `api_path`.
pub open spec fn read_request(token: Seq<char>, api_path: Seq<char>) -> RequestView {
    get_view(endpoint(api_path)->0, authorization_value(token))
}

/// The request that sends `body` to the endpoint `api_path`.
pub open spec fn send_request(token: Seq<char>, api_path: Seq<char>, body: TimerReqView) -> RequestView {
    post_view(endpoint(api_path)->0, authorization_value(token), body)
}

/// The request that triggers the endpoint `api_path`.
pub open spec fn trigger_request(token: Seq<char>, api_path: Seq<char>) -> RequestView {
    put_view(endpoint(api_path)->0, authorization_value(token))
}

/// Builds the request that reads the endpoint `api_path`.
pub fn get_request(token: &str, api_path: &str) -> (r: Result<Request, Error>)
    ensures
        is_built(r, token@, api_path@, read_request(token@, api_path@)),
{
    let auth = match authorization(token) {
        Ok(auth) => auth,
        Err(e) => {
            return Err(e);
        },
    };
    let url = match endpoint_url(api_path) {
        Ok(url) => url,
        Err(e) => {
            return Err(e);
        },
    };
    Ok(Request::get(url, auth))
}

/// Builds the request that sends `body` to the endpoint `api_path`.
pub fn post_request(token: &str, api_path: &str, body: TimerReqEnvelope) -> (r: Result<
    Request,
    Error,
>)
    ensures
        is_built(r, token@, api_path@, send_request(token@, api_path@, body@)),
{
    let auth = match authorization(token) {
        Ok(auth) => auth,
        Err(e) => {
            return Err(e);
        },
    };
    let url = match endpoint_url(api_path) {
        Ok(url) => url,
        Err(e) => {
            return Err(e);
        },
    };
    Ok(Request::post(url, auth, body))
}

/// Builds the request that triggers the endpoint `api_path`, with nothing to
/// send.
pub fn put_request(token: &str, api_path: &str) -> (r: Result<Request, Error>)
    ensures
        is_built(r, token@, api_path@, trigger_request(token@, api_path@)),
{
    let auth = match authorization(token) {
        Ok(auth) => auth,
        Err(e) => {
            return Err(e);
        },
    };
    let url = match endpoint_url(api_path) {
        Ok(url) => url,
        Err(e) => {
            return Err(e);
        },
    };
    Ok(Request::put(url, auth))
}

/// The time entry that starts at `start` for the project `project_id`.
pub open spec fn new_entry(project_id: usize, start: Timestamp) -> TimerReqView {
    TimerReqView { pid: project_id, start, created_with: "togglctl"@ }
}

/// The path of the endpoint that starts a time entry.
pub open spec fn start_path() -> Seq<char> {
    "time_entries/start"@
}

/// The path of the endpoint that tells which time entry is running.
pub open spec fn current_path() -> Seq<char> {
    "time_entries/current"@
}

/// The path of the endpoint that stops the time entry `id`.
pub open spec fn stop_path(id: usize) -> Seq<char> {
    "time_entries/"@ + decimal(id as nat) + "/stop"@
}

/// The path of the endpoint that lists the workspaces.
pub open spec fn workspaces_path() -> Seq<char> {
    "workspaces"@
}

/// The path of the endpoint that lists the projects of the workspace `id`.
pub open spec fn projects_path(id: usize) -> Seq<char> {
    "workspaces/"@ + decimal(id as nat) + "/projects"@
}

/// Builds the request that starts a timer for the project `project_id` at
/// `start`.
pub fn start_timer(token: &str, project_id: usize, start: Timestamp) -> (r: Result<Request, Error>)
    ensures
        is_built(
            r,
            token@,
            start_path(),
            send_request(token@, start_path(), new_entry(project_id, start)),
        ),
{
    let req = TimerReqEnvelope {
        time_entry: TimerReq { pid: project_id, start, created_with: "togglctl".to_owned() },
    };
    post_request(token, "time_entries/start", req)
}

/// Builds the request that asks for the timer that is running.
pub fn get_running_timer(token: &str) -> (r: Result<Request, Error>)
    ensures
        is_built(r, token@, current_path(), read_request(token@, current_path())),
{
    get_request(token, "time_entries/current")
}

/// The timer that a reply reports as running, if any.
pub open spec fn reported_timer(reply: Reply<DataEnvelope<Timer>>) -> Result<Option<Timer>, Error> {
    match reply_outcome(reply) {
        Ok(Some(envelope)) => Ok(Some(envelope.data)),
        Ok(None) => Ok(None),
        Err(e) => Err(e),
    }
}

/// Reads the reply to `get_running_timer`: the timer that is running, if
/// any. A body that could not be decoded means that none is.
pub fn running_timer(reply: Reply<DataEnvelope<Timer>>) -> (r: Result<Option<Timer>, Error>)
    ensures
        r == reported_timer(reply),
{
    match read_reply(reply) {
        Ok(Some(envelope)) => Ok(Some(envelope.data)),
        Ok(None) => Ok(None),
        Err(e) => Err(e),
    }
}

/// Builds the request that stops the timer `running`; none where no timer
/// runs.
pub fn stop_current_timer(token: &str, running: Option<Timer>) -> (r: Result<
    Option<Request>,
    Error,
>)
    ensures
        match running {
            None => r == Ok::<Option<Request>, Error>(None),
            Some(timer) => is_built_some(
                r,
                token@,
                stop_path(timer.id),
                trigger_request(token@, stop_path(timer.id)),
            ),
        },
{
    match running {
        None => Ok(None),
        Some(timer) => {
            let mut path = "time_entries/".to_owned();
            push_decimal(&mut path, timer.id);
            path.append("/stop");
            match put_request(token, path.as_str()) {
                Ok(request) => Ok(Some(request)),
                Err(e) => Err(e),
            }
        },
    }
}

/// Projects rank by name, from the last in dictionary order to the first.
impl Ranked for Project {
    open spec fn outranks(&self, other: &Self) -> bool {
        text_before(other.name@, self.name@)
    }

    fn is_ahead_of(&self, other: &Self) -> (r: bool) {
        text_less(other.name.as_str(), self.name.as_str())
    }

    proof fn lemma_ranking(a: &Self, b: &Self, c: &Self) {
        lemma_text_before_total(a.name@, b.name@);
        lemma_text_before_total(b.name@, c.name@);
        lemma_text_before_total(a.name@, c.name@);
        if text_before(c.name@, a.name@) && text_before(a.name@, b.name@) {
            lemma_text_before_transitive(c.name@, a.name@, b.name@);
        }
    }
}

/// Builds the request that asks for the workspaces, with which listing the projects
/// begins.
pub fn list_projects(token: &str) -> (r: Result<Request, Error>)
    ensures
        is_built(r, token@, workspaces_path(), read_request(token@, workspaces_path())),
{
    get_request(token, "workspaces")
}

/// The listing of all projects, under way: the workspaces whose projects are
/// still to be asked for, and the projects received so far.
#[derive(Debug)]
pub struct ProjectListing {
    waiting: Vec<Workspace>,
    projects: Vec<Project>,
}

/// What there is to know of a listing under way.
pub struct ProjectListingView {
    /// The workspaces whose projects are still to be asked for, in order.
    pub waiting: Seq<Workspace>,
    /// The projects received so far, in the order of their arrival.
    pub projects: Seq<Project>,
}

impl View for ProjectListing {
    type V = ProjectListingView;

    closed spec fn view(&self) -> ProjectListingView {
        ProjectListingView { waiting: self.waiting@, projects: self.projects@ }
    }
}

/// The workspaces that a decoded reply to `list_projects` names: none where
/// the body could not be decoded.
pub open spec fn named_workspaces(workspaces: Option<Vec<Workspace>>) -> Seq<Workspace> {
    match workspaces {
        Some(workspaces) => workspaces@,
        None => Seq::empty(),
    }
}

/// The projects that a decoded reply brings: none where the body could not
/// be decoded.
pub open spec fn brought_projects(batch: Option<Vec<Project>>) -> Seq<Project> {
    match batch {
        Some(batch) => batch@,
        None => Seq::empty(),
    }
}

impl ProjectListing {
    /// Reads the reply to `list_projects`: the listing, with every workspace
    /// that the reply names waiting, or the failure.
    pub fn begin(reply: Reply<Vec<Workspace>>) -> (r: Result<ProjectListing, Error>)
        ensures
            match reply_outcome(reply) {
                Ok(workspaces) => r is Ok && r->Ok_0@.waiting == named_workspaces(workspaces)
                    && r->Ok_0@.projects == Seq::<Project>::empty(),
                Err(e) => r is Err && r->Err_0 == e,
            },
    {
        let waiting = match read_reply(reply) {
            Ok(Some(workspaces)) => workspaces,
            Ok(None) => Vec::new(),
            Err(e) => {
                return Err(e);
            },
        };
        Ok(ProjectListing { waiting, projects: Vec::new() })
    }

    /// Whether the projects of every workspace have been received.
    pub fn is_complete(&self) -> (r: bool)
        ensures
            r == (self@.waiting.len() == 0),
    {
        self.waiting.len() == 0
    }

    /// Builds the request for the projects of the first workspace that is
    /// waiting; none where no workspace is.
    pub fn next_request(&self, token: &str) -> (r: Result<Option<Request>, Error>)
        ensures
            self@.waiting.len() == 0 ==> r == Ok::<Option<Request>, Error>(None),
            self@.waiting.len() > 0 ==> is_built_some(
                r,
                token@,
                projects_path(self@.waiting[0].id),
                read_request(token@, projects_path(self@.waiting[0].id)),
            ),
    {
        if self.waiting.len() == 0 {
            return Ok(None);
        }
        let mut path = "workspaces/".to_owned();
        push_decimal(&mut path, self.waiting[0].id);
        path.append("/projects");
        match get_request(token, path.as_str()) {
            Ok(request) => Ok(Some(request)),
            Err(e) => Err(e),
        }
    }

    /// Reads the reply to `next_request`. A failure is handed on and the
    /// listing stays as it is. Else the projects that the reply brings are
    /// taken in, and the first workspace that was waiting waits no longer;
    /// where none was waiting, nothing changes.
    pub fn receive(&mut self, reply: Reply<Vec<Project>>) -> (r: Result<(), Error>)
        ensures
            match reply_outcome(reply) {
                Ok(batch) => r is Ok && if old(self)@.waiting.len() == 0 {
                    final(self)@ == old(self)@
                } else {
                    final(self)@.waiting == old(self)@.waiting.skip(1) && final(self)@.projects
                        == old(self)@.projects + brought_projects(batch)
                },
                Err(e) => r is Err && r->Err_0 == e && final(self)@ == old(self)@,
            },
    {
        let batch = match read_reply(reply) {
            Ok(batch) => batch,
            Err(e) => {
                return Err(e);
            },
        };
        if self.waiting.len() == 0 {
            return Ok(());
        }
        self.waiting.remove(0);
        assert(self.waiting@ =~= old(self).waiting@.skip(1));
        match batch {
            Some(mut batch) => {
                self.projects.append(&mut batch);
            },
            None => {
                assert(self.projects@ =~= old(self).projects@ + Seq::<Project>::empty());
            },
        }
        Ok(())
    }

    /// The projects received, sorted by name from the last in dictionary
    /// order to the first; projects of one name stay in the order of their
    /// arrival.
    pub fn finish(self) -> (r: Vec<Project>)
        ensures
            is_stable_sort(self@.projects, r@),
    {
        stable_sort(self.projects)
    }
}

/// `url::Url::parse`, the URL it gives written back as text by
/// `String::from`. Taken on trust: whether it succeeds, and that text, depend
/// on `input` alone, which is what `parsed_url` names.
#[verifier::external_body]
fn parse_url(input: &str) -> (r: Result<String, url::ParseError>)
    ensures
        r is Ok <==> parsed_url(input@) is Some,
        r matches Ok(text) ==> parsed_url(input@) == Some(text@),
{
    url::Url::parse(input).map(String::from)
}

/// `url::Url::join`, the URL it gives written back as text by
/// `String::from`. The URL to join onto is handed over as the text `base`
/// and made by `url::Url::parse`, which succeeds where `requires` holds.
/// Taken on trust: whether the join succeeds, and that text, depend on the
/// two texts alone, which is what `joined_url` names.
#[verifier::external_body]
fn join_url(base: &str, reference: &str) -> (r: Result<String, url::ParseError>)
    requires
        parsed_url(base@) is Some,
    ensures
        r is Ok <==> joined_url(base@, reference@) is Some,
        r matches Ok(text) ==> joined_url(base@, reference@) == Some(text@),
{
    let base = url::Url::parse(base)?;
    base.join(reference).map(String::from)
}


} // verus!
