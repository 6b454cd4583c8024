//! The commands of the client, as far as they decide and compute.

use crate::error::Error;
use crate::http::Request;
use crate::text::{parse_decimal, parsed_number, text_equal};
use crate::toggl;
use crate::toggl::{
    is_built, is_built_some, new_entry, send_request, start_path, stop_path, trigger_request,
    Project, Timer, Timestamp,
};
use vstd::prelude::*;

verus! {

/// A command of the client.
#[derive(Debug, Clone, Copy, PartialEq, Eq, Structural)]
pub enum Command {
    /// Store the API token.
    SetAuth,
    /// List the projects.
    Projects,
    /// Start a timer.
    Start,
    /// Stop the timer that is running.
    Stop,
}

/// The command that `name` names, if any.
pub open spec fn named_command(name: Seq<char>) -> Option<Command> {
    if name == "set-auth"@ {
        Some(Command::SetAuth)
    } else if name == "projects"@ {
        Some(Command::Projects)
    } else if name == "start"@ {
        Some(Command::Start)
    } else if name == "stop"@ {
        Some(Command::Stop)
    } else {
        None
    }
}

/// Reads the name of a command.
pub fn parse_command(name: &str) -> (r: Option<Command>)
    ensures
        r == named_command(name@),
{
    if text_equal(name, "set-auth") {
        Some(Command::SetAuth)
    } else if text_equal(name, "projects") {
        Some(Command::Projects)
    } else if text_equal(name, "start") {
        Some(Command::Start)
    } else if text_equal(name, "stop") {
        Some(Command::Stop)
    } else {
        None
    }
}

/// Where the list of projects comes from.
#[derive(Debug, PartialEq, Eq)]
pub enum ProjectSource {
    /// From the cache: these are the projects.
    Cache(Vec<Project>),
    /// From the service: the projects are to be listed and then cached.
    Service,
}

/// Decides where the list of projects comes from, given what retrieving the
/// cache gave: a cache that was retrieved is used, and any failure to
/// retrieve it sends the client to the service.
pub fn projects(cached: Result<Vec<Project>, Error>) -> (r: ProjectSource)
    ensures
        match cached {
            Ok(projects) => r == ProjectSource::Cache(projects),
            Err(_) => r == ProjectSource::Service,
        },
{
    match cached {
        Ok(projects) => ProjectSource::Cache(projects),
        Err(_) => ProjectSource::Service,
    }
}

/// Builds the request that starts a timer at `start` for the project whose
/// id `project` writes in decimal. A text that writes no id is reported
/// before anything else is looked at.
pub fn start_timer(token: &str, project: &str, start: Timestamp) -> (r: Result<Request, Error>)
    ensures
        match parsed_number(project@, usize::MAX as nat) {
            Ok(id) => is_built(
                r,
                token@,
                start_path(),
                send_request(token@, start_path(), new_entry(id as usize, start)),
            ),
            Err(reason) => r == Err::<Request, Error>(Error::ProjectId(reason)),
        },
{
    let id = match parse_decimal(project) {
        Ok(id) => id,
        Err(reason) => {
            return Err(Error::ProjectId(reason));
        },
    };
    toggl::start_timer(token, id, start)
}

/// Builds the request that stops the timer `running`; none where no timer
/// runs.
pub fn stop_timer(token: &str, running: Option<Timer>) -> (r: Result<Option<Request>, Error>)
    ensures
        match running {
            None => r == Ok::<Option<Request>, Error>(None),
            Some(timer) => is_built_some(
                r,
                token@,
                stop_path(timer.id),
                trigger_request(token@, stop_path(timer.id)),
            ),
        },
{
    toggl::stop_current_timer(token, running)
}

} // verus!
