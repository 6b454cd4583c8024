//! How a list of projects is put out.

use crate::text::{decimal, push_decimal, text_equal};
use crate::toggl::{Project, ProjectView};
use vstd::prelude::*;

verus! {

/// The format of the output.
#[derive(Debug, Clone, Copy, PartialEq, Eq, Structural)]
pub enum Output {
    /// One line for each project.
    Stdout,
    /// The list that the Alfred launcher reads.
    Alfred,
}

/// The format that `s` names: `alfred` names Alfred's, anything else the
/// plain one.
pub open spec fn named_output(s: Seq<char>) -> Output {
    if s == "alfred"@ {
        Output::Alfred
    } else {
        Output::Stdout
    }
}

/// Reads the name of an output format. Every name is accepted.
pub fn parse_output(s: &str) -> (r: Result<Output, &'static str>)
    ensures
        r == Ok::<Output, &'static str>(named_output(s@)),
{
    if text_equal(s, "alfred") {
        Ok(Output::Alfred)
    } else {
        Ok(Output::Stdout)
    }
}

/// The line that stands for `project` in the plain format: its id, a slash,
/// its name.
pub open spec fn line_of(project: ProjectView) -> Seq<char> {
    decimal(project.id as nat) + "/"@ + project.name
}

/// The line that stands for `project` in the plain format.
pub fn project_line(project: &Project) -> (r: String)
    ensures
        r@ == line_of(project@),
{
    let mut line = String::new();
    push_decimal(&mut line, project.id);
    line.append("/");
    line.append(project.name.as_str());
    line
}

} // verus!
