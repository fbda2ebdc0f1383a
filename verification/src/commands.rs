//! Command execution decisions: recognising bang queries typed into the
//! popup, and choosing the program invocation an action stands for.
//!
//! Spawning the chosen program happens outside the core.

use vstd::prelude::*;
use crate::models::Action;
use crate::text::{find_char, first_index_of, spec_trim, trim_str};

verus! {

/// Decides what typed commands and selected actions mean.
pub struct CommandExecutor {}

/// What parsing a bang query yields: the bang token and the search term,
/// both trimmed, when the query holds a space, its first token starts
/// with a bang mark, and neither side trims away to nothing.
pub open spec fn spec_parse_bang(q: Seq<char>) -> Option<(Seq<char>, Seq<char>)> {
    match first_index_of(q, ' ') {
        Some(sp) => {
            let head = q.subrange(0, sp);
            let tail = q.subrange(sp + 1, q.len() as int);
            if head.len() > 0 && head[0] == '!' {
                let bang = spec_trim(head);
                let term = spec_trim(tail);
                if bang.len() > 0 && term.len() > 0 {
                    Some((bang, term))
                } else {
                    None
                }
            } else {
                None
            }
        },
        None => None,
    }
}

impl CommandExecutor {
    /// A fresh executor.
    pub fn new() -> (r: CommandExecutor) {
        CommandExecutor {  }
    }

    /// Whether the query, once trimmed, starts with a bang mark.
    pub fn is_bang_command(&self, query: &str) -> (r: bool)
        ensures
            r == (spec_trim(query@).len() > 0 && spec_trim(query@)[0] == '!'),
    {
        let trimmed = trim_str(query);
        if trimmed.as_str().unicode_len() == 0 {
            return false;
        }
        trimmed.as_str().get_char(0) == '!'
    }

    /// Split a bang query into the bang token and the search term.
    pub fn parse_bang_command(&self, query: &str) -> (r: Option<(String, String)>)
        ensures
            match r {
                Some(p) => spec_parse_bang(query@) == Some((p.0@, p.1@)),
                None => spec_parse_bang(query@) is None,
            },
    {
        let qlen = query.unicode_len();
        match find_char(query, ' ') {
            Some(sp) => {
                let head = query.substring_char(0, sp);
                let tail = query.substring_char(sp + 1, qlen);
                let head_len = head.unicode_len();
                if head_len > 0 && head.get_char(0) == '!' {
                    let bang = trim_str(head);
                    let term = trim_str(tail);
                    if bang.as_str().unicode_len() > 0 && term.as_str().unicode_len() > 0 {
                        Some((bang, term))
                    } else {
                        None
                    }
                } else {
                    None
                }
            },
            None => None,
        }
    }
}

/// A program invocation: what to spawn and with which arguments.
#[derive(Debug, Clone, PartialEq, Eq)]
pub struct LaunchPlan {
    pub program: String,
    pub args: Vec<String>,
}

/// The invocation an action stands for: files and URLs go to the
/// desktop opener, command lines to the shell; a custom action names no
/// program and is only reported.
pub fn launch_plan(action: &Action) -> (r: Option<LaunchPlan>)
    ensures
        match *action {
            Action::OpenFile(ref p) => match r {
                Some(plan) => {
                    &&& plan.program@ == "xdg-open"@
                    &&& plan.args@.len() == 1
                    &&& plan.args@[0]@ == p@
                },
                None => false,
            },
            Action::ExecuteCommand(ref c) => match r {
                Some(plan) => {
                    &&& plan.program@ == "sh"@
                    &&& plan.args@.len() == 2
                    &&& plan.args@[0]@ == "-c"@
                    &&& plan.args@[1]@ == c@
                },
                None => false,
            },
            Action::OpenUrl(ref u) => match r {
                Some(plan) => {
                    &&& plan.program@ == "xdg-open"@
                    &&& plan.args@.len() == 1
                    &&& plan.args@[0]@ == u@
                },
                None => false,
            },
            Action::Custom(_) => r is None,
        },
{
    match action {
        Action::OpenFile(p) => {
            let mut args: Vec<String> = Vec::new();
            args.push(p.clone());
            Some(LaunchPlan { program: String::from_str("xdg-open"), args })
        },
        Action::ExecuteCommand(c) => {
            let mut args: Vec<String> = Vec::new();
            args.push(String::from_str("-c"));
            args.push(c.clone());
            Some(LaunchPlan { program: String::from_str("sh"), args })
        },
        Action::OpenUrl(u) => {
            let mut args: Vec<String> = Vec::new();
            args.push(u.clone());
            Some(LaunchPlan { program: String::from_str("xdg-open"), args })
        },
        Action::Custom(_) => None,
    }
}

} // verus!
