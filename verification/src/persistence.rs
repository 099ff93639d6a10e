//! The checks and records of the project and run store that do not touch
//! the database.
use vstd::prelude::*;

use crate::error::{config_error, Error};
use crate::models::Project;
use crate::text::{is_blank, trim};

verus! {

/// A run recorded for a dispatch: its id (the 128-bit value of a UUID), and
/// whether this dispatch created it or it existed for the idempotency key.
#[derive(Debug, Clone, Copy, PartialEq, Eq, Structural)]
pub struct PreparedRun {
    pub id: u128,
    pub created: bool,
}

/// What keeps a project from being stored: a blank name, or a name longer
/// than 120 bytes in UTF-8.
pub open spec fn project_name_problem(p: Project) -> Option<Seq<char>> {
    if trim(p.name@).len() == 0 {
        Some("project.name is required"@)
    } else if vstd::utf8::encode_utf8(p.name@).len() > 120 {
        Some("project.name is too long"@)
    } else {
        None
    }
}

pub fn validate_project_name(project: &Project) -> (r: Result<(), Error>)
    ensures
        match project_name_problem(*project) {
            None => r is Ok,
            Some(m) => r matches Err(Error::Config(t)) && t@ == m,
        },
{
    if is_blank(project.name.as_str()) {
        return Err(config_error("project.name is required"));
    }
    if project.name.as_str().as_bytes().len() > 120 {
        return Err(config_error("project.name is too long"));
    }
    Ok(())
}

/// How many runs a listing returns: the requested number, kept within 1 to
/// 100.
pub fn run_list_limit(limit: i64) -> (r: i64)
    ensures
        r == (if limit < 1 {
            1
        } else if limit > 100 {
            100
        } else {
            limit
        }),
{
    if limit < 1 {
        1
    } else if limit > 100 {
        100
    } else {
        limit
    }
}

} // verus!
