use vstd::prelude::*;
use vstd::string::*;

use crate::naming::{str_text, string_text};

verus! {

/// The screens of the interactive front end.
#[derive(Clone, Copy, Debug, PartialEq, Eq, Structural)]
pub enum View {
    Menu,
    CreateBackup,
    RestoreBackup,
    Shutdown,
}

impl View {
    pub fn default_view() -> (r: View)
        ensures
            r == View::Menu,
    {
        View::Menu
    }
}

/// What the worker is doing, as the front end reports it.
#[derive(Debug)]
pub enum ActionKind {
    CreateBackup { name: String },
    RestoreBackup { name: String },
}

pub open spec fn action_name(k: ActionKind) -> Seq<char> {
    match k {
        ActionKind::CreateBackup { name } => string_text(name),
        ActionKind::RestoreBackup { name } => string_text(name),
    }
}

fn labelled(label: &str, name: &String) -> (r: String)
    ensures
        string_text(r) == str_text(label) + string_text(*name),
{
    let mut s = String::from_str(label);
    s.append(name.as_str());
    s
}

impl ActionKind {
    pub fn describe(&self) -> (r: String)
        ensures
            self is CreateBackup ==> string_text(r) == str_text("Creating backup: ") + action_name(*self),
            self is RestoreBackup ==> string_text(r) == str_text("Restoring backup: ") + action_name(*self),
    {
        match self {
            ActionKind::CreateBackup { name } => labelled("Creating backup: ", name),
            ActionKind::RestoreBackup { name } => labelled("Restoring backup: ", name),
        }
    }

    pub fn describe_complete(&self) -> (r: String)
        ensures
            self is CreateBackup ==> string_text(r) == str_text("Backup created: ") + action_name(*self),
            self is RestoreBackup ==> string_text(r) == str_text("Backup restored: ") + action_name(*self),
    {
        match self {
            ActionKind::CreateBackup { name } => labelled("Backup created: ", name),
            ActionKind::RestoreBackup { name } => labelled("Backup restored: ", name),
        }
    }

    pub fn describe_error(&self) -> (r: String)
        ensures
            self is CreateBackup ==> string_text(r) == str_text("Create backup failed: ") + action_name(*self),
            self is RestoreBackup ==> string_text(r) == str_text("Restore backup failed: ") + action_name(*self),
    {
        match self {
            ActionKind::CreateBackup { name } => labelled("Create backup failed: ", name),
            ActionKind::RestoreBackup { name } => labelled("Restore backup failed: ", name),
        }
    }
}

} // verus!
