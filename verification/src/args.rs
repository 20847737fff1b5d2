//! The closed set of user intents, as handed in by the (unverified) command
//! line layer. One `Command` value drives one run of the store.

use vstd::prelude::*;

verus! {

/// Whether a revealed password is printed rather than sent to the clipboard.
pub struct Print(pub bool);

impl Print {
    pub fn is(&self) -> (r: bool)
        ensures
            r == self.0,
    {
        self.0
    }
}

/// Whether the password is asked for interactively instead of generated.
pub struct Prompt(pub bool);

impl Prompt {
    pub fn is(&self) -> (r: bool)
        ensures
            r == self.0,
    {
        self.0
    }
}

/// Input for the add and edit commands.
pub struct AddEditData {
    pub filepart: String,
    pub username: Option<String>,
    pub print: Print,
    pub prompt: Prompt,
    pub notes: Option<String>,
}

/// Input for the get command.
pub struct GetData {
    pub filepart: String,
    pub print: Print,
}

/// One user intent.
pub enum Command {
    Add(AddEditData),
    Del { filepart: String },
    Edit(AddEditData),
    Gen,
    Get(GetData),
    List { filepart: Option<String> },
}

} // verus!
