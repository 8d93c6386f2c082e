//! The answer to a command that nobody has registered.

use vstd::prelude::*;
use vstd::string::StringExecFns;

use crate::message::Message;
use crate::wire::MessageView;

verus! {

/// Represents an "unknown" command. This is no command of the protocol: it
/// stands for a name that the dispatch table does not hold.
#[derive(Debug)]
pub struct Unknown {
    command_name: String,
}

/// The text of the error that answers the unknown command `name`.
pub open spec fn unknown_reply(name: Seq<char>) -> Seq<char> {
    "ERR unknown command '"@ + name + "'"@
}

impl Unknown {
    /// The name that the client sent, in lower case.
    pub closed spec fn name(self) -> Seq<char> {
        self.command_name@
    }

    /// Create a new `Unknown` command which responds to unknown commands
    /// issued by clients.
    pub fn new(key: String) -> (cmd: Unknown)
        ensures
            cmd.name() == key@,
    {
        Unknown { command_name: key }
    }

    /// Returns the command name.
    pub fn get_name(&self) -> (name: &str)
        ensures
            name@ == self.name(),
    {
        self.command_name.as_str()
    }

    /// The response to the client, indicating the command is not recognized.
    pub fn apply(self) -> (response: Message)
        ensures
            response@ == MessageView::Error(unknown_reply(self.name())),
    {
        let mut text = "ERR unknown command '".to_string();
        text.append(self.command_name.as_str());
        text.append("'");
        Message::Error(text)
    }
}

} // verus!
