//! Commands: which one a frame names, and what each answers.

pub mod start_api;
pub mod unknown;

use vstd::prelude::*;
use vstd::string::StringExecFns;
use vstd::utf8::{decode_utf8, valid_utf8};

use crate::foreign::{lowercase, to_lowercase};
use crate::message::Message;
use crate::parse::{parse_error_text, Parse, ParseError, ParseErrorView};
use crate::wire::MessageView;
use start_api::{start_api_reply, StartApi};
use unknown::{unknown_reply, Unknown};

verus! {

/// Enumeration of supported commands.
///
/// Methods called on `Command` are delegated to the command implementation.
#[derive(Debug)]
pub enum Command {
    /// A name that the dispatch table does not hold.
    Unknown(Unknown),
    /// The start of a session.
    StartApi(StartApi),
}

/// A command as a mathematical value.
pub enum CommandView {
    /// An unregistered name, in lower case.
    Unknown(Seq<char>),
    /// The session start, with its message if it has one.
    StartApi(Option<Seq<u8>>),
}

impl View for Command {
    type V = CommandView;

    open spec fn view(&self) -> CommandView {
        match self {
            Command::Unknown(cmd) => CommandView::Unknown(cmd.name()),
            Command::StartApi(cmd) => CommandView::StartApi(cmd.message()),
        }
    }
}

/// The name under which `StartApi` is registered.
pub open spec fn start_api_name() -> Seq<char> {
    "startapi"@
}

/// Whether the dispatch table holds `name`.
pub open spec fn registered(name: Seq<char>) -> bool {
    name == start_api_name()
}

/// The name that a frame's first field spells, in lower case.
pub open spec fn command_name(field: Seq<u8>) -> Seq<char> {
    lowercase(decode_utf8(field))
}

/// The command of the name `name`, with `args` as the fields behind the
/// name.
///
/// A registered name has its own grammar for the fields, and all of them
/// must be used up. Any other name gives `Unknown`, whatever follows it.
pub open spec fn spec_from_name(name: Seq<char>, args: Seq<Seq<u8>>) -> Result<
    CommandView,
    ParseErrorView,
> {
    if registered(name) {
        if args.len() == 0 {
            Ok(CommandView::StartApi(None))
        } else if args.len() == 1 {
            Ok(CommandView::StartApi(Some(args[0])))
        } else {
            Err(ParseErrorView::Unconsumed)
        }
    } else {
        Ok(CommandView::Unknown(name))
    }
}

/// The command that a message stands for.
///
/// The message must be an array. Its first field, read as text and put in
/// lower case, is the name of the command, and the other fields are its
/// arguments.
pub open spec fn spec_from_message(m: MessageView) -> Result<CommandView, ParseErrorView> {
    match m {
        MessageView::Bulk(fields) => if fields.len() == 0 {
            Err(ParseErrorView::EndOfStream)
        } else if !valid_utf8(fields[0]) {
            Err(ParseErrorView::Decode("protocol error; invalid string"@))
        } else {
            spec_from_name(command_name(fields[0]), fields.skip(1))
        },
        _ => Err(ParseErrorView::Decode("protocol error; expected array frame"@)),
    }
}

/// The one message that a command answers with.
pub open spec fn spec_apply(c: CommandView) -> MessageView {
    match c {
        CommandView::Unknown(name) => MessageView::Error(unknown_reply(name)),
        CommandView::StartApi(msg) => start_api_reply(msg),
    }
}

/// The name of a command.
pub open spec fn spec_name(c: CommandView) -> Seq<char> {
    match c {
        CommandView::Unknown(name) => name,
        CommandView::StartApi(_) => start_api_name(),
    }
}

/// What is answered once a message has been taken as a command, or the
/// error that ends the connection.
///
/// A command answers for itself. A frame with too few or too many fields is
/// answered with an error message, and the connection goes on. A frame that
/// could not be read as fields at all ends the connection.
pub open spec fn spec_respond(parsed: Result<CommandView, ParseErrorView>) -> Result<
    MessageView,
    ParseErrorView,
> {
    match parsed {
        Ok(c) => Ok(spec_apply(c)),
        Err(ParseErrorView::Decode(text)) => Err(ParseErrorView::Decode(text)),
        Err(e) => Ok(MessageView::Error("ERR "@ + parse_error_text(e))),
    }
}

/// What is answered to a message, or the error that ends the connection.
///
/// The handshake is acknowledged with its own line. Any other message is
/// taken as a command.
pub open spec fn spec_dispatch(m: MessageView) -> Result<MessageView, ParseErrorView> {
    match m {
        MessageView::Handshake(line) => Ok(MessageView::Handshake(line)),
        _ => spec_respond(spec_from_message(m)),
    }
}

impl Command {
    /// Parse a command from a received frame.
    ///
    /// The message must be the array variant. On success the command is
    /// returned, otherwise the error of the field cursor.
    pub fn from_message(message: Message) -> (r: Result<Command, ParseError>)
        ensures
            match spec_from_message(message@) {
                Ok(c) => r matches Ok(cmd) && cmd@ == c,
                Err(e) => r matches Err(err) && err@ == e,
            },
    {
        let mut parse = Parse::new(message)?;
        let first = parse.next_string()?;
        let command_name = to_lowercase(first.as_str());
        proof {
            use_type_invariant(&parse);
            assert(parse.remaining() =~= parse.fields().skip(1));
        }
        Command::from_name(command_name, &mut parse)
    }

    /// The command of the name `name`, with its arguments taken from
    /// `parse`.
    ///
    /// The table of commands is looked up here. It holds names in lower
    /// case, and `name` is compared as it stands. A registered command takes
    /// the fields it has a use for, and a field left over is an error. An
    /// unregistered name gives `Unknown` and takes no field.
    pub fn from_name(name: String, parse: &mut Parse) -> (r: Result<Command, ParseError>)
        ensures
            final(parse).fields() == old(parse).fields(),
            match spec_from_name(name@, old(parse).remaining()) {
                Ok(c) => r matches Ok(cmd) && cmd@ == c,
                Err(e) => r matches Err(err) && err@ == e,
            },
            final(parse).consumed() == if registered(name@) && old(parse).remaining().len() > 0 {
                old(parse).consumed() + 1
            } else {
                old(parse).consumed()
            },
    {
        let startapi = "startapi".to_string();
        if name == startapi {
            proof {
                use_type_invariant(&*parse);
            }
            let cmd = StartApi::parse_message(parse)?;
            proof {
                use_type_invariant(&*parse);
            }
            parse.finish()?;
            Ok(Command::StartApi(cmd))
        } else {
            Ok(Command::Unknown(Unknown::new(name)))
        }
    }

    /// The one message that answers this command.
    pub fn apply(self) -> (response: Message)
        ensures
            response@ == spec_apply(self@),
    {
        match self {
            Command::Unknown(cmd) => cmd.apply(),
            Command::StartApi(cmd) => cmd.apply(),
        }
    }

    /// Returns the command name.
    pub fn get_name(&self) -> (name: &str)
        ensures
            name@ == spec_name(self@),
    {
        match self {
            Command::Unknown(cmd) => cmd.get_name(),
            Command::StartApi(_) => "startapi",
        }
    }
}

/// Answers for a frame that has been taken as a command, or has failed to
/// be.
pub fn respond(parsed: Result<Command, ParseError>) -> (r: Result<Message, ParseError>)
    ensures
        match parsed {
            Ok(cmd) => r matches Ok(response) && response@ == spec_apply(cmd@),
            Err(ParseError::Decode(text)) => r matches Err(ParseError::Decode(t)) && t@ == text@,
            Err(e) => r matches Ok(response) && response@ == MessageView::Error(
                "ERR "@ + parse_error_text(e@),
            ),
        },
{
    match parsed {
        Ok(cmd) => Ok(cmd.apply()),
        Err(ParseError::Decode(text)) => Err(ParseError::Decode(text)),
        Err(e) => {
            let mut text = "ERR ".to_string();
            let reason = e.to_text();
            text.append(reason.as_str());
            Ok(Message::Error(text))
        },
    }
}

/// Answers one message that the connection has read.
pub fn dispatch(message: Message) -> (r: Result<Message, ParseError>)
    ensures
        match spec_dispatch(message@) {
            Ok(m) => r matches Ok(response) && response@ == m,
            Err(e) => r matches Err(err) && err@ == e,
        },
{
    match message {
        Message::Handshake(line) => Ok(Message::Handshake(line)),
        other => respond(Command::from_message(other)),
    }
}

/// An unregistered name is the `Unknown` command of that name, whatever
/// fields follow it, and the command answers with an error message that
/// quotes the name.
pub proof fn lemma_unknown_name(name: Seq<char>, args: Seq<Seq<u8>>)
    requires
        !registered(name),
    ensures
        spec_from_name(name, args) == Ok::<CommandView, ParseErrorView>(CommandView::Unknown(name)),
        spec_apply(CommandView::Unknown(name)) == MessageView::Error(
            "ERR unknown command '"@ + name + "'"@,
        ),
{
}

/// An array whose first field spells an unregistered name is the `Unknown`
/// command of that name in lower case, whatever fields follow, and the answer
/// is an error message that quotes the name.
pub proof fn lemma_unknown_command(fields: Seq<Seq<u8>>)
    requires
        fields.len() > 0,
        valid_utf8(fields[0]),
        !registered(command_name(fields[0])),
    ensures
        spec_from_message(MessageView::Bulk(fields)) == Ok::<CommandView, ParseErrorView>(
            CommandView::Unknown(command_name(fields[0])),
        ),
        spec_dispatch(MessageView::Bulk(fields)) == Ok::<MessageView, ParseErrorView>(
            MessageView::Error("ERR unknown command '"@ + command_name(fields[0]) + "'"@),
        ),
{
}

} // verus!
