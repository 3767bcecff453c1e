//! The control messages that `koolctl` sends to a running Kool: run a widget script, or
//! close it.
use vstd::prelude::*;

verus! {

/// A message for the runner, naming a widget script by its path.
#[derive(Clone, Debug, PartialEq, Eq)]
pub enum ControlMessage {
    Run { path: String },
    Close { path: String },
}

/// The command line's commands.
#[derive(Clone, Debug, PartialEq, Eq)]
pub enum ControlCommand {
    Run { path: String },
    Close { path: String },
}

/// The command line of `koolctl`.
#[derive(Clone, Debug)]
pub struct KoolCtl {
    pub command: ControlCommand,
}

/// What `std::path::absolute` documents of every answer for a path: it refuses the empty
/// path; it fails otherwise only where it needs the current directory, which a path that is
/// already absolute does not; and on Unix an absolute path starts with `/`. Which directory a
/// relative path is resolved against depends on the current directory of the process, so no
/// more is stated.
pub open spec fn absolute_facts(path: Seq<char>, answer: Option<Seq<char>>) -> bool {
    &&& path.len() == 0 ==> answer is None
    &&& path.len() > 0 && path[0] == '/' ==> answer is Some
    &&& answer matches Some(a) ==> a.len() > 0 && a[0] == '/'
}

/// The path a command names.
pub open spec fn command_path(command: ControlCommand) -> Seq<char> {
    match command {
        ControlCommand::Run { path } => path@,
        ControlCommand::Close { path } => path@,
    }
}

/// The path a message names.
pub open spec fn message_path(message: ControlMessage) -> Seq<char> {
    match message {
        ControlMessage::Run { path } => path@,
        ControlMessage::Close { path } => path@,
    }
}

/// Calls `std::path::absolute`, which makes a path absolute against the current directory
/// of the process; of its answer only what `absolute_facts` says is stated.
#[verifier::external_body]
fn absolute_path(path: &str) -> (r: Option<String>)
    ensures
        absolute_facts(
            path@,
            match r {
                Some(a) => Some(a@),
                None => None,
            },
        ),
{
    match std::path::absolute(std::path::Path::new(path)) {
        Ok(p) => Some(p.to_string_lossy().to_string()),
        Err(_) => None,
    }
}

impl ControlMessage {
    /// The message of a command, whose path is replaced by `absolute` when there is one.
    pub fn with_path(command: ControlCommand, absolute: Option<String>) -> (r: ControlMessage)
        ensures
            match command {
                ControlCommand::Run { path } => r matches ControlMessage::Run { path: p } && p@ == match absolute {
                    Some(a) => a@,
                    None => path@,
                },
                ControlCommand::Close { path } => r matches ControlMessage::Close { path: p } && p@ == match absolute {
                    Some(a) => a@,
                    None => path@,
                },
            },
    {
        match command {
            ControlCommand::Run { path } => ControlMessage::Run {
                path: match absolute {
                    Some(a) => a,
                    None => path,
                },
            },
            ControlCommand::Close { path } => ControlMessage::Close {
                path: match absolute {
                    Some(a) => a,
                    None => path,
                },
            },
        }
    }

    /// The message of a command, its path made absolute where the system can: the path is
    /// what `std::path::absolute` answers for the command's path, or that path when it fails.
    pub fn from_command(command: ControlCommand) -> (r: ControlMessage)
        ensures
            command is Run <==> r is Run,
            exists|a: Option<Seq<char>>|
                #[trigger] absolute_facts(command_path(command), a) && message_path(r) == match a {
                    Some(x) => x,
                    None => command_path(command),
                },
    {
        let absolute = match &command {
            ControlCommand::Run { path } => absolute_path(path.as_str()),
            ControlCommand::Close { path } => absolute_path(path.as_str()),
        };
        let ghost a = match &absolute {
            Some(x) => Some(x@),
            None => None,
        };
        let ghost p = command_path(command);
        let r = ControlMessage::with_path(command, absolute);
        assert(absolute_facts(p, a));
        r
    }

    /// The path the message names.
    pub fn path(&self) -> (r: &str)
        ensures
            r@ == match self {
                ControlMessage::Run { path } => path@,
                ControlMessage::Close { path } => path@,
            },
    {
        match self {
            ControlMessage::Run { path } => path.as_str(),
            ControlMessage::Close { path } => path.as_str(),
        }
    }
}

} // verus!
