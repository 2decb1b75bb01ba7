//! The commands that the interface sends to the playback side, and the
//! channel they travel on.
use vstd::prelude::*;

use std::sync::mpsc::{SendError, Sender};

verus! {

/// A command for the playback side.
#[derive(Debug, Clone, Copy, PartialEq, Eq, Structural)]
pub enum PlaybackCommand {
    Play(usize),
    Pause,
    Resume,
    TogglePause,
    Stop,
    Next,
    Previous,
    Shutdown,
}

/// The sending end of a channel (`std::sync::mpsc::Sender`), declared so
/// that it can be passed along; nothing inside it is seen.
#[verifier::external_type_specification]
#[verifier::external_body]
#[verifier::reject_recursive_types(T)]
pub struct ExSender<T>(Sender<T>);

/// The error of a send on a channel whose receiving end is gone
/// (`std::sync::mpsc::SendError`): it holds the value that could not be
/// sent.
#[verifier::external_type_specification]
#[verifier::reject_recursive_types(T)]
pub struct ExSendError<T>(SendError<T>);

/// The channel on which the interface sends commands to the playback side,
/// with a record of every command handed to it, oldest first.
pub struct CommandChannel {
    tx: Sender<PlaybackCommand>,
    sent: Ghost<Seq<PlaybackCommand>>,
}

impl CommandChannel {
    /// The commands handed to the channel so far, oldest first, whether or
    /// not the playback side was still there to receive them.
    pub closed spec fn sent(&self) -> Seq<PlaybackCommand> {
        self.sent@
    }

    /// A channel over `tx` to which nothing has been handed yet.
    pub fn new(tx: Sender<PlaybackCommand>) -> (r: CommandChannel)
        ensures
            r.sent() == Seq::<PlaybackCommand>::empty(),
    {
        CommandChannel { tx, sent: Ghost(Seq::empty()) }
    }
}

/// Hands the command to `Sender::send`. The contract claims two things: the
/// record of the channel grows by exactly this command (the record is the
/// library's model of what was handed to the channel; the compiled code
/// holds no record), and a failed send gives the command back in its error,
/// as the documentation of `SendError` says. Whether the send succeeds
/// depends on whether the receiving end still exists, which nothing here
/// can see, so that is left open.
#[verifier::external_body]
fn channel_send(channel: &mut CommandChannel, command: PlaybackCommand) -> (r: Result<
    (),
    SendError<PlaybackCommand>,
>)
    ensures
        final(channel).sent() == old(channel).sent().push(command),
        r matches Err(e) ==> e.0 == command,
{
    channel.tx.send(command)
}

/// The message given when the playback side no longer takes commands.
pub open spec fn unavailable_message() -> Seq<char> {
    "playback thread is not available"@
}

/// The outcome of a send as the interface reports it: success, or the
/// message that the playback side is not available.
pub fn send_outcome(sent: Result<(), SendError<PlaybackCommand>>) -> (r: Result<(), String>)
    ensures
        sent is Ok ==> r is Ok,
        sent is Err ==> (r matches Err(e) && e@ == unavailable_message()),
{
    match sent {
        Ok(()) => Ok(()),
        Err(_) => Err(String::from_str("playback thread is not available")),
    }
}

/// Sends a command to the playback side: the command is handed to the
/// channel exactly once, after all commands handed before it; the answer is
/// success, or the message that the playback side is not available when its
/// end of the channel is gone.
pub fn send_play_command(channel: &mut CommandChannel, command: PlaybackCommand) -> (r: Result<
    (),
    String,
>)
    ensures
        final(channel).sent() == old(channel).sent().push(command),
        r is Ok || (r matches Err(e) && e@ == unavailable_message()),
{
    send_outcome(channel_send(channel, command))
}

} // verus!
