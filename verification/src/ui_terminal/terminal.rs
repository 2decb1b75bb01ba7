//! What the interface does for each action of the user.
use vstd::prelude::*;

use crate::commands::{unavailable_message, CommandChannel, PlaybackCommand};
use crate::handlers::playback_handler;
use crate::state::app_state::AppState;
use crate::ui_terminal::input::UiAction;

verus! {

/// The command that an action sends to the playback side, if any: the
/// song under the cursor for Enter, and the matching command for pause,
/// next, previous and stop.
pub open spec fn command_of_action(action: UiAction, selected: usize) -> Option<PlaybackCommand> {
    match action {
        UiAction::PlaySelected => Some(PlaybackCommand::Play(selected)),
        UiAction::TogglePause => Some(PlaybackCommand::TogglePause),
        UiAction::Next => Some(PlaybackCommand::Next),
        UiAction::Previous => Some(PlaybackCommand::Previous),
        UiAction::Stop => Some(PlaybackCommand::Stop),
        _ => None,
    }
}

/// Carries out an action of the user: the arrows move the cursor, the
/// playback keys send their command (`command_of_action`), and quitting is
/// answered with `true`. Exactly the command of the action is handed to
/// the channel, and nothing for the other actions. A failed send is
/// answered with its message.
pub fn handle_action(state: &mut AppState, channel: &mut CommandChannel, action: UiAction) -> (r: Result<bool, String>)
    ensures
        final(channel).sent() == (match command_of_action(action, old(state).selected_index) {
            Some(command) => old(channel).sent().push(command),
            None => old(channel).sent(),
        }),
        action == UiAction::Quit ==> r matches Ok(true),
        action != UiAction::Quit ==> !(r matches Ok(true)),
        command_of_action(action, old(state).selected_index) is None ==> r is Ok,
        r matches Err(e) ==> e@ == unavailable_message(),
        final(state).selected_index == (match action {
            UiAction::MoveUp => if old(state).selected_index > 0 {
                old(state).selected_index - 1
            } else {
                0
            },
            UiAction::MoveDown => if old(state).selected_index + 1 < old(state).library@.len() {
                old(state).selected_index + 1
            } else {
                old(state).selected_index as int
            },
            _ => old(state).selected_index as int,
        }),
        final(state).library == old(state).library,
        final(state).current_index == old(state).current_index,
        final(state).playback_state == old(state).playback_state,
        final(state).status_message == old(state).status_message,
        old(state).wf() ==> final(state).wf(),
{
    let sent = match action {
        UiAction::MoveUp => {
            state.select_previous();
            Ok(())
        },
        UiAction::MoveDown => {
            state.select_next();
            Ok(())
        },
        UiAction::PlaySelected => {
            let index = state.selected_index;
            playback_handler::play_selected(channel, index)
        },
        UiAction::TogglePause => playback_handler::toggle_pause(channel),
        UiAction::Next => playback_handler::next(channel),
        UiAction::Previous => playback_handler::previous(channel),
        UiAction::Stop => playback_handler::stop(channel),
        UiAction::Quit => {
            return Ok(true);
        },
        UiAction::NoAction => Ok(()),
    };
    match sent {
        Ok(()) => Ok(false),
        Err(e) => Err(e),
    }
}

} // verus!
