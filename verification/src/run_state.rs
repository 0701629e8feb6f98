//! The game's turn cycle as a state machine: what state comes after what
//! happened in the current one, and what the player asked to have done.

use crate::gui::{ItemMenuResult, TargetingInfo};
use crate::player::InventoryType;
use crate::positions::{MapPosition, ScreenPosition};
use vstd::prelude::*;

verus! {

/// Where the game is in its turn cycle.
#[derive(Copy, Clone, Debug, PartialEq, Eq, Structural)]
pub enum RunState<Entity> {
    AwaitingInput,
    ReallyQuit,
    PreRun,
    Tick,
    EnergylessTick,
    ShowInventory(InventoryType),
    ShowTargeting(TargetingInfo, Entity),
    SaveGame,
}

/// What the player asked to have done with an item.
#[derive(Copy, Clone, Debug, PartialEq, Eq, Structural)]
pub enum Request<Entity> {
    /// Use the item, on the target position if it needs one.
    Use(Entity, Option<MapPosition>),
    /// Drop the item.
    Drop(Entity),
}

/// What happened in the current state.
pub enum GameEvent<Entity> {
    /// The systems ran; the player has this energy, or is gone.
    Ran(Option<i32>),
    /// The player's input gave this state.
    Input(RunState<Entity>),
    /// The answer to "Really quit?".
    QuitAnswer(ItemMenuResult, bool),
    /// The inventory menu's answer: the item chosen, the range it is used at
    /// when it needs a target, and where the player and the mouse are on
    /// the screen.
    InventoryAnswer(ItemMenuResult, Option<Entity>, Option<i32>, ScreenPosition, ScreenPosition),
    /// The target cursor after its frame, with its answer and the chosen
    /// position on the map.
    TargetAnswer(TargetingInfo, ItemMenuResult, Option<MapPosition>),
    /// The game was saved.
    Saved,
}

/// What comes next: the state, what the player asked to have done, and
/// whether the game ends.
pub open spec fn spec_next<Entity>(state: RunState<Entity>, event: GameEvent<Entity>) -> (
    RunState<Entity>,
    Option<Request<Entity>>,
    bool,
) {
    match (state, event) {
        (RunState::SaveGame, GameEvent::Saved) => (RunState::AwaitingInput, None, false),
        (RunState::PreRun, GameEvent::Ran(_)) => (RunState::AwaitingInput, None, false),
        (RunState::AwaitingInput, GameEvent::Input(s)) => (s, None, false),
        (RunState::ReallyQuit, GameEvent::QuitAnswer(result, yes)) => match result {
            ItemMenuResult::Selected => if yes {
                (RunState::ReallyQuit, None, true)
            } else {
                (RunState::AwaitingInput, None, false)
            },
            ItemMenuResult::Cancel => (RunState::AwaitingInput, None, false),
            ItemMenuResult::NoResponse => (RunState::ReallyQuit, None, false),
        },
        (RunState::Tick, GameEvent::Ran(energy)) | (RunState::EnergylessTick, GameEvent::Ran(
            energy,
        )) => match energy {
            None => (RunState::ReallyQuit, None, false),
            Some(e) => if e >= 0 {
                (RunState::AwaitingInput, None, false)
            } else {
                (RunState::Tick, None, false)
            },
        },
        (
            RunState::ShowInventory(inv_type),
            GameEvent::InventoryAnswer(result, item, range, start, mouse),
        ) => match (result, item) {
            (ItemMenuResult::Cancel, _) => (RunState::AwaitingInput, None, false),
            (ItemMenuResult::Selected, Some(item)) => match inv_type {
                InventoryType::Apply => match range {
                    Some(r) => (
                        RunState::ShowTargeting(
                            TargetingInfo { range: r, last_mouse_pos: mouse, current_pos: start },
                            item,
                        ),
                        None,
                        false,
                    ),
                    None => (RunState::Tick, Some(Request::Use(item, None)), false),
                },
                InventoryType::Drop => (RunState::Tick, Some(Request::Drop(item)), false),
            },
            _ => (state, None, false),
        },
        (RunState::ShowTargeting(_, item), GameEvent::TargetAnswer(info, result, target)) => match (
            result,
            target,
        ) {
            (ItemMenuResult::Cancel, _) => (RunState::AwaitingInput, None, false),
            (ItemMenuResult::Selected, Some(pos)) => (
                RunState::Tick,
                Some(Request::Use(item, Some(pos))),
                false,
            ),
            _ => (RunState::ShowTargeting(info, item), None, false),
        },
        _ => (state, None, false),
    }
}

/// What comes next; see `spec_next`. After the systems ran in a tick, the
/// player acts again once its energy is back to zero or more; a player
/// that is gone leads to the quit question.
pub fn next_run_state<Entity: Copy>(state: RunState<Entity>, event: GameEvent<Entity>) -> (r: (
    RunState<Entity>,
    Option<Request<Entity>>,
    bool,
))
    ensures
        r == spec_next(state, event),
{
    match (state, event) {
        (RunState::SaveGame, GameEvent::Saved) => (RunState::AwaitingInput, None, false),
        (RunState::PreRun, GameEvent::Ran(_)) => (RunState::AwaitingInput, None, false),
        (RunState::AwaitingInput, GameEvent::Input(s)) => (s, None, false),
        (RunState::ReallyQuit, GameEvent::QuitAnswer(result, yes)) => match result {
            ItemMenuResult::Selected => if yes {
                (RunState::ReallyQuit, None, true)
            } else {
                (RunState::AwaitingInput, None, false)
            },
            ItemMenuResult::Cancel => (RunState::AwaitingInput, None, false),
            ItemMenuResult::NoResponse => (RunState::ReallyQuit, None, false),
        },
        (RunState::Tick, GameEvent::Ran(energy)) | (RunState::EnergylessTick, GameEvent::Ran(
            energy,
        )) => match energy {
            None => (RunState::ReallyQuit, None, false),
            Some(e) => if e >= 0 {
                (RunState::AwaitingInput, None, false)
            } else {
                (RunState::Tick, None, false)
            },
        },
        (
            RunState::ShowInventory(inv_type),
            GameEvent::InventoryAnswer(result, item, range, start, mouse),
        ) => match (result, item) {
            (ItemMenuResult::Cancel, _) => (RunState::AwaitingInput, None, false),
            (ItemMenuResult::Selected, Some(item)) => match inv_type {
                InventoryType::Apply => match range {
                    Some(r) => (
                        RunState::ShowTargeting(TargetingInfo::new(r, start, mouse), item),
                        None,
                        false,
                    ),
                    None => (RunState::Tick, Some(Request::Use(item, None)), false),
                },
                InventoryType::Drop => (RunState::Tick, Some(Request::Drop(item)), false),
            },
            _ => (state, None, false),
        },
        (RunState::ShowTargeting(_, item), GameEvent::TargetAnswer(info, result, target)) => match (
            result,
            target,
        ) {
            (ItemMenuResult::Cancel, _) => (RunState::AwaitingInput, None, false),
            (ItemMenuResult::Selected, Some(pos)) => (
                RunState::Tick,
                Some(Request::Use(item, Some(pos))),
                false,
            ),
            _ => (RunState::ShowTargeting(info, item), None, false),
        },
        _ => (state, None, false),
    }
}

/// A request is only ever made on the way to a tick, and the game only
/// ends from the quit question.
pub proof fn lemma_requests_lead_to_tick<Entity>(state: RunState<Entity>, event: GameEvent<Entity>)
    ensures
        spec_next(state, event).1 is Some ==> spec_next(state, event).0 == RunState::<
            Entity,
        >::Tick,
        spec_next(state, event).2 ==> state == RunState::<Entity>::ReallyQuit,
{
}

} // verus!
