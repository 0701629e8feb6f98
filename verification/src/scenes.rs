//! A stack of scenes (menus, the game, text screens); the one on top runs
//! and says what comes next.

use crate::gui::{Key, MainMenuResult, MainMenuState};
use vstd::prelude::*;

verus! {

/// What a scene says after it ran: stay, leave, put a scene on top of it,
/// or leave in favour of another.
pub enum SceneResult<S> {
    Continue,
    Pop,
    Push(S),
    Replace(S),
}

/// The stack of scenes after a scene's result.
pub open spec fn after_result<S>(stack: Seq<S>, result: SceneResult<S>) -> Seq<S> {
    match result {
        SceneResult::Continue => stack,
        SceneResult::Pop => if stack.len() > 0 {
            stack.drop_last()
        } else {
            stack
        },
        SceneResult::Push(s) => stack.push(s),
        SceneResult::Replace(s) => if stack.len() > 0 {
            stack.drop_last().push(s)
        } else {
            stack.push(s)
        },
    }
}

/// The stack of scenes; the last one is on top.
pub struct SceneManager<S> {
    pub scenes: Vec<S>,
}

impl<S> SceneManager<S> {
    /// An empty stack.
    pub fn new() -> (r: Self)
        ensures
            r.scenes@.len() == 0,
    {
        SceneManager { scenes: Vec::new() }
    }

    /// Puts a scene on top.
    pub fn push(&mut self, scene: S)
        ensures
            final(self).scenes@ == old(self).scenes@.push(scene),
    {
        self.scenes.push(scene)
    }

    /// Whether no scene is left; the game ends then.
    pub fn is_empty(&self) -> (r: bool)
        ensures
            r == (self.scenes@.len() == 0),
    {
        self.scenes.len() == 0
    }

    /// Applies the result of the scene on top; see `after_result`.
    pub fn apply(&mut self, result: SceneResult<S>)
        ensures
            final(self).scenes@ == after_result(old(self).scenes@, result),
    {
        match result {
            SceneResult::Continue => {},
            SceneResult::Pop => {
                self.scenes.pop();
            },
            SceneResult::Push(new_scene) => {
                self.scenes.push(new_scene);
            },
            SceneResult::Replace(new_scene) => {
                self.scenes.pop();
                self.scenes.push(new_scene);
            },
        }
    }
}

/// Pushing a scene and then popping it leaves the stack as it was;
/// replacing the top scene keeps the stack's height.
pub proof fn lemma_push_pop<S>(stack: Seq<S>, scene: S)
    ensures
        after_result(after_result(stack, SceneResult::Push(scene)), SceneResult::Pop) == stack,
        stack.len() > 0 ==> after_result(stack, SceneResult::Replace(scene)).len() == stack.len(),
        after_result(stack, SceneResult::Replace(scene)).last() == scene,
{
    assert(stack.push(scene).drop_last() =~= stack);
}

/// What the main menu does after a key.
#[derive(Copy, Clone, Debug, PartialEq, Eq, Structural)]
pub enum MenuAction {
    /// Start a new game.
    StartNew,
    /// Load the saved game, if there is one.
    LoadSaved,
    /// Leave the menu, which ends the game.
    Leave,
    /// Stay in the menu with this entry highlighted.
    Stay(MainMenuState),
}

/// What the main menu does with its answer: the chosen entry starts a new
/// game, loads the saved one or leaves; no choice keeps the menu.
pub fn main_menu_action(result: MainMenuResult) -> (a: MenuAction)
    ensures
        a == match result {
            MainMenuResult::Selected(MainMenuState::New) => MenuAction::StartNew,
            MainMenuResult::Selected(MainMenuState::Load) => MenuAction::LoadSaved,
            MainMenuResult::Selected(MainMenuState::Quit) => MenuAction::Leave,
            MainMenuResult::NoSelection(s) => MenuAction::Stay(s),
        },
{
    match result {
        MainMenuResult::Selected(MainMenuState::New) => MenuAction::StartNew,
        MainMenuResult::Selected(MainMenuState::Load) => MenuAction::LoadSaved,
        MainMenuResult::Selected(MainMenuState::Quit) => MenuAction::Leave,
        MainMenuResult::NoSelection(s) => MenuAction::Stay(s),
    }
}

/// Whether a text screen is done: return closes it.
pub fn text_screen_done(key: Option<Key>) -> (done: bool)
    ensures
        done == (key == Some(Key::Return)),
{
    match key {
        Some(Key::Return) => true,
        _ => false,
    }
}

} // verus!
