//! The screens of the program and the order in which they follow.

use vstd::prelude::*;

verus! {

/// A screen of the program.
#[derive(Debug, Clone, Copy, PartialEq, Eq, Structural)]
pub enum State {
    /// The screen on which the user says who they are.
    Start,
    /// The chat room.
    Chat,
}

impl State {
    /// The screen that follows this one. Nothing follows the chat room.
    pub fn next(&self) -> (r: State)
        requires
            *self == State::Start,
        ensures
            r == State::Chat,
    {
        State::Chat
    }

    /// The screen that is to be shown in this state: the state itself.
    pub fn handle(&self) -> (r: State)
        ensures
            r == *self,
    {
        *self
    }
}

/// The machine that walks through the screens.
#[derive(Debug)]
pub struct FSM {
    current_state: State,
}

impl View for FSM {
    type V = State;

    /// The screen that the machine is at.
    closed spec fn view(&self) -> State {
        self.current_state
    }
}

impl FSM {
    /// A machine at the start screen.
    pub fn new() -> (r: Self)
        ensures
            r@ == State::Start,
    {
        FSM { current_state: State::Start }
    }

    /// The screen that is to be shown now. The machine stays where it is.
    pub fn handle(&mut self) -> (r: State)
        ensures
            r == old(self)@,
            final(self)@ == old(self)@,
    {
        self.current_state.handle()
    }

    /// Goes on to the screen that follows. Nothing follows the chat room.
    pub fn next(&mut self)
        requires
            old(self)@ == State::Start,
        ensures
            final(self)@ == State::Chat,
    {
        self.current_state = self.current_state.next();
    }
}

} // verus!
