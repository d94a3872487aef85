//! Plain client types: dummy control state, ui pipes and pages.

use vstd::prelude::*;

use std::time::Duration;

verus! {

#[derive(Debug, Clone, Copy)]
pub enum DummyHammerState {
    /// The dummy does not hammer.
    Inactive,
    Active { last_hammer: Option<Duration> },
}

impl Default for DummyHammerState {
    fn default() -> (r: Self)
        ensures
            r is Inactive,
    {
        DummyHammerState::Inactive
    }
}

#[derive(Debug)]
pub struct DummyControlState {
    // dummy controls
    pub dummy_copy_moves: bool,
    pub dummy_hammer: DummyHammerState,
}

impl Default for DummyControlState {
    fn default() -> (r: Self)
        ensures
            !r.dummy_copy_moves,
            r.dummy_hammer is Inactive,
    {
        DummyControlState { dummy_copy_moves: false, dummy_hammer: DummyHammerState::Inactive }
    }
}

/// What a ui page gets to render with: the time and the user's data.
pub struct UiRenderPipe<'a, U: 'a> {
    pub cur_time: Duration,
    pub user_data: &'a mut U,
}

impl<'a, U: 'a> UiRenderPipe<'a, U> {
    pub fn new(cur_time: Duration, user_data: &'a mut U) -> (r: Self)
        ensures
            r.cur_time == cur_time,
            *r.user_data == *old(user_data),
            *final(user_data) == *final(r.user_data),
    {
        Self { cur_time, user_data }
    }
}

/// The page shown while the client is loading.
pub struct LoadingPage {}

impl LoadingPage {
    pub fn new() -> (r: Self) {
        Self {  }
    }
}

impl Default for LoadingPage {
    fn default() -> (r: Self) {
        Self::new()
    }
}

/// Turns game events into client events.
pub struct GameEventsClient {}

} // verus!
