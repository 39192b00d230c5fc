use vstd::prelude::*;

use crate::model::decoder::{Speed, Volume};
use crate::model::queue::Queue;

verus! {

/// The audio settings kept from one run to the next.
#[derive(Debug)]
pub struct AudioState {
    pub volume: Volume,
    pub speed: Speed,
    pub gapless: bool,
}

/// The player's part of what is kept from one run to the next: the queue.
#[derive(Debug)]
pub struct PlayerState {
    pub queue: Queue,
}

/// What is kept from one run to the next.
#[derive(Debug)]
pub struct State {
    pub audio_state: AudioState,
    pub player_state: PlayerState,
}

} // verus!
