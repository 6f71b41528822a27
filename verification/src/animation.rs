//! Sprite-sheet animation: the frame that follows a frame, and the step that
//! a sprite takes when its timer has run down.

use bevy::time::Timer;
use core::time::Duration;
use vstd::prelude::*;

verus! {

/// `bevy::time::Timer`, of which the verifier sees nothing but the name.
#[verifier::external_type_specification]
#[verifier::external_body]
pub struct ExTimer(bevy::time::Timer);

/// What a tick of its timer did to a sprite.
#[derive(Clone, Copy, Debug, PartialEq, Eq, Structural)]
pub enum Tick {
    /// The timer has not finished: the frame stays.
    Waiting,
    /// The timer has just finished: the next frame is shown.
    Stepped,
    /// The timer has just finished, but the number of the next frame does
    /// not fit in a `usize`: the frame stays.
    Stuck,
}

/// The frames that an animation runs through: after `last` comes `first`.
#[derive(Clone, Copy, Debug, PartialEq, Eq, Structural)]
pub struct AnimationIndices {
    pub first: usize,
    pub last: usize,
}

impl AnimationIndices {
    /// The frame shown after frame `index`: `first` after `last`, else the
    /// next one.
    pub open spec fn next(self, index: int) -> int {
        if index == self.last {
            self.first as int
        } else {
            index + 1
        }
    }

    /// The frame after `index` has a number that fits in a `usize`.
    pub open spec fn can_follow(self, index: int) -> bool {
        self.next(index) <= usize::MAX
    }

    /// The frame shown `steps` steps after frame `index`.
    pub open spec fn after(self, index: int, steps: nat) -> int
        decreases steps,
    {
        if steps == 0 {
            index
        } else {
            self.next(self.after(index, (steps - 1) as nat))
        }
    }

    /// The frame to show after frame `index`, or `None` where its number
    /// does not fit in a `usize`.
    pub fn next_index(&self, index: usize) -> (next: Option<usize>)
        ensures
            next is Some <==> self.can_follow(index as int),
            next matches Some(frame) ==> frame == self.next(index as int),
    {
        if index == self.last {
            Some(self.first)
        } else if index < usize::MAX {
            Some(index + 1)
        } else {
            None
        }
    }

    /// What a tick does to a sprite at frame `index`, given whether its
    /// timer has just finished.
    pub open spec fn tick(self, index: int, just_finished: bool) -> Tick {
        if !just_finished {
            Tick::Waiting
        } else if self.can_follow(index) {
            Tick::Stepped
        } else {
            Tick::Stuck
        }
    }

    /// Shows the frame that is due after a tick of the timer: the next one
    /// if the timer has just finished and the number of that frame fits in a
    /// `usize`, else the same.
    pub fn on_tick(&self, index: &mut usize, just_finished: bool) -> (tick: Tick)
        ensures
            tick == self.tick(*old(index) as int, just_finished),
            *final(index) == if tick == Tick::Stepped {
                self.next(*old(index) as int)
            } else {
                *old(index) as int
            },
    {
        if !just_finished {
            return Tick::Waiting;
        }
        match self.next_index(*index) {
            Some(frame) => {
                *index = frame;
                Tick::Stepped
            },
            None => Tick::Stuck,
        }
    }
}

/// The timer that `bevy::time::Timer::tick` makes of `timer` when it
/// advances it by `delta`.
pub uninterp spec fn timer_after_tick(timer: Timer, delta: Duration) -> Timer;

/// What `bevy::time::Timer::just_finished` tells of `timer`: whether it ran
/// down during its last tick.
pub uninterp spec fn timer_just_ran_down(timer: Timer) -> bool;

/// Calls `bevy::time::Timer::tick`, which advances the timer by `delta`.
/// What the timer becomes depends on the timer and on `delta` alone, and is
/// named, not stated.
#[verifier::external_body]
fn timer_tick(timer: &mut Timer, delta: Duration)
    ensures
        *final(timer) == timer_after_tick(*old(timer), delta),
{
    timer.tick(delta);
}

/// Calls `bevy::time::Timer::just_finished`, which tells whether the timer
/// ran down during the last tick. The answer depends on the timer alone, and
/// is named, not stated.
#[verifier::external_body]
fn timer_just_finished(timer: &Timer) -> (finished: bool)
    ensures
        finished == timer_just_ran_down(*timer),
{
    timer.just_finished()
}

/// Advances `timer` by `delta` and, if it has run down during that tick,
/// shows the next frame: the result and `index` are what
/// [`AnimationIndices::on_tick`] makes of the advanced timer's answer.
pub fn animate_sprite(
    indices: &AnimationIndices,
    timer: &mut Timer,
    delta: Duration,
    index: &mut usize,
) -> (tick: Tick)
    ensures
        *final(timer) == timer_after_tick(*old(timer), delta),
        tick == indices.tick(*old(index) as int, timer_just_ran_down(*final(timer))),
        *final(index) == if tick == Tick::Stepped {
            indices.next(*old(index) as int)
        } else {
            *old(index) as int
        },
{
    timer_tick(timer, delta);
    let just_finished = timer_just_finished(timer);
    indices.on_tick(index, just_finished)
}

/// A frame at or before `last` is followed by one at or before `last`, and
/// one between `first` and `last` by one between them.
pub proof fn lemma_next_stays(indices: AnimationIndices, index: int)
    requires
        indices.first <= indices.last,
        0 <= index <= indices.last,
    ensures
        indices.next(index) <= indices.last,
        indices.first <= index ==> indices.first <= indices.next(index),
        indices.can_follow(index),
{
}

/// From a frame at or before `last` the animation never passes `last`.
pub proof fn lemma_after_stays(indices: AnimationIndices, index: int, steps: nat)
    requires
        indices.first <= indices.last,
        0 <= index <= indices.last,
    ensures
        0 <= indices.after(index, steps) <= indices.last,
        indices.first <= index ==> indices.first <= indices.after(index, steps),
    decreases steps,
{
    if steps > 0 {
        lemma_after_stays(indices, index, (steps - 1) as nat);
    }
}

/// From `first` the animation shows the frames in order and is back at
/// `first` after as many steps as there are frames.
pub proof fn lemma_cycle(indices: AnimationIndices, steps: nat)
    requires
        indices.first <= indices.last,
    ensures
        steps <= indices.last - indices.first ==> indices.after(indices.first as int, steps)
            == indices.first + steps,
        steps == indices.last - indices.first + 1 ==> indices.after(indices.first as int, steps)
            == indices.first,
    decreases steps,
{
    if steps > 0 {
        lemma_cycle(indices, (steps - 1) as nat);
    }
}

} // verus!
