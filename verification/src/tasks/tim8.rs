//! The sampling task, which runs on every capture of the position counter, and
//! the register through which it hands the position to the periodic task.

use crate::datamodel::telemetry_packet::{PositionSample, TurretDirection};
use vstd::prelude::*;

verus! {

/// The shared position register: the last observed position of the turret.
///
/// The sampling task is its only writer and the periodic task its only
/// reader. Both reach it through an exclusive reference, so a reader sees a
/// sample that was stored whole.
#[derive(Debug)]
pub struct PositionRegister {
    last: PositionSample,
}

impl PositionRegister {
    /// The sample that the register holds.
    pub closed spec fn view(&self) -> PositionSample {
        self.last
    }

    /// The register at boot: position zero, moving forward.
    pub fn new() -> (register: PositionRegister)
        ensures
            register@ == (PositionSample { count: 0, direction: TurretDirection::Forward }),
    {
        PositionRegister { last: PositionSample { count: 0, direction: TurretDirection::Forward } }
    }

    /// Replaces the sample that the register holds.
    pub fn store(&mut self, sample: PositionSample)
        ensures
            final(self)@ == sample,
    {
        self.last = sample;
    }

    /// The sample that the register holds.
    pub fn load(&self) -> (sample: PositionSample)
        ensures
            sample == self@,
    {
        self.last
    }
}

/// Handles a capture interrupt of the position counter: the observation,
/// which was read before the register was locked, becomes the last observed
/// position.
pub fn tim8_cc(last_observed_turret_position: &mut PositionRegister, observation: PositionSample)
    ensures
        final(last_observed_turret_position)@ == observation,
{
    last_observed_turret_position.store(observation);
}

} // verus!
