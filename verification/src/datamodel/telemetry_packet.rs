use vstd::prelude::*;

verus! {

/// Sense in which the turret is rotating.
#[derive(Debug, Clone, Copy, PartialEq, Eq, Structural)]
pub enum TurretDirection {
    Forward,
    Backward,
}

impl TurretDirection {
    /// The direction that the position counter shows: the turret moves
    /// forward while the counter counts up, and backward while it counts down.
    pub fn from_counting(upcounting: bool) -> (direction: TurretDirection)
        ensures
            upcounting ==> direction == TurretDirection::Forward,
            !upcounting ==> direction == TurretDirection::Backward,
    {
        if upcounting {
            TurretDirection::Forward
        } else {
            TurretDirection::Backward
        }
    }
}

/// One reading of the position sensor.
#[derive(Debug, Clone, Copy, PartialEq, Eq, Structural)]
pub struct PositionSample {
    pub count: u32,
    pub direction: TurretDirection,
}

/// The observation that the device reports on every periodic tick.
#[derive(Debug, Clone, Copy, PartialEq, Eq, Structural)]
pub struct TurretTelemetryPacket {
    pub turret_pos: u32,
    pub turret_rot: TurretDirection,
}

impl TurretTelemetryPacket {
    /// The packet that reports a reading of the position sensor.
    pub fn from_sample(sample: PositionSample) -> (packet: TurretTelemetryPacket)
        ensures
            packet.turret_pos == sample.count,
            packet.turret_rot == sample.direction,
    {
        TurretTelemetryPacket { turret_pos: sample.count, turret_rot: sample.direction }
    }
}

} // verus!
