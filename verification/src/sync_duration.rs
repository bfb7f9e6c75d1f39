use vstd::prelude::*;

verus! {

/// A delay synchronised to the tempo: off, or a fraction of a 4/4 bar.
#[derive(Clone, Copy, Debug, PartialEq, Eq, Structural)]
pub enum SyncDuration {
    Off,
    Subdivision(u8, u8),
}

/// The duration of a step of the sync parameter (tenths of its range).
pub open spec fn step_duration(step: u8) -> SyncDuration {
    if step == 0 {
        SyncDuration::Off
    } else if step == 1 {
        SyncDuration::Subdivision(1, 128)
    } else if step == 2 {
        SyncDuration::Subdivision(1, 64)
    } else if step == 3 {
        SyncDuration::Subdivision(1, 32)
    } else if step == 4 {
        SyncDuration::Subdivision(1, 16)
    } else if step == 5 {
        SyncDuration::Subdivision(1, 8)
    } else if step == 6 {
        SyncDuration::Subdivision(3, 16)
    } else if step == 7 {
        SyncDuration::Subdivision(1, 4)
    } else if step == 8 {
        SyncDuration::Subdivision(1, 2)
    } else if step == 9 {
        SyncDuration::Subdivision(3, 4)
    } else {
        SyncDuration::Subdivision(1, 1)
    }
}

impl SyncDuration {
    /// The duration of a step: off, then 1/128, 1/64, 1/32, 1/16, 1/8, 3/16,
    /// 1/4, 1/2, 3/4 of a bar, and a whole bar from step 10 on.
    pub fn from_step(step: u8) -> (r: SyncDuration)
        ensures
            r == step_duration(step),
    {
        match step {
            0 => SyncDuration::Off,
            1 => SyncDuration::Subdivision(1, 128),
            2 => SyncDuration::Subdivision(1, 64),
            3 => SyncDuration::Subdivision(1, 32),
            4 => SyncDuration::Subdivision(1, 16),
            5 => SyncDuration::Subdivision(1, 8),
            6 => SyncDuration::Subdivision(3, 16),
            7 => SyncDuration::Subdivision(1, 4),
            8 => SyncDuration::Subdivision(1, 2),
            9 => SyncDuration::Subdivision(3, 4),
            _ => SyncDuration::Subdivision(1, 1),
        }
    }

    /// Whether the duration is a whole bar, shown as "1" rather than a fraction.
    pub fn is_whole(&self) -> (r: bool)
        ensures
            r == (*self == SyncDuration::Subdivision(1, 1)),
    {
        match self {
            SyncDuration::Subdivision(n, d) => *n == 1 && *d == 1,
            SyncDuration::Off => false,
        }
    }
}

} // verus!
