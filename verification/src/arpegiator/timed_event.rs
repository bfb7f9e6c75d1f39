use vstd::prelude::*;

verus! {

/// Something that happens at a time, with an identifier that orders events
/// of the same time.
pub trait TimedEvent {
    spec fn time_of(&self) -> usize;

    spec fn id_of(&self) -> usize;

    fn timestamp(&self) -> (r: usize)
        ensures
            r == self.time_of(),
    ;

    fn id(&self) -> (r: usize)
        ensures
            r == self.id_of(),
    ;
}

} // verus!
