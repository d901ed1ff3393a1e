use vstd::prelude::*;

verus! {

/// A time, or a span of time, in whole seconds and nanoseconds; as a time it
/// counts from the Unix epoch.
#[derive(Debug, Clone, Copy, PartialEq, Eq, Structural)]
pub struct Time {
    pub secs: u64,
    pub nanos: u32,
}

/// The Unix epoch, 1970-01-01 00:00:00.
pub open spec fn epoch() -> Time {
    Time { secs: 0, nanos: 0 }
}

/// One second: how long the kernel may keep a reply.
pub open spec fn one_second() -> Time {
    Time { secs: 1, nanos: 0 }
}

} // verus!
