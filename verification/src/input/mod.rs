//! Key events, the keyboards they come from and the injector that answers.

use vstd::prelude::*;

pub mod injector;
pub mod reader;
pub mod screen;

pub use reader::enumerate_keyboards;

verus! {

#[derive(Debug, Clone, Copy, PartialEq, Eq, Hash, Structural)]
pub enum KeyKind {
    Press,
    Release,
    Repeat,
}

#[derive(Debug, Clone, PartialEq, Eq, Hash)]
pub struct DeviceId(pub String);

#[derive(Debug, Clone)]
pub struct KeyEvent {
    pub kind: KeyKind,
    /// raw evdev keycode (0..247), without the +8 xkb offset.
    pub keycode: u32,
    /// nanoseconds since the Unix epoch.
    pub timestamp: u128,
    pub device: DeviceId,
}

impl KeyEvent {
    /// How long after `other` this event happened, in nanoseconds; zero if it
    /// came first.
    pub fn since(&self, other: &KeyEvent) -> (r: u128)
        ensures
            r as int == if self.timestamp >= other.timestamp {
                self.timestamp - other.timestamp
            } else {
                0
            },
    {
        if self.timestamp >= other.timestamp {
            self.timestamp - other.timestamp
        } else {
            0
        }
    }
}

/// The time between two events is the difference of their times, and none if the
/// other one came later, whatever the events are.
pub proof fn events_are_told_apart_by_time(a: &KeyEvent, b: &KeyEvent, r: u128)
    requires
        call_ensures(KeyEvent::since, (a, b), r),
    ensures
        a.timestamp >= b.timestamp ==> b.timestamp + r == a.timestamp,
        a.timestamp <= b.timestamp ==> r == 0,
{
}

} // verus!
