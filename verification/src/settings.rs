//! When the driver reads its settings file again.
use vstd::prelude::*;

verus! {

/// Whether the settings file must be read again, given the modification
/// time (nanoseconds from the Unix epoch, negative before it) last read, if
/// any, and the one it has now: a file never read, or one modified later
/// than the last reading.
pub fn config_reload_needed(last_modified: Option<i128>, modified: i128) -> (r: bool)
    ensures
        r == match last_modified {
            None => true,
            Some(last) => modified > last,
        },
{
    match last_modified {
        None => true,
        Some(last) => modified > last,
    }
}

} // verus!
