//! Interrupt-safe Mutex
//!
//! This mutex disables interrupts while holding the lock to prevent deadlocks
//! with interrupt handlers that might try to acquire the same lock.
//!
//! The lock is kept here as the state machine of one execution unit: whoever
//! holds the mutex holds it exclusively, and the interrupt flag of the CPU is
//! a value that the caller hands in and gets back. What disables and enables
//! interrupts on a machine follows that value.

use vstd::prelude::*;

verus! {

/// A mutual exclusion primitive that disables interrupts while held
pub struct Mutex<T> {
    locked: bool,
    data: T,
}

/// The guard of a held mutex: it remembers whether interrupts were enabled
/// when the mutex was taken.
pub struct MutexGuard {
    interrupts_were_enabled: bool,
}

impl MutexGuard {
    /// Whether interrupts were enabled when the mutex was taken.
    pub closed spec fn interrupts_were_enabled(self) -> bool {
        self.interrupts_were_enabled
    }

    /// Whether interrupts were enabled when the mutex was taken.
    pub fn were_interrupts_enabled(&self) -> (enabled: bool)
        ensures
            enabled == self.interrupts_were_enabled(),
    {
        self.interrupts_were_enabled
    }
}

/// The interrupt flag after a guard that remembers `were_enabled` is given
/// up while the flag is `now`: interrupts come back on only if they were on
/// when the mutex was taken.
pub open spec fn flag_after_release(were_enabled: bool, now: bool) -> bool {
    were_enabled || now
}

impl<T> Mutex<T> {
    /// Whether the mutex is held.
    pub closed spec fn is_locked(&self) -> bool {
        self.locked
    }

    /// The value that the mutex protects.
    pub closed spec fn value(&self) -> T {
        self.data
    }

    /// Creates a new mutex
    pub fn new(value: T) -> (mutex: Self)
        ensures
            !mutex.is_locked(),
            mutex.value() == value,
    {
        Self { locked: false, data: value }
    }

    /// Whether the mutex is held.
    pub fn locked(&self) -> (held: bool)
        ensures
            held == self.is_locked(),
    {
        self.locked
    }

    /// Acquires the mutex. Disables interrupts before acquiring the lock;
    /// the guard remembers whether they were enabled.
    ///
    /// A mutex that is held would be waited for without end: it must be free.
    pub fn lock(&mut self, interrupts: &mut bool) -> (guard: MutexGuard)
        requires
            !old(self).is_locked(),
        ensures
            final(self).is_locked(),
            final(self).value() == old(self).value(),
            !*final(interrupts),
            guard.interrupts_were_enabled() == *old(interrupts),
    {
        // Disable interrupts
        let interrupts_enabled = *interrupts;
        *interrupts = false;
        self.locked = true;
        MutexGuard { interrupts_were_enabled: interrupts_enabled }
    }

    /// Tries to acquire the mutex without blocking. A free mutex is taken
    /// with interrupts disabled. A held mutex stays as it is and the
    /// interrupt flag ends as it began.
    pub fn try_lock(&mut self, interrupts: &mut bool) -> (r: Option<MutexGuard>)
        ensures
            r.is_some() == !old(self).is_locked(),
            final(self).is_locked(),
            final(self).value() == old(self).value(),
            r.is_some() ==> !*final(interrupts) && r.unwrap().interrupts_were_enabled() == *old(
                interrupts,
            ),
            r.is_none() ==> *final(interrupts) == *old(interrupts),
    {
        let interrupts_enabled = *interrupts;
        *interrupts = false;
        if !self.locked {
            self.locked = true;
            Some(MutexGuard { interrupts_were_enabled: interrupts_enabled })
        } else {
            // Re-enable interrupts if we didn't acquire the lock
            if interrupts_enabled {
                *interrupts = true;
            }
            None
        }
    }

    /// Gives the mutex up: it becomes free, and interrupts are enabled again
    /// only if they were enabled when the guard was made.
    pub fn unlock(&mut self, guard: MutexGuard, interrupts: &mut bool)
        ensures
            !final(self).is_locked(),
            final(self).value() == old(self).value(),
            *final(interrupts) == flag_after_release(
                guard.interrupts_were_enabled(),
                *old(interrupts),
            ),
    {
        // Release the lock
        self.locked = false;
        // Re-enable interrupts if they were enabled before
        if guard.interrupts_were_enabled {
            *interrupts = true;
        }
    }

    /// The protected value, for the holder of the guard.
    pub fn get(&self, guard: &MutexGuard) -> (value: &T)
        ensures
            *value == self.value(),
    {
        &self.data
    }

    /// Replaces the protected value, for the holder of the guard.
    pub fn set(&mut self, guard: &MutexGuard, value: T)
        ensures
            final(self).value() == value,
            final(self).is_locked() == old(self).is_locked(),
    {
        self.data = value;
    }
}

/// Taking a free mutex and giving it up again leaves the interrupt flag as it
/// was, whether interrupts were enabled or not.
pub proof fn law_lock_release_restores(flag: bool)
    ensures
        flag_after_release(flag, false) == flag,
{
}

/// A mutex taken while another is held, as in an interrupt handler, does not
/// enable interrupts when it is given up: they stay disabled until the outer
/// mutex is given up, which brings back the flag from before the outer lock.
pub proof fn law_nested_release(flag: bool)
    ensures
        flag_after_release(false, false) == false,
        flag_after_release(flag, flag_after_release(false, false)) == flag,
{
}

} // verus!
