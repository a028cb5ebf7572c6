use kernel_core::memory::mutex::Mutex;

#[test]
fn lock_disables_interrupts_and_unlock_restores_them() {
    let mut mutex = Mutex::new(7u32);
    assert!(!mutex.locked());
    let mut interrupts = true;
    let guard = mutex.lock(&mut interrupts);
    assert!(mutex.locked());
    assert!(!interrupts);
    assert!(guard.were_interrupts_enabled());
    assert_eq!(*mutex.get(&guard), 7);
    mutex.set(&guard, 8);
    assert_eq!(*mutex.get(&guard), 8);
    mutex.unlock(guard, &mut interrupts);
    assert!(!mutex.locked());
    assert!(interrupts);
}

#[test]
fn lock_with_interrupts_disabled_leaves_them_disabled() {
    let mut mutex = Mutex::new(());
    let mut interrupts = false;
    let guard = mutex.lock(&mut interrupts);
    assert!(!interrupts);
    assert!(!guard.were_interrupts_enabled());
    mutex.unlock(guard, &mut interrupts);
    assert!(!interrupts);
    assert!(!mutex.locked());
}

#[test]
fn try_lock_fails_on_a_held_mutex() {
    let mut mutex = Mutex::new(1u8);
    let mut interrupts = true;
    let guard = mutex.try_lock(&mut interrupts).expect("free mutex");
    assert!(!interrupts);
    assert!(guard.were_interrupts_enabled());
    // a second attempt, as from an interrupt handler, fails and leaves the flag
    assert!(mutex.try_lock(&mut interrupts).is_none());
    assert!(!interrupts);
    assert!(mutex.locked());
    mutex.unlock(guard, &mut interrupts);
    assert!(interrupts);
    assert!(mutex.try_lock(&mut interrupts).is_some());
}

#[test]
fn failed_try_lock_restores_enabled_interrupts() {
    let mut mutex = Mutex::new(1u8);
    let mut holder_flag = false;
    let guard = mutex.lock(&mut holder_flag);
    let mut interrupts = true;
    assert!(mutex.try_lock(&mut interrupts).is_none());
    assert!(interrupts);
    mutex.unlock(guard, &mut holder_flag);
}

#[test]
fn nested_locks_enable_interrupts_only_at_the_outer_release() {
    let mut outer = Mutex::new(1u8);
    let mut inner = Mutex::new(2u8);
    let mut interrupts = true;
    let outer_guard = outer.lock(&mut interrupts);
    let inner_guard = inner.lock(&mut interrupts);
    assert!(!inner_guard.were_interrupts_enabled());
    inner.unlock(inner_guard, &mut interrupts);
    assert!(!interrupts);
    outer.unlock(outer_guard, &mut interrupts);
    assert!(interrupts);
}
