use potatos::sync::SpinMutex;

/// While one guard is live, no second acquisition succeeds; releasing the
/// guard frees the lock for the next acquisition.
#[test]
fn guards_are_exclusive() {
    let mut mutex = SpinMutex::new(7u32);
    let guard = mutex.try_lock().ok().unwrap();
    assert_eq!(guard.data, 7);
    // a second acquisition while the guard lives reports contention
    assert!(mutex.try_lock().is_err());
    assert!(mutex.try_lock().is_err());
    guard.unlock(&mut mutex);
    // release is the single path back to a free lock
    let again = mutex.try_lock().ok().unwrap();
    assert_eq!(again.data, 7);
    again.unlock(&mut mutex);
}

#[test]
fn unlock_restores_the_updated_value() {
    let mut mutex = SpinMutex::new(vec![1, 2, 3]);
    let mut guard = mutex.lock();
    guard.data.push(4);
    guard.unlock(&mut mutex);
    let guard = mutex.lock();
    assert_eq!(guard.data, vec![1, 2, 3, 4]);
    guard.unlock(&mut mutex);
}

/// A guard released on an early-exit path frees the lock like any other.
#[test]
fn early_exit_path_frees_the_lock() {
    fn take_briefly(mutex: &mut SpinMutex<u32>, bail_out: bool) -> bool {
        let guard = mutex.lock();
        if bail_out {
            guard.unlock(mutex);
            return false;
        }
        guard.unlock(mutex);
        true
    }
    let mut mutex = SpinMutex::new(0u32);
    assert!(!take_briefly(&mut mutex, true));
    let reacquired = mutex.try_lock().ok().unwrap();
    reacquired.unlock(&mut mutex);
    assert!(take_briefly(&mut mutex, false));
    let reacquired = mutex.try_lock().ok().unwrap();
    reacquired.unlock(&mut mutex);
}
