use sync_prims::mutex::{Mutex, RawMutex};
use sync_prims::sys::{Signal, ThreadHandle};

const A: ThreadHandle = ThreadHandle { token: 1 };
const B: ThreadHandle = ThreadHandle { token: 2 };

#[test]
fn raw_lock_is_exclusive() {
    let mut raw = RawMutex::new();
    assert!(!raw.is_held_by(A));
    assert!(raw.lock(A));
    assert!(raw.is_held_by(A));
    assert!(!raw.is_held_by(B));
    assert!(!raw.lock(B));
    assert!(!raw.lock(B));
    assert_eq!(raw.unlock(A), Signal::One);
    assert!(!raw.is_held_by(A));
    assert!(raw.lock(B));
    assert!(raw.is_held_by(B));
}

#[test]
fn relocking_by_the_holder_is_a_self_deadlock() {
    let mut m = Mutex::new(5u32);
    assert!(!m.is_held_by(A));
    let g = m.lock(A).unwrap();
    assert!(g.is_ok());
    assert!(m.is_held_by(A));
    assert!(!m.is_held_by(B));
}

#[test]
fn lock_grants_value_and_release_wakes_one() {
    let mut m = Mutex::new(vec![1u8, 2]);
    let g = m.lock(A).unwrap().ok().unwrap();
    assert_eq!(*g.deref(&m), vec![1, 2]);
    g.deref_mut(&mut m).push(3);
    assert!(m.lock(B).is_none());
    assert_eq!(g.drop(&mut m, false), Signal::One);
    assert!(!m.poisoned());
    let g = m.lock(B).unwrap().ok().unwrap();
    assert_eq!(*g.deref(&m), vec![1, 2, 3]);
    g.drop(&mut m, false);
    assert_eq!(m.into_inner(), vec![1, 2, 3]);
}

#[test]
fn poison_is_sticky() {
    let mut m = Mutex::new(0i32);
    let g = m.lock(A).unwrap().ok().unwrap();
    *g.deref_mut(&mut m) = 7;
    g.drop(&mut m, true);
    assert!(m.poisoned());
    for who in [A, B, A] {
        let r = m.lock(who).unwrap();
        assert!(r.is_err());
        let g = r.err().unwrap().into_inner();
        g.drop(&mut m, false);
        assert!(m.poisoned());
    }
    *m.get_mut() = 8;
    assert!(m.poisoned());
    assert!(m.lock(B).unwrap().is_err());
}

#[test]
fn poisoned_lock_still_grants_access() {
    let mut m = Mutex::new(String::from("before"));
    let g = m.lock(A).unwrap().ok().unwrap();
    g.drop(&mut m, true);
    let mut e = m.lock(B).unwrap().err().unwrap();
    assert_eq!(*e.get().deref(&m), "before");
    assert_eq!(*e.get_mut().deref(&m), "before");
    let g = e.into_inner();
    g.deref_mut(&mut m).push_str(" and after");
    assert_eq!(*g.deref(&m), "before and after");
    g.drop(&mut m, false);
    assert_eq!(m.into_inner(), "before and after");
}

#[test]
fn get_mut_bypasses_the_lock() {
    let mut m = Mutex::new(3u64);
    *m.get_mut() += 4;
    assert!(!m.poisoned());
    assert!(!m.is_held_by(A));
    assert_eq!(m.into_inner(), 7);
}
