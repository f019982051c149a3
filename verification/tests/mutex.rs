use spinlock::mutex::Mutex;

#[test]
fn round_trip_naive() {
    let mut m = Mutex::new(5u64);
    let r = m.with_lock(|v: &mut u64| {
        *v += 1;
        *v
    });
    assert_eq!(r, 6);
    let r = m.with_lock(|v: &mut u64| {
        *v += 1;
        *v
    });
    assert_eq!(r, 7);
}

#[test]
fn round_trip_cas() {
    let mut m = Mutex::new(5u64);
    let r = m.with_lock_2(|v: &mut u64| {
        *v += 1;
        *v
    });
    assert_eq!(r, 6);
    let r = m.with_lock_2(|v: &mut u64| {
        *v += 1;
        *v
    });
    assert_eq!(r, 7);
}

#[test]
fn round_trip_ordered() {
    let mut m = Mutex::new(5u64);
    let r = m.with_lock_3(|v: &mut u64| {
        *v += 1;
        *v
    });
    assert_eq!(r, 6);
    let r = m.with_lock_3(|v: &mut u64| {
        *v += 1;
        *v
    });
    assert_eq!(r, 7);
}

#[test]
fn variants_share_one_cell() {
    let mut m = Mutex::new(0u32);
    m.with_lock(|v: &mut u32| *v += 1);
    m.with_lock_2(|v: &mut u32| *v += 10);
    m.with_lock_3(|v: &mut u32| *v += 100);
    let total = m.with_lock_3(|v: &mut u32| *v);
    assert_eq!(total, 111);
}

#[test]
fn result_passes_through_unchanged() {
    let mut m = Mutex::new(vec![1u8, 2, 3]);
    let popped = m.with_lock_3(|v: &mut Vec<u8>| v.pop());
    assert_eq!(popped, Some(3));
    let len = m.with_lock_3(|v: &mut Vec<u8>| v.len());
    assert_eq!(len, 2);
}

#[test]
fn operation_runs_exactly_once() {
    let mut m = Mutex::new(String::from("a"));
    let r = m.with_lock_2(|v: &mut String| {
        v.push('b');
        v.clone()
    });
    assert_eq!(r, "ab");
    let stored = m.with_lock_2(|v: &mut String| v.clone());
    assert_eq!(stored, "ab");
}

#[test]
fn repeated_sections_count_exactly() {
    let mut m = Mutex::new(0u64);
    for _ in 0..1000 {
        m.with_lock_3(|v: &mut u64| *v += 1);
    }
    let n = m.with_lock_3(|v: &mut u64| *v);
    assert_eq!(n, 1000);
}

#[test]
fn new_stores_the_initial_value() {
    let mut m = Mutex::new(-7i32);
    let seen = m.with_lock(|v: &mut i32| *v);
    assert_eq!(seen, -7);
}
