use cube_timer::orientation::{Accel, Side};
use cube_timer::session::{Entry, Session};

#[test]
fn entry_new_maps_side_to_its_label() {
    let e = Entry::new(Side::Four, 42);
    assert_eq!(e.side, 4);
    assert_eq!(e.duration, 42);
}

#[test]
fn transition_past_threshold_emits_entry() {
    // Session starts at face One, t=0; observing Two at t=20 (>= 15)
    // commits: the dwell on One is 20 units, and Two starts at 20.
    let mut s = Session::new(Side::One, 0);
    let r = s.observe(Side::Two, 20);
    assert_eq!(r, Some(Entry { side: 1, duration: 20 }));
    assert_eq!(s.current_side, Side::Two);
    assert_eq!(s.session_start, 20);
}

#[test]
fn debounce_ignores_short_lived_transition() {
    // Observing Three at t=5 (elapsed 5 < 15) is noise: nothing is emitted
    // and neither the face nor the clock changes. At t=16 the same
    // observation commits with the full elapsed time.
    let mut s = Session::new(Side::One, 0);
    let r = s.observe(Side::Three, 5);
    assert_eq!(r, None);
    assert_eq!(s.current_side, Side::One);
    assert_eq!(s.session_start, 0);
    let r = s.observe(Side::Three, 16);
    assert_eq!(r, Some(Entry { side: 1, duration: 16 }));
    assert_eq!(s.current_side, Side::Three);
    assert_eq!(s.session_start, 16);
}

#[test]
fn same_face_changes_nothing() {
    let mut s = Session::new(Side::Five, 7);
    let r = s.observe(Side::Five, 1000);
    assert_eq!(r, None);
    assert_eq!(s.current_side, Side::Five);
    assert_eq!(s.session_start, 7);
}

#[test]
fn interim_faces_do_not_reset_the_clock() {
    // Several different faces before the threshold leave the clock anchored
    // to the first session start; the switch that finally commits
    // attributes the whole elapsed time to the face that was current all along.
    let mut s = Session::new(Side::One, 0);
    assert_eq!(s.observe(Side::Two, 4), None);
    assert_eq!(s.observe(Side::Six, 9), None);
    assert_eq!(s.observe(Side::Four, 14), None);
    assert_eq!(s.session_start, 0);
    let r = s.observe(Side::Two, 15);
    assert_eq!(r, Some(Entry { side: 1, duration: 15 }));
    assert_eq!(s.current_side, Side::Two);
}

#[test]
fn emitted_duration_is_at_least_threshold() {
    let mut s = Session::new(Side::Two, 100);
    for t in 101..115 {
        assert_eq!(s.observe(Side::One, t), None);
    }
    let r = s.observe(Side::One, 115).unwrap();
    assert!(r.duration >= 15);
    assert_eq!(r.side, 2);
}

#[test]
fn indeterminate_sample_is_no_observation() {
    let mut s = Session::new(Side::One, 0);
    let flat = Accel { x: 0, y: 0, z: 0 };
    assert_eq!(s.process_sample(&flat, 50), None);
    assert_eq!(s.current_side, Side::One);
    assert_eq!(s.session_start, 0);
}

#[test]
fn definite_sample_feeds_the_tracker() {
    let mut s = Session::new(Side::One, 0);
    let tilted = Accel { x: 0, y: -200, z: 0 };
    let r = s.process_sample(&tilted, 30);
    assert_eq!(r, Some(Entry { side: 1, duration: 30 }));
    assert_eq!(s.current_side, Side::Four);
    assert_eq!(s.session_start, 30);
}
