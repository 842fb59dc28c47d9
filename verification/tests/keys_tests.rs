use u8gg::keys::{KeyFrame, KeyScanner, LONG_PRESS};

const NONE: [bool; 4] = [false; 4];

#[test]
fn keys_held_at_start_give_no_press() {
    let mut k = KeyScanner::new();
    let f = k.scan([true, false, false, false]);
    assert!(!f.up);
    let f = k.scan(NONE);
    assert_eq!(f, KeyFrame { up: false, down: false, enter: false, back: false, long_back: false, long_enter: false });
    let f = k.scan([true, false, false, false]);
    assert!(f.up);
}

#[test]
fn tap_gives_one_edge() {
    let mut k = KeyScanner::new();
    k.scan(NONE);
    let f = k.scan([false, false, false, true]);
    assert!(f.enter && !f.up && !f.back);
    let f = k.scan([false, false, false, true]);
    assert!(!f.enter);
}

#[test]
fn long_back_fires_once() {
    let mut k = KeyScanner::new();
    k.scan(NONE);
    let mut longs = Vec::new();
    for frame in 1..=200u16 {
        let f = k.scan([false, false, true, false]);
        if f.long_back {
            longs.push(frame);
        }
        if frame == 1 {
            assert!(f.back);
        }
    }
    assert_eq!(longs, vec![LONG_PRESS]);
}

#[test]
fn up_repeats_faster_the_longer_it_is_held() {
    let mut k = KeyScanner::new();
    k.scan(NONE);
    let mut ups = Vec::new();
    for frame in 1..=130u16 {
        let f = k.scan([true, false, false, false]);
        if f.up {
            ups.push(frame);
        }
    }
    assert_eq!(
        ups,
        vec![1, 66, 70, 74, 78, 82, 86, 90, 93, 96, 99, 102, 105, 108, 111, 114, 117, 120, 122, 124, 126, 128, 130]
    );
}
