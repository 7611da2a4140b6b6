use flazky_bird_lib::{chain_offsets, new_rand};

#[test]
fn new_rand_exact_values() {
    assert_eq!(new_rand(0), -315);
    assert_eq!(new_rand(1), -120);
    assert_eq!(new_rand(42), -285);
    assert_eq!(new_rand(7), -225);
    assert_eq!(new_rand(100), -195);
}

#[test]
fn new_rand_takes_the_magnitude() {
    assert_eq!(new_rand(-1), new_rand(1));
    assert_eq!(new_rand(-42), -285);
}

#[test]
fn new_rand_does_not_wrap() {
    assert_eq!(new_rand(i32::MAX), -285);
    assert_eq!(new_rand(i32::MIN), -90);
}

#[test]
fn new_rand_stays_in_range() {
    let mut seed: i32 = i32::MIN;
    loop {
        let next = new_rand(seed);
        assert!((-315..=-61).contains(&next));
        match seed.checked_add(9_999_991) {
            Some(s) => seed = s,
            None => break,
        }
    }
}

#[test]
fn chain_offsets_chain_the_step() {
    assert_eq!(chain_offsets(42), [-285, -75, -225, -300, -210]);
    assert_eq!(chain_offsets(7), [-225, -300, -210, -165, -270]);
    assert_eq!(chain_offsets(0), [-315, -90, -105, -240, -180]);
    let offsets = chain_offsets(11);
    assert_eq!(offsets[0], new_rand(11));
    for slot in 1..5 {
        assert_eq!(offsets[slot], new_rand(offsets[slot - 1]));
    }
}
