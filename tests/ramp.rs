use rgb_fader::ramp::{final_duty, slide, Ramp, STEP_DELAY_MS};

#[test]
fn ramp_up_writes_each_value_below_target() {
    let mut duty: u8 = 0;
    let writes = slide(&mut duty, 17);
    assert_eq!(writes, (0u8..17).collect::<Vec<u8>>());
    assert_eq!(duty, 16);
}

#[test]
fn ramp_up_step_count_is_distance() {
    let mut duty: u8 = 100;
    let writes = slide(&mut duty, 103);
    assert_eq!(writes, vec![100, 101, 102]);
    assert_eq!(writes.len(), 3);
    assert_eq!(duty, 102);
}

#[test]
fn ramp_down_writes_target_every_step() {
    let mut duty: u8 = 130;
    let writes = slide(&mut duty, 13);
    assert_eq!(writes.len(), 117);
    assert!(writes.iter().all(|&d| d == 13));
    assert_eq!(duty, 13);
}

#[test]
fn ramp_to_equal_value_writes_nothing() {
    let mut duty: u8 = 50;
    let writes = slide(&mut duty, 50);
    assert!(writes.is_empty());
    assert_eq!(duty, 50);
}

#[test]
fn ramp_twice_to_same_target_settles() {
    let mut duty: u8 = 10;
    let first = slide(&mut duty, 40);
    assert_eq!(first.len(), 30);
    assert_eq!(duty, 39);
    let second = slide(&mut duty, 40);
    assert_eq!(second, vec![39]);
    assert_eq!(duty, 39);

    let mut down: u8 = 200;
    slide(&mut down, 40);
    assert_eq!(down, 40);
    let again = slide(&mut down, 40);
    assert!(again.is_empty());
    assert_eq!(down, 40);
}

#[test]
fn maximum_descent() {
    let mut duty: u8 = 255;
    let writes = slide(&mut duty, 0);
    assert_eq!(writes.len(), 255);
    assert!(writes.iter().all(|&d| d == 0));
    assert_eq!(duty, 0);
}

#[test]
fn maximum_ascent() {
    let mut duty: u8 = 0;
    let writes = slide(&mut duty, 255);
    assert_eq!(writes.len(), 255);
    assert_eq!(writes[0], 0);
    assert_eq!(writes[254], 254);
    assert_eq!(duty, 254);
}

#[test]
fn ramp_from_zero_to_zero() {
    let mut duty: u8 = 0;
    assert!(slide(&mut duty, 0).is_empty());
    assert_eq!(duty, 0);
}

#[test]
fn final_duty_values() {
    assert_eq!(final_duty(0, 17), 16);
    assert_eq!(final_duty(0, 1), 0);
    assert_eq!(final_duty(0, 255), 254);
    assert_eq!(final_duty(130, 13), 13);
    assert_eq!(final_duty(255, 0), 0);
    assert_eq!(final_duty(7, 7), 7);
}

#[test]
fn stepwise_ramp_matches_slide() {
    let mut ramp = Ramp::new(5, 8);
    assert!(!ramp.is_finished());
    assert_eq!(ramp.next_write(), Some(5));
    assert_eq!(ramp.next_write(), Some(6));
    assert_eq!(ramp.next_write(), Some(7));
    assert!(ramp.is_finished());
    assert_eq!(ramp.next_write(), None);

    let mut down = Ramp::new(9, 7);
    assert_eq!(down.next_write(), Some(7));
    assert_eq!(down.next_write(), Some(7));
    assert_eq!(down.next_write(), None);

    let mut equal = Ramp::new(4, 4);
    assert!(equal.is_finished());
    assert_eq!(equal.next_write(), None);
}

#[test]
fn step_delay_is_ten_ms() {
    assert_eq!(STEP_DELAY_MS, 10);
}
