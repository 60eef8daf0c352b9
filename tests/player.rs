use rgb_fader::player::{Player, BLUE, GREEN, RED};
use rgb_fader::sequence::{sequence, Color, SEQUENCE_LEN};

fn collect(player: &mut Player, n: usize) -> Vec<(usize, Option<u8>)> {
    (0..n).map(|_| player.next_write()).collect()
}

#[test]
fn built_in_sequence() {
    let s = sequence();
    assert_eq!(s.len(), SEQUENCE_LEN);
    assert_eq!(s.len(), 64);
    assert_eq!(s[0], Color { red: 17, green: 130, blue: 75 });
    assert_eq!(s[1], Color { red: 33, green: 13, blue: 11 });
    assert_eq!(s[63], Color { red: 158, green: 60, blue: 149 });
}

#[test]
fn first_two_entries_from_black() {
    let mut p = Player::with_sequence(0, 0, 0);

    let red = collect(&mut p, 17);
    assert_eq!(red, (0u8..17).map(|d| (RED, Some(d))).collect::<Vec<_>>());
    assert_eq!(p.current_duties(), [16, 0, 0]);

    let green = collect(&mut p, 130);
    assert_eq!(green, (0u8..130).map(|d| (GREEN, Some(d))).collect::<Vec<_>>());
    assert_eq!(p.current_duties(), [16, 129, 0]);

    let blue = collect(&mut p, 75);
    assert_eq!(blue, (0u8..75).map(|d| (BLUE, Some(d))).collect::<Vec<_>>());
    assert_eq!(p.current_duties(), [16, 129, 74]);
    assert_eq!(p.current_index(), 0);

    let red = collect(&mut p, 17);
    assert_eq!(red, (16u8..33).map(|d| (RED, Some(d))).collect::<Vec<_>>());
    assert_eq!(p.current_index(), 1);
    assert_eq!(p.current_duties(), [32, 129, 74]);

    let green = collect(&mut p, 116);
    assert!(green.iter().all(|&w| w == (GREEN, Some(13))));
    assert_eq!(p.current_duties(), [32, 13, 74]);

    let blue = collect(&mut p, 63);
    assert!(blue.iter().all(|&w| w == (BLUE, Some(11))));
    assert_eq!(p.current_duties(), [32, 13, 11]);

    // The next write belongs to the red channel of the third entry.
    let (channel, duty) = p.next_write();
    assert_eq!(channel, RED);
    assert_eq!(duty, Some(32));
    assert_eq!(p.current_index(), 2);
}

#[test]
fn sequence_cycles_through_every_entry() {
    let mut p = Player::with_sequence(0, 0, 0);
    let mut visited = vec![0usize];
    let mut last = p.current_index();
    loop {
        p.next_write();
        let i = p.current_index();
        if i != last {
            if i == 0 {
                break;
            }
            visited.push(i);
            last = i;
        }
    }
    assert_eq!(visited, (0..64).collect::<Vec<usize>>());
}

#[test]
fn single_entry_table_repeats() {
    let table = vec![Color { red: 3, green: 2, blue: 1 }];
    let mut p = Player::new(table, 2, 2, 2);
    assert_eq!(p.next_write(), (RED, Some(2)));
    // Green already holds its target: nothing to write.
    assert_eq!(p.next_write(), (GREEN, None));
    assert_eq!(p.next_write(), (BLUE, Some(1)));
    assert_eq!(p.current_duties(), [2, 2, 1]);
    assert_eq!(p.current_index(), 0);
    // Second pass: red climbs from 2 toward 3 again, green and blue hold
    // their targets and get no write.
    assert_eq!(p.next_write(), (RED, Some(2)));
    assert_eq!(p.next_write(), (GREEN, None));
    assert_eq!(p.next_write(), (BLUE, None));
    assert_eq!(p.current_duties(), [2, 2, 1]);
    assert_eq!(p.current_index(), 0);
}

#[test]
fn second_pass_settles_by_neighbouring_entries() {
    let s = sequence();
    let mut duties = [0u8; 3];
    let mut first_pass = Vec::new();
    for n in 0..=65usize {
        let c = s[n % 64];
        rgb_fader::ramp::slide(&mut duties[0], c.red);
        rgb_fader::ramp::slide(&mut duties[1], c.green);
        rgb_fader::ramp::slide(&mut duties[2], c.blue);
        if n < 64 {
            first_pass.push(duties);
        }
        if n == 0 {
            assert_eq!(duties, [16, 129, 74]);
        }
        if n == 64 {
            // Back at the first entry, coming from the last one.
            assert_eq!(duties, [17, 129, 75]);
        }
        if n == 65 {
            assert_eq!(duties, first_pass[1]);
        }
    }
}
