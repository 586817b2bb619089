use chess_server::keys::{generate_chess_keys, go_on, KeyDraws};

#[test]
fn keys_of_a_room_differ() {
    for _ in 0..1000 {
        let keys = generate_chess_keys();
        assert_ne!(keys[0], keys[1]);
    }
}

#[test]
fn keys_are_drawn_anew() {
    let mut seen: Vec<u64> = Vec::new();
    for _ in 0..20 {
        let keys = generate_chess_keys();
        seen.push(keys[0]);
        seen.push(keys[1]);
    }
    seen.sort();
    seen.dedup();
    assert!(seen.len() > 30);
}

fn drawn(draws: &[u64]) -> KeyDraws {
    draws.iter().fold(KeyDraws::Start, |so_far, draw| so_far.next(*draw))
}

#[test]
fn only_black_is_redrawn() {
    assert_eq!(drawn(&[]), KeyDraws::Start);
    assert_eq!(drawn(&[5]), KeyDraws::White { white_key: 5 });
    assert_eq!(drawn(&[5, 5]), KeyDraws::White { white_key: 5 });
    assert_eq!(drawn(&[5, 5, 5]), KeyDraws::White { white_key: 5 });
    assert_eq!(drawn(&[5, 5, 5, 9]), KeyDraws::Done { white_key: 5, black_key: 9 });
    assert_eq!(drawn(&[5, 5, 5, 9, 2]), KeyDraws::Done { white_key: 5, black_key: 9 });
}

#[test]
fn drawing_goes_on_for_the_same_white_key() {
    for draw in [0, 5, u64::MAX] {
        let keys = go_on(KeyDraws::White { white_key: 5 }, draw);
        assert_eq!(keys[0], 5);
        assert_ne!(keys[1], 5);
        if draw != 5 {
            assert_eq!(keys[1], draw);
        }
        assert_eq!(go_on(KeyDraws::Start, draw)[0], draw);
    }
    assert_eq!(go_on(KeyDraws::Done { white_key: 5, black_key: 9 }, 2), [5, 9]);
}
