use consensus_store::status::Status;

const ALL: [Status; 4] = [Status::Idle, Status::Mining, Status::Syncing, Status::ShuttingDown];

#[test]
fn codes_of_the_statuses() {
    assert_eq!(Status::Idle.code(), 0);
    assert_eq!(Status::Mining.code(), 1);
    assert_eq!(Status::Syncing.code(), 2);
    assert_eq!(Status::ShuttingDown.code(), 3);
}

#[test]
fn codes_round_trip() {
    for status in ALL {
        assert_eq!(Status::from_code(status.code()), Some(status));
    }
    for code in 4u8..=255 {
        assert_eq!(Status::from_code(code), None);
    }
}

#[test]
fn running_statuses_change_freely() {
    for current in [Status::Idle, Status::Mining, Status::Syncing] {
        for requested in ALL {
            assert_eq!(current.next(requested), requested);
        }
    }
}

#[test]
fn shutting_down_stays() {
    for requested in ALL {
        assert_eq!(Status::ShuttingDown.next(requested), Status::ShuttingDown);
    }
    assert!(Status::ShuttingDown.is_terminal());
    assert!(!Status::Idle.is_terminal());
    assert!(!Status::Mining.is_terminal());
    assert!(!Status::Syncing.is_terminal());
}
