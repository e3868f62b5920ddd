use tuic_relay::acceptor::StreamCounter;

#[test]
fn exhausted_ceiling_doubles_before_acceptance() {
    // Ceiling starts at 4; with 4 streams accepted and still live, the 5th
    // acceptance request raises the ceiling to 8 before the stream is
    // returned.
    let mut c = StreamCounter::new(4);
    for _ in 0..4 {
        assert_eq!(c.begin_accept(), None);
        c.register();
    }
    assert_eq!(c.live, 4);
    assert_eq!(c.ceiling, 4);
    let advertised = c.begin_accept();
    assert_eq!(advertised, Some(8));
    assert_eq!(c.ceiling, 8);
    c.register();
    assert_eq!(c.live, 5);
}

#[test]
fn ceiling_untouched_while_room_remains() {
    let mut c = StreamCounter::new(4);
    assert_eq!(c.begin_accept(), None);
    c.register();
    assert_eq!(c.begin_accept(), None);
    assert_eq!(c.ceiling, 4);
}

#[test]
fn ceiling_never_decreases() {
    let mut c = StreamCounter::new(2);
    let mut highest = c.ceiling;
    // Drive the counter through growth, load and release; the ceiling is
    // monotone throughout.
    for round in 0..6 {
        if c.live == c.ceiling {
            c.begin_accept();
        } else {
            assert_eq!(c.begin_accept(), None);
        }
        c.register();
        assert!(c.ceiling >= highest);
        highest = c.ceiling;
        if round % 2 == 1 {
            c.release();
            assert!(c.ceiling >= highest);
        }
    }
}

#[test]
fn release_frees_a_slot_without_shrinking() {
    let mut c = StreamCounter::new(1);
    assert_eq!(c.begin_accept(), None);
    c.register();
    assert_eq!(c.begin_accept(), Some(2));
    c.register();
    c.release();
    c.release();
    assert_eq!(c.live, 0);
    assert_eq!(c.ceiling, 2);
}
