use gossip_glomers::common::timer::Timer;

#[test]
fn should_remove_expired_timers() {
    let mut timer = Timer::new();
    let now: u64 = 1_000;
    timer.add_timer(now + 1, 1);
    timer.add_timer(now + 2, 2);
    timer.add_timer(now + 3, 3);
    timer.add_timer(now + 6, 6);
    timer.add_timer(now + 7, 7);

    let expired_timers = timer.remove_expired_timers(now + 5);

    assert_eq!(expired_timers, vec![1, 2, 3]);
    assert_eq!(timer.duration_until_next_timer(now), 6);

    let expired_timers = timer.remove_expired_timers(now + 10);

    assert_eq!(expired_timers, vec![6, 7]);
    assert_eq!(timer.duration_until_next_timer(now), 0);
}

#[test]
fn an_empty_timer_has_nothing_to_fire() {
    let mut timer: Timer<u8> = Timer::new();
    assert_eq!(timer.remove_expired_timers(u64::MAX), Vec::<u8>::new());
    assert_eq!(timer.duration_until_next_timer(0), 0);
    assert_eq!(timer.duration_until_next_timer(u64::MAX), 0);
}

#[test]
fn a_timer_fires_at_its_deadline_and_not_before() {
    let mut timer = Timer::new();
    timer.add_timer(100, "a");
    assert_eq!(timer.remove_expired_timers(99), Vec::<&str>::new());
    assert_eq!(timer.duration_until_next_timer(99), 1);
    assert_eq!(timer.duration_until_next_timer(100), 0);
    assert_eq!(timer.duration_until_next_timer(101), 0);
    assert_eq!(timer.remove_expired_timers(100), vec!["a"]);
    assert_eq!(timer.remove_expired_timers(100), Vec::<&str>::new());
}

#[test]
fn timers_fire_in_the_order_of_their_deadlines() {
    let mut timer = Timer::new();
    let deadlines: [u64; 12] = [50, 3, 99, 3, 17, 0, 64, 8, 41, 2, 77, 30];
    for deadline in deadlines {
        timer.add_timer(deadline, deadline);
    }
    assert_eq!(timer.remove_expired_timers(41), vec![0, 2, 3, 3, 8, 17, 30, 41]);
    assert_eq!(timer.duration_until_next_timer(10), 40);
    timer.add_timer(1, 1);
    assert_eq!(timer.remove_expired_timers(98), vec![1, 50, 64, 77]);
    assert_eq!(timer.remove_expired_timers(u64::MAX), vec![99]);
}

#[test]
fn timers_with_one_deadline_all_fire() {
    let mut timer = Timer::new();
    for key in 0..9 {
        timer.add_timer(5, key);
    }
    timer.add_timer(6, 100);
    let mut fired = timer.remove_expired_timers(5);
    fired.sort();
    assert_eq!(fired, (0..9).collect::<Vec<i32>>());
    assert_eq!(timer.remove_expired_timers(6), vec![100]);
}
