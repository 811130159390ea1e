use website_monitor::schedule::{Schedule, Wake};

fn sweeps(schedule: &mut Schedule, times: &[u64]) -> usize {
    let mut count = 0;
    for now in times {
        if schedule.poll(*now) == Wake::Sweep {
            count += 1;
        }
    }
    count
}

#[test]
fn first_sweep_waits_one_period() {
    let mut schedule = Schedule::start(100, 0);
    assert_eq!(schedule.next_due(), 100);
    assert_eq!(schedule.poll(0), Wake::Sleep(100));
    assert_eq!(schedule.poll(99), Wake::Sleep(1));
    assert_eq!(schedule.next_due(), 100);
    assert_eq!(schedule.poll(100), Wake::Sweep);
    assert_eq!(schedule.next_due(), 200);
    assert_eq!(schedule.poll(100), Wake::Sleep(100));
}

#[test]
fn three_sweeps_in_350_at_period_100() {
    let mut schedule = Schedule::start(100, 0);
    let times: Vec<u64> = (0..=35).map(|k| k * 10).collect();
    let count = sweeps(&mut schedule, &times);
    assert!(count >= 2 && count <= 4);
    assert_eq!(count, 3);
    assert_eq!(schedule.next_due(), 400);
}

#[test]
fn late_polls_still_sweep_once_per_period() {
    let mut schedule = Schedule::start(100, 0);
    assert_eq!(sweeps(&mut schedule, &[0, 130, 260, 350]), 3);
    assert_eq!(schedule.next_due(), 400);
}

#[test]
fn busy_polling_does_not_add_sweeps() {
    let mut schedule = Schedule::start(100, 0);
    let times: Vec<u64> = (0..=350).collect();
    assert_eq!(sweeps(&mut schedule, &times), 3);
}

#[test]
fn missed_due_times_are_skipped() {
    let mut schedule = Schedule::start(100, 0);
    assert_eq!(schedule.poll(450), Wake::Sweep);
    assert_eq!(schedule.next_due(), 500);
    assert_eq!(schedule.poll(460), Wake::Sleep(40));
    assert_eq!(schedule.poll(500), Wake::Sweep);
    assert_eq!(schedule.next_due(), 600);
}

#[test]
fn due_times_stay_on_the_grid_of_the_start() {
    let mut schedule = Schedule::start(60, 1_000);
    assert_eq!(schedule.origin(), 1_000);
    assert_eq!(schedule.period(), 60);
    assert_eq!(schedule.poll(1_059), Wake::Sleep(1));
    assert_eq!(schedule.poll(1_075), Wake::Sweep);
    assert_eq!(schedule.next_due(), 1_120);
    assert_eq!(schedule.poll(1_300), Wake::Sweep);
    assert_eq!(schedule.next_due(), 1_360);
}

#[test]
fn clock_that_goes_back_only_sleeps() {
    let mut schedule = Schedule::start(10, 100);
    assert_eq!(schedule.poll(110), Wake::Sweep);
    assert_eq!(schedule.poll(50), Wake::Sleep(70));
    assert_eq!(schedule.next_due(), 120);
}

#[test]
fn due_time_is_held_at_the_end_of_the_clock() {
    let schedule = Schedule::start(10, u64::MAX - 3);
    assert_eq!(schedule.next_due(), u64::MAX);
    let mut near = Schedule::start(10, u64::MAX - 15);
    assert_eq!(near.next_due(), u64::MAX - 5);
    assert_eq!(near.poll(u64::MAX - 5), Wake::Sweep);
    assert_eq!(near.next_due(), u64::MAX);
    assert_eq!(near.poll(u64::MAX - 1), Wake::Sleep(1));
}

#[test]
fn period_of_one() {
    let mut schedule = Schedule::start(1, 0);
    assert_eq!(sweeps(&mut schedule, &[0, 1, 2, 2, 3, 10]), 4);
    assert_eq!(schedule.next_due(), 11);
}
