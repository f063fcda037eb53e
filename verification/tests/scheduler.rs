use webworker::{Scheduler, Strategy};

#[test]
fn scheduler_keeps_its_strategy() {
    assert_eq!(Scheduler::new(Strategy::RoundRobin).strategy(), Strategy::RoundRobin);
    assert_eq!(Scheduler::new(Strategy::LoadBased).strategy(), Strategy::LoadBased);
}

#[test]
fn schedule_hands_out_the_first_worker() {
    let mut s = Scheduler::new(Strategy::RoundRobin);
    assert_eq!(s.schedule(&[5, 0, 9]), 0);
    assert_eq!(s.schedule(&[5, 0, 9]), 0);
    let mut t = Scheduler::new(Strategy::LoadBased);
    assert_eq!(t.schedule(&[3, 1, 4]), 0);
    assert_eq!(t.schedule(&[]), 0);
}
