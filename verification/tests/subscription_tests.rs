use iced::subscription::{step, Runtime, Stopwatch, StopwatchMessage, Subscription};

fn tick_times(runtime: &mut Runtime, clock: &[u64]) -> Vec<u64> {
    let mut fired = Vec::new();
    for &now in clock {
        if runtime.poll(now) {
            fired.push(now);
        }
    }
    fired
}

#[test]
fn a_periodic_subscription_fires_on_schedule() {
    let mut runtime = Runtime::new();
    runtime.reconcile(Subscription::Every(10), 0);
    let fired = tick_times(&mut runtime, &[5, 10, 15, 20, 25, 30]);
    assert_eq!(fired, vec![10, 20, 30]);
}

#[test]
fn replacing_with_an_identical_descriptor_keeps_the_timer() {
    // an undisturbed runtime is the control
    let mut control = Runtime::new();
    control.reconcile(Subscription::Every(10), 0);
    let control_fired = tick_times(&mut control, &[10, 20, 30]);

    // the other runtime has its descriptor re-submitted between the ticks
    let mut runtime = Runtime::new();
    runtime.reconcile(Subscription::Every(10), 0);
    let mut fired = Vec::new();
    for &now in &[10u64, 20, 30] {
        runtime.reconcile(Subscription::Every(10), now.saturating_sub(3));
        if runtime.poll(now) {
            fired.push(now);
        }
    }
    assert_eq!(fired, control_fired);
    assert_eq!(fired, vec![10, 20, 30]);
}

#[test]
fn a_changed_descriptor_restarts_the_timer() {
    let mut runtime = Runtime::new();
    runtime.reconcile(Subscription::Every(10), 0);
    assert!(runtime.poll(10));
    runtime.reconcile(Subscription::Every(3), 12);
    let fired = tick_times(&mut runtime, &[13, 14, 15, 16, 17, 18]);
    assert_eq!(fired, vec![15, 18]);
}

#[test]
fn an_idle_runtime_never_fires() {
    let mut runtime = Runtime::new();
    assert!(!runtime.poll(0));
    runtime.reconcile(Subscription::Every(10), 0);
    runtime.reconcile(Subscription::Idle, 5);
    let fired = tick_times(&mut runtime, &[10, 20, 30]);
    assert!(fired.is_empty());
}

#[test]
fn a_step_updates_the_state_then_reconciles() {
    let mut app = Stopwatch { running: false, ticks: 0 };
    let mut runtime = Runtime::new();
    let d = step(&mut app, &mut runtime, StopwatchMessage::Toggle, 0);
    assert!(app.running);
    assert_eq!(d, Subscription::Every(1000));
    assert!(runtime.poll(1000));
    // an unchanged descriptor at the next step keeps the timer's schedule
    let d = step(&mut app, &mut runtime, StopwatchMessage::Tick, 1500);
    assert_eq!(app.ticks, 1);
    assert_eq!(d, Subscription::Every(1000));
    assert!(!runtime.poll(1999));
    assert!(runtime.poll(2000));
    // stopping cancels the source
    let d = step(&mut app, &mut runtime, StopwatchMessage::Toggle, 2500);
    assert_eq!(d, Subscription::Idle);
    assert!(!runtime.poll(3000));
}
