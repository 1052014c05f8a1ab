use std::cell::Cell;
use std::rc::{Rc, Weak};
use std::time::Duration;

use sparko_embedded_std::http::{home_response, HomeResponse, HttpMethod, HOME_CLOSE, HOME_OPEN};
use sparko_embedded_std::led::{plan, FlashConfig, LedError, LedPlan, MonoLedManager};
use sparko_embedded_std::listener::{Listener, ListenerLink, ListenerManager};
use sparko_embedded_std::status::{InitStatus, Status};
use sparko_embedded_std::task_control::{MasterControlProgram, TaskConfig, TaskControlMessage, TaskType};
use sparko_embedded_std::wait_notify::WaitNotify;

#[test]
fn home_page_or_redirect() {
    match home_response(true, "12:00") {
        HomeResponse::Redirect { status, reason, location } => {
            assert_eq!((status, reason, location), (302, "Found", "/config"));
        }
        HomeResponse::Page(_) => panic!("expected a redirect"),
    }
    match home_response(false, "2024-01-01 12:00:00") {
        HomeResponse::Page(p) => {
            assert_eq!(p, format!("{}2024-01-01 12:00:00{}", HOME_OPEN, HOME_CLOSE));
            assert!(p.contains("<p>Current time: 2024-01-01 12:00:00</p>"));
        }
        HomeResponse::Redirect { .. } => panic!("expected the page"),
    }
    assert_ne!(HttpMethod::Get, HttpMethod::Post);
}

#[test]
fn wait_notify_hands_out_each_update_once() {
    let mut w = WaitNotify::new(1u32);
    assert!(!w.is_updated());
    assert_eq!(w.wait_update(), None);
    w.update(2);
    assert!(w.is_updated());
    assert_eq!(w.wait_update(), Some(2));
    assert_eq!(w.wait_update(), None);
    assert!(!w.update_if(3, |v| *v > 5));
    assert!(!w.is_updated());
    assert!(w.update_if(3, |v| *v == 2));
    assert_eq!(w.wait(), 3);
    assert!(!w.is_updated());
}

#[test]
fn led_patterns() {
    let mut led = MonoLedManager::new();
    let c = led.take_config();
    assert_eq!(c.flashes, 3);
    assert_eq!(c.burst, Duration::from_secs(1));
    assert!(!led.wait_or_interrupt());
    assert_eq!(
        led.set_flash_config(2, Duration::from_millis(99), Duration::from_secs(1)),
        Err(LedError::DurationTooShort)
    );
    assert!(!led.wait_or_interrupt());
    assert_eq!(led.set_flash_config(2, Duration::from_millis(400), Duration::from_secs(2)), Ok(()));
    assert!(led.wait_or_interrupt());
    match plan(&led.take_config()) {
        LedPlan::Flash { flashes, on_off, pause } => {
            assert_eq!(flashes, 2);
            assert_eq!(on_off, Duration::from_millis(100));
            assert_eq!(pause, Duration::from_secs(2));
        }
        _ => panic!("expected flashing"),
    }
    led.set_on();
    assert!(matches!(plan(&led.take_config()), LedPlan::Lit(d) if d == Duration::from_secs(300)));
    led.set_status(&Status::Running);
    assert!(matches!(plan(&led.take_config()), LedPlan::Dark(d) if d == Duration::from_secs(300)));
    led.set_status(&Status::Initializing(InitStatus::AwaitingTimeSync));
    assert_eq!(led.take_config().flashes, 1);
    led.set_status(&Status::Setup);
    assert_eq!(led.take_config().flashes, 2);
    led.set_status(&Status::Error);
    assert_eq!(led.take_config().flashes, 3);
    let _ = FlashConfig { flashes: 0, burst: Duration::ZERO, pause: Duration::ZERO };
}

struct Counter {
    heard: Cell<u32>,
}

impl Listener<u32> for Counter {
    fn on_event(&self, event: &u32) {
        self.heard.set(self.heard.get() + *event);
    }
}

struct Link(Weak<Counter>);

impl ListenerLink<u32> for Link {
    type Target = Counter;

    fn links_to(&self, target: &Counter) -> bool {
        std::ptr::eq(self.0.as_ptr(), target)
    }

    fn liveness_reading(&self, alive: bool) -> bool {
        alive == (self.0.strong_count() > 0)
    }

    fn deliver(&self, event: &u32) -> bool {
        match self.0.upgrade() {
            Some(l) => {
                l.on_event(event);
                true
            }
            None => false,
        }
    }

    fn alive_and_not(&self, target: &Counter) -> bool {
        match self.0.upgrade() {
            Some(l) => !std::ptr::eq(&*l, target),
            None => false,
        }
    }
}

#[test]
fn listeners_hear_events_until_gone() {
    let a = Rc::new(Counter { heard: Cell::new(0) });
    let b = Rc::new(Counter { heard: Cell::new(0) });
    let mut m: ListenerManager<u32, Link> = ListenerManager::new();
    m.add_listener(Link(Rc::downgrade(&a)));
    m.add_listener(Link(Rc::downgrade(&b)));
    assert_eq!(m.emit(&2), 2);
    assert_eq!(a.heard.get(), 2);
    drop(b);
    assert_eq!(m.emit(&3), 1);
    assert_eq!(a.heard.get(), 5);
    m.remove_listener(&a);
    assert_eq!(m.emit(&1), 0);
    assert_eq!(a.heard.get(), 5);
}

#[test]
fn removing_a_listener_keeps_the_other_live_ones() {
    let a = Rc::new(Counter { heard: Cell::new(0) });
    let b = Rc::new(Counter { heard: Cell::new(0) });
    let mut m: ListenerManager<u32, Link> = ListenerManager::new();
    m.add_listener(Link(Rc::downgrade(&a)));
    m.add_listener(Link(Rc::downgrade(&b)));
    m.add_listener(Link(Rc::downgrade(&a)));
    m.remove_listener(&a);
    assert_eq!(m.emit(&4), 1);
    assert_eq!(a.heard.get(), 0);
    assert_eq!(b.heard.get(), 4);
}

#[test]
fn master_control_program_keeps_no_tasks_yet() {
    let program: MasterControlProgram<u32> = MasterControlProgram::builder()
        .with_task(1, TaskConfig { heart_beat_freq: Duration::from_secs(1) })
        .build();
    let _ = program;
    assert_ne!(TaskType::Scheduled, TaskType::Thread);
    assert_ne!(TaskControlMessage::Start, TaskControlMessage::Shutdown);
}


use sparko_embedded_std::startup::{next_step, Outcome, Step};
use sparko_embedded_std::status::{Status as PlatformStatus, InitStatus as Init};

#[test]
fn start_up_with_a_valid_configuration() {
    let enabled = vec![true, false, true];
    let mut step = Step::Begin;
    let mut seen = vec![];
    for _ in 0..12 {
        let outcome = if step == Step::CheckTimeSync && !seen.contains(&Step::WaitHalfSecond) {
            Outcome::NotYet
        } else {
            Outcome::Done
        };
        step = next_step(step, outcome, true, &enabled);
        seen.push(step);
    }
    assert_eq!(
        seen,
        vec![
            Step::SetStatus(PlatformStatus::Initializing(Init::AwaitingClientIpAddress)),
            Step::ConnectWifi,
            Step::SetStatus(PlatformStatus::Initializing(Init::AwaitingTimeSync)),
            Step::StartTimeSync,
            Step::CheckTimeSync,
            Step::WaitHalfSecond,
            Step::CheckTimeSync,
            Step::SetStatus(PlatformStatus::Initializing(Init::StartingFeatures)),
            Step::StartFeature(0),
            Step::SkipFeature(1),
            Step::StartFeature(2),
            Step::SetStatus(PlatformStatus::Running),
        ]
    );
    assert_eq!(next_step(Step::SetStatus(PlatformStatus::Running), Outcome::Done, true, &enabled), Step::RunTasks);
    assert_eq!(next_step(Step::RunTasks, Outcome::Failed, true, &enabled), Step::SetStatus(PlatformStatus::Error));
}

#[test]
fn start_up_without_a_valid_configuration_serves_the_access_point() {
    let enabled = vec![true];
    let s = next_step(Step::Begin, Outcome::Done, false, &enabled);
    assert_eq!(s, Step::SetStatus(PlatformStatus::Setup));
    let s = next_step(s, Outcome::Done, false, &enabled);
    assert_eq!(s, Step::StartAccessPoint);
    let s = next_step(s, Outcome::Done, false, &enabled);
    assert_eq!(s, Step::ServeAccessPoint);
    assert_eq!(next_step(s, Outcome::Done, false, &enabled), Step::ServeAccessPoint);
    assert_eq!(next_step(Step::StartAccessPoint, Outcome::Failed, false, &enabled), Step::Exit);
    assert_eq!(next_step(Step::ConnectWifi, Outcome::Failed, true, &enabled), Step::SetStatus(PlatformStatus::Error));
}

#[test]
fn retain_keeps_marked_links_in_order() {
    let a = Rc::new(Counter { heard: Cell::new(0) });
    let b = Rc::new(Counter { heard: Cell::new(0) });
    let mut m: ListenerManager<u32, Link> = ListenerManager::new();
    m.add_listener(Link(Rc::downgrade(&a)));
    m.add_listener(Link(Rc::downgrade(&b)));
    m.retain(&vec![false, true]);
    assert_eq!(m.emit(&4), 1);
    assert_eq!(a.heard.get(), 0);
    assert_eq!(b.heard.get(), 4);
}
