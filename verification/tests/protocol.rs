use std::collections::VecDeque;
use std::time::Instant;

use sansio::Protocol;

/// Echoes every transmit back, upper-cased; keeps every other default.
struct Echo {
    out: VecDeque<String>,
}

impl Protocol for Echo {
    type Transmit = String;
    type Event = u32;
    type Error = String;

    fn handle_transmit(&mut self, transmit: String) -> Result<(), String> {
        if transmit.is_empty() {
            return Err("empty".to_string());
        }
        self.out.push_back(transmit.to_uppercase());
        Ok(())
    }

    fn poll_transmit(&mut self) -> Option<String> {
        self.out.pop_front()
    }
}

#[test]
fn protocol_defaults_accept_everything_and_offer_nothing() {
    let mut p = Echo { out: VecDeque::new() };
    assert_eq!(p.handle_event(3), Ok(()));
    assert_eq!(p.poll_event(), None);
    assert_eq!(p.handle_timeout(Instant::now()), Ok(()));
    assert_eq!(p.poll_timeout(), None);
    assert_eq!(p.close(), Ok(()));
}

#[test]
fn protocol_transmits_round_trip() {
    let mut p = Echo { out: VecDeque::new() };
    assert_eq!(p.handle_transmit("hi".to_string()), Ok(()));
    assert_eq!(p.handle_transmit(String::new()), Err("empty".to_string()));
    assert_eq!(p.poll_transmit(), Some("HI".to_string()));
    assert_eq!(p.poll_transmit(), None);
}

#[test]
fn a_boxed_protocol_is_the_protocol_in_the_box() {
    let mut p: Box<Echo> = Box::new(Echo { out: VecDeque::new() });
    assert_eq!(p.handle_transmit("ok".to_string()), Ok(()));
    assert_eq!(Protocol::poll_transmit(&mut p), Some("OK".to_string()));
    assert_eq!(Protocol::handle_event(&mut p, 1), Ok(()));
    assert_eq!(Protocol::poll_event(&mut p), None);
}

#[test]
fn a_mutable_reference_to_a_protocol_is_the_protocol() {
    let mut echo = Echo { out: VecDeque::new() };
    {
        let mut r = &mut echo;
        assert_eq!(Protocol::handle_transmit(&mut r, "x".to_string()), Ok(()));
        assert_eq!(Protocol::close(&mut r), Ok(()));
        assert_eq!(Protocol::poll_timeout(&mut r), None);
    }
    assert_eq!(echo.poll_transmit(), Some("X".to_string()));
}
