use clicket::event_loop::{exit_code, is_quit_key, EventLoop, InputEvent, LoopState, TickPlan};

#[test]
fn quit_input_stops_the_loop_within_one_iteration() {
    let mut event_loop = EventLoop::new();
    assert!(event_loop.is_running());
    event_loop.handle_input(InputEvent::Quit);
    assert!(!event_loop.is_running());
    assert_eq!(event_loop.state, LoopState::Exiting);
    // No further refresh or draw is planned, even when a refresh is due.
    assert_eq!(
        event_loop.plan_tick(true),
        TickPlan {
            refresh: false,
            draw: false,
        }
    );
    assert_eq!(
        event_loop.plan_tick(false),
        TickPlan {
            refresh: false,
            draw: false,
        }
    );
}

#[test]
fn other_inputs_are_ignored() {
    let mut event_loop = EventLoop::new();
    event_loop.handle_input(InputEvent::OtherKey);
    assert!(event_loop.is_running());
    event_loop.handle_input(InputEvent::Idle);
    assert!(event_loop.is_running());
}

#[test]
fn exiting_is_final() {
    let mut event_loop = EventLoop::new();
    event_loop.handle_input(InputEvent::Quit);
    event_loop.handle_input(InputEvent::OtherKey);
    event_loop.handle_input(InputEvent::Idle);
    event_loop.handle_input(InputEvent::Quit);
    assert_eq!(event_loop.state, LoopState::Exiting);
}

#[test]
fn running_loop_draws_and_refreshes_when_due() {
    let event_loop = EventLoop::new();
    assert_eq!(
        event_loop.plan_tick(true),
        TickPlan {
            refresh: true,
            draw: true,
        }
    );
    assert_eq!(
        event_loop.plan_tick(false),
        TickPlan {
            refresh: false,
            draw: true,
        }
    );
}

#[test]
fn exactly_one_quit_key() {
    assert!(is_quit_key('q'));
    assert!(!is_quit_key('Q'));
    assert!(!is_quit_key('x'));
    assert!(!is_quit_key(' '));
    assert!(!is_quit_key('\n'));
}

#[test]
fn exit_codes() {
    assert_eq!(exit_code(true), 0);
    assert_ne!(exit_code(false), 0);
    assert_eq!(exit_code(false), 1);
}
