use ruststream::onboarding::{KeyInput, OnboardingError, OnboardingState, trimmed};

fn type_str(state: &mut OnboardingState, text: &str) {
    for c in text.chars() {
        state.handle_key(KeyInput::Character(c));
    }
}

#[test]
fn initial_state_has_defaults() {
    let s = OnboardingState::new();
    assert_eq!(s.step, 0);
    assert_eq!(s.tmdb_api_key, "");
    assert_eq!(s.database_url, "sqlite://./streaming.db");
    assert_eq!(s.port, "3000");
    assert!(!s.exit_requested);
}

#[test]
fn typing_fills_the_active_field_and_save_finishes() {
    let mut s = OnboardingState::new();
    type_str(&mut s, "abc");
    assert_eq!(s.tmdb_api_key, "abc");
    let done = s.handle_key(KeyInput::ControlS);
    assert!(done);
    let c = s.build_config().unwrap();
    assert_eq!(c.tmdb_api_key, "abc");
    assert_eq!(c.database_url, "sqlite://./streaming.db");
    assert_eq!(c.port, 3000);
}

#[test]
fn save_refuses_an_empty_key() {
    let mut s = OnboardingState::new();
    assert!(!s.handle_key(KeyInput::ControlS));
    type_str(&mut s, "   ");
    assert!(!s.handle_key(KeyInput::ControlS));
    assert_eq!(s.build_config().unwrap_err(), OnboardingError::MissingApiKey);
}

#[test]
fn enter_moves_and_finally_finishes() {
    let mut s = OnboardingState::new();
    type_str(&mut s, "key");
    assert!(!s.handle_key(KeyInput::Enter));
    assert_eq!(s.step, 1);
    assert!(!s.handle_key(KeyInput::Enter));
    assert_eq!(s.step, 2);
    assert!(s.handle_key(KeyInput::Enter));
}

#[test]
fn arrows_navigate_within_bounds() {
    let mut s = OnboardingState::new();
    s.handle_key(KeyInput::Up);
    assert_eq!(s.step, 0);
    s.handle_key(KeyInput::Down);
    s.handle_key(KeyInput::Tab);
    s.handle_key(KeyInput::Down);
    assert_eq!(s.step, 2);
    s.handle_key(KeyInput::Up);
    assert_eq!(s.step, 1);
}

#[test]
fn the_port_field_accepts_only_digits() {
    let mut s = OnboardingState::new();
    type_str(&mut s, "key");
    s.handle_key(KeyInput::Enter);
    s.handle_key(KeyInput::Enter);
    for _ in 0..4 {
        s.handle_key(KeyInput::Backspace);
    }
    assert_eq!(s.port, "");
    type_str(&mut s, "8x0!");
    assert_eq!(s.port, "80");
    let c = s.build_config().unwrap();
    assert_eq!(c.port, 80);
}

#[test]
fn an_empty_port_falls_back_to_the_default() {
    let mut s = OnboardingState::new();
    type_str(&mut s, "key");
    s.handle_key(KeyInput::Enter);
    s.handle_key(KeyInput::Enter);
    for _ in 0..4 {
        s.handle_key(KeyInput::Backspace);
    }
    let c = s.build_config().unwrap();
    assert_eq!(c.port, 3000);
}

#[test]
fn an_out_of_range_port_is_an_error() {
    let mut s = OnboardingState::new();
    type_str(&mut s, "key");
    s.handle_key(KeyInput::Enter);
    s.handle_key(KeyInput::Enter);
    type_str(&mut s, "80");
    assert_eq!(s.port, "300080");
    assert_eq!(s.build_config().unwrap_err(), OnboardingError::InvalidPort);
}

#[test]
fn escape_and_plain_q_request_exit() {
    let mut s = OnboardingState::new();
    s.handle_key(KeyInput::Escape);
    assert!(s.exit_requested);
    let mut s = OnboardingState::new();
    s.handle_key(KeyInput::Character('q'));
    assert!(s.exit_requested);
}

#[test]
fn fields_are_trimmed_when_assembled() {
    let mut s = OnboardingState::new();
    type_str(&mut s, "  spaced key  ");
    let c = s.build_config().unwrap();
    assert_eq!(c.tmdb_api_key, "spaced key");
}

#[test]
fn trimming_matches_whitespace_on_both_ends() {
    assert_eq!(trimmed("  a b  "), "a b");
    assert_eq!(trimmed("\t\n x \r"), "x");
    assert_eq!(trimmed("   "), "");
    assert_eq!(trimmed(""), "");
    assert_eq!(trimmed("solid"), "solid");
}
