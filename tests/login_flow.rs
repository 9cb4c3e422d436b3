use feed_harvest::login::{LoginAction, LoginConfig, LoginHandler, LoginPhase, LoginProbe};

fn config() -> LoginConfig {
    LoginConfig {
        trigger_selector: "a[data-testid='login']".to_string(),
        username_selector: "input[name='text']".to_string(),
        next_button_selector: Some("button.next".to_string()),
        challenge_input_selector: "input[data-testid='ocfEnterTextTextInput']".to_string(),
        challenge_next_selector: "button[data-testid='ocfEnterTextNextButton']".to_string(),
        password_selector: "input[name='password']".to_string(),
        submit_selector: "div[data-testid='LoginForm_Footer_Container'] button".to_string(),
        success_url_part: Some("home".to_string()),
        success_selector: Some("a[data-testid='AppTabBar_Home_Link']".to_string()),
        negative_url_parts: vec!["login".to_string(), "checkpoint".to_string()],
        max_polls: 3,
    }
}

fn probe(found: bool, username: bool, element: bool, url: &str) -> LoginProbe {
    LoginProbe {
        target_found: found,
        username_visible: username,
        success_element: element,
        current_url: url.to_string(),
    }
}

#[test]
fn logged_in_session_short_circuits() {
    let (p, a) = LoginHandler::step(&config(), LoginPhase::TriggerSearch, &probe(false, false, true, "https://x.com/solana"));
    assert_eq!(p, LoginPhase::Success);
    assert_eq!(a, LoginAction::PersistCookies);
}

#[test]
fn trigger_found_is_clicked() {
    let (p, a) = LoginHandler::step(&config(), LoginPhase::TriggerSearch, &probe(true, false, true, "https://x.com/home"));
    assert_eq!(p, LoginPhase::UsernameEntry);
    assert_eq!(a, LoginAction::ClickTrigger);
}

#[test]
fn visible_form_is_filled_even_with_indicator() {
    let (p, a) = LoginHandler::step(&config(), LoginPhase::TriggerSearch, &probe(false, true, true, "https://x.com/home"));
    assert_eq!(p, LoginPhase::UsernameEntry);
    assert_eq!(a, LoginAction::Proceed);
}

#[test]
fn full_flow_succeeds_on_url() {
    let cfg = config();
    let (challenge, challenge_action) = LoginHandler::step(&cfg, LoginPhase::UsernameEntry, &probe(true, true, false, "https://x.com/i/flow/login"));
    assert_eq!(challenge, LoginPhase::VerificationChallenge);
    assert_eq!(challenge_action, LoginAction::TypeUsername { then_click_next: true });
    let (password, password_action) = LoginHandler::step(&cfg, challenge, &probe(false, false, false, "https://x.com/i/flow/login"));
    assert_eq!(password, LoginPhase::PasswordEntry);
    assert_eq!(password_action, LoginAction::Proceed);
    let (waiting, waiting_action) = LoginHandler::step(&cfg, password, &probe(true, false, false, "https://x.com/i/flow/login"));
    assert_eq!(waiting, LoginPhase::AwaitingConfirmation { polls: 0 });
    assert_eq!(waiting_action, LoginAction::TypePasswordAndSubmit);
    let (done, done_action) = LoginHandler::step(&cfg, waiting, &probe(false, false, false, "https://x.com/home"));
    assert_eq!(done, LoginPhase::Success);
    assert_eq!(done_action, LoginAction::PersistCookies);
}

#[test]
fn challenge_is_filled_when_present() {
    let (p, a) = LoginHandler::step(&config(), LoginPhase::VerificationChallenge, &probe(true, false, false, "u"));
    assert_eq!(p, LoginPhase::PasswordEntry);
    assert_eq!(a, LoginAction::FillChallenge);
}

#[test]
fn missing_password_field_rechecks_success() {
    let cfg = config();
    let (p, a) = LoginHandler::step(&cfg, LoginPhase::PasswordEntry, &probe(false, false, true, "u"));
    assert_eq!((p, a), (LoginPhase::Success, LoginAction::PersistCookies));
    let (q, b) = LoginHandler::step(&cfg, LoginPhase::PasswordEntry, &probe(false, false, false, "u"));
    assert_eq!((q, b), (LoginPhase::AwaitingConfirmation { polls: 0 }, LoginAction::Proceed));
}

#[test]
fn confirmation_times_out() {
    let cfg = config();
    let mut phase = LoginPhase::AwaitingConfirmation { polls: 0 };
    let mut steps = 0;
    let url = "https://x.com/i/flow/login?next=home";
    loop {
        let (p, a) = LoginHandler::step(&cfg, phase, &probe(false, false, false, url));
        steps += 1;
        phase = p;
        if p == LoginPhase::Failed {
            assert_eq!(a, LoginAction::ReportFailure);
            break;
        }
        assert_eq!(a, LoginAction::PollAgain);
    }
    assert_eq!(steps, 3);
}

#[test]
fn url_markers() {
    let cfg = config();
    assert!(LoginHandler::url_shows_success(&cfg, "https://x.com/home"));
    assert!(!LoginHandler::url_shows_success(&cfg, "https://x.com/login?to=home"));
    assert!(!LoginHandler::url_shows_success(&cfg, "https://x.com/checkpoint/home"));
    assert!(!LoginHandler::url_shows_success(&cfg, "https://x.com/explore"));
    let mut none = config();
    none.success_url_part = None;
    assert!(!LoginHandler::url_shows_success(&none, "https://x.com/home"));
}

#[test]
fn session_probe_decisions() {
    assert!(!LoginHandler::login_needed(false, true));
    assert!(LoginHandler::login_needed(true, true));
    assert!(LoginHandler::login_needed(false, false));
    assert!(LoginHandler::should_renavigate(true, "a", "a"));
    assert!(!LoginHandler::should_renavigate(false, "https://x.com/solana", "https://x.com/solana"));
    assert!(LoginHandler::should_renavigate(false, "https://x.com/home", "https://x.com/solana"));
}
