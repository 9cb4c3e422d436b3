//! The login state machine and the session's login probe. Each step takes
//! what the driver observed in the current phase and gives the next phase and
//! the browser action to perform; the driver performs it and observes again.

use vstd::prelude::*;
use crate::text::{chars_of, contains_chars, contains_seq};

verus! {

/// The selectors, markers and limits of a login flow.
pub struct LoginConfig {
    /// The element that opens the login form.
    pub trigger_selector: String,
    /// The username field.
    pub username_selector: String,
    /// The control to click after the username, where the form has one.
    pub next_button_selector: Option<String>,
    /// The secondary text-entry challenge's input.
    pub challenge_input_selector: String,
    /// The control that submits the challenge.
    pub challenge_next_selector: String,
    /// The password field.
    pub password_selector: String,
    /// The final submit control.
    pub submit_selector: String,
    /// A part of the URL that shows a logged-in session.
    pub success_url_part: Option<String>,
    /// An element that shows a logged-in session.
    pub success_selector: Option<String>,
    /// URL parts that show the session is not logged in, even where `success_url_part` occurs.
    pub negative_url_parts: Vec<String>,
    /// How many times the confirmation is probed before the login counts as failed.
    pub max_polls: u32,
}

/// Where the login flow stands.
#[derive(Clone, Copy, PartialEq, Eq, Structural, Debug)]
pub enum LoginPhase {
    TriggerSearch,
    UsernameEntry,
    VerificationChallenge,
    PasswordEntry,
    /// Waiting for confirmation, after `polls` probes that found none.
    AwaitingConfirmation { polls: u32 },
    Success,
    Failed,
}

/// What the driver observed in the current phase.
pub struct LoginProbe {
    /// Whether the element that the phase waits for turned up: the trigger,
    /// the username field, the challenge input or the password field.
    pub target_found: bool,
    /// Whether the username field is visible.
    pub username_visible: bool,
    /// Whether the success-indicator element is present.
    pub success_element: bool,
    /// The tab's current URL.
    pub current_url: String,
}

/// What the driver does after a step.
#[derive(Clone, Copy, PartialEq, Eq, Structural, Debug)]
pub enum LoginAction {
    /// Click the login trigger.
    ClickTrigger,
    /// Type the username, then click the next control if `then_click_next`.
    TypeUsername { then_click_next: bool },
    /// Fill the challenge input and click its next control.
    FillChallenge,
    /// Type the password and click the submit control.
    TypePasswordAndSubmit,
    /// Nothing in the browser; go on with the next phase.
    Proceed,
    /// Wait one poll interval and probe again.
    PollAgain,
    /// Logged in: read the cookies and persist them.
    PersistCookies,
    /// Not logged in: capture a diagnostic and report the current URL.
    ReportFailure,
}

/// Whether an action types into or clicks an element of the page.
pub open spec fn touches_form(a: LoginAction) -> bool {
    match a {
        LoginAction::ClickTrigger => true,
        LoginAction::TypeUsername { .. } => true,
        LoginAction::FillChallenge => true,
        LoginAction::TypePasswordAndSubmit => true,
        _ => false,
    }
}

/// Whether a phase ends the flow.
pub open spec fn is_final(p: LoginPhase) -> bool {
    p is Success || p is Failed
}

/// Whether `url` shows a logged-in session: the success part occurs in it and
/// none of the negative parts does.
pub open spec fn url_shows_success(cfg: LoginConfig, url: Seq<char>) -> bool {
    &&& cfg.success_url_part is Some
    &&& contains_seq(url, cfg.success_url_part->0@)
    &&& forall|k: int|
        0 <= k < cfg.negative_url_parts@.len() ==> !contains_seq(
            url,
            (#[trigger] cfg.negative_url_parts@[k])@,
        )
}

/// Whether the probe shows a logged-in session, by element or by URL.
pub open spec fn success_shown(cfg: LoginConfig, probe: LoginProbe) -> bool {
    (cfg.success_selector is Some && probe.success_element) || url_shows_success(
        cfg,
        probe.current_url@,
    )
}

/// The next phase and the action, from phase `phase` and what the driver observed.
pub open spec fn login_step(cfg: LoginConfig, phase: LoginPhase, probe: LoginProbe) -> (
    LoginPhase,
    LoginAction,
) {
    match phase {
        LoginPhase::TriggerSearch => if probe.target_found {
            (LoginPhase::UsernameEntry, LoginAction::ClickTrigger)
        } else if !probe.username_visible && success_shown(cfg, probe) {
            (LoginPhase::Success, LoginAction::PersistCookies)
        } else {
            (LoginPhase::UsernameEntry, LoginAction::Proceed)
        },
        LoginPhase::UsernameEntry => if probe.target_found {
            (
                LoginPhase::VerificationChallenge,
                LoginAction::TypeUsername { then_click_next: cfg.next_button_selector is Some },
            )
        } else {
            (LoginPhase::VerificationChallenge, LoginAction::Proceed)
        },
        LoginPhase::VerificationChallenge => if probe.target_found {
            (LoginPhase::PasswordEntry, LoginAction::FillChallenge)
        } else {
            (LoginPhase::PasswordEntry, LoginAction::Proceed)
        },
        LoginPhase::PasswordEntry => if probe.target_found {
            (LoginPhase::AwaitingConfirmation { polls: 0 }, LoginAction::TypePasswordAndSubmit)
        } else if success_shown(cfg, probe) {
            (LoginPhase::Success, LoginAction::PersistCookies)
        } else {
            (LoginPhase::AwaitingConfirmation { polls: 0 }, LoginAction::Proceed)
        },
        LoginPhase::AwaitingConfirmation { polls } => if success_shown(cfg, probe) {
            (LoginPhase::Success, LoginAction::PersistCookies)
        } else if polls + 1 >= cfg.max_polls {
            (LoginPhase::Failed, LoginAction::ReportFailure)
        } else {
            (LoginPhase::AwaitingConfirmation { polls: (polls + 1) as u32 }, LoginAction::PollAgain)
        },
        LoginPhase::Success => (LoginPhase::Success, LoginAction::PersistCookies),
        LoginPhase::Failed => (LoginPhase::Failed, LoginAction::ReportFailure),
    }
}

/// How many steps at most remain before a final phase.
pub open spec fn steps_left(cfg: LoginConfig, p: LoginPhase) -> int {
    match p {
        LoginPhase::TriggerSearch => cfg.max_polls + 5,
        LoginPhase::UsernameEntry => cfg.max_polls + 4,
        LoginPhase::VerificationChallenge => cfg.max_polls + 3,
        LoginPhase::PasswordEntry => cfg.max_polls + 2,
        LoginPhase::AwaitingConfirmation { polls } => if polls < cfg.max_polls {
            cfg.max_polls - polls
        } else {
            1
        },
        LoginPhase::Success => 0,
        LoginPhase::Failed => 0,
    }
}

/// The login flow's decisions. The driver that performs them lives outside
/// the library.
pub struct LoginHandler;

impl LoginHandler {
    /// Whether `url` shows a logged-in session: the success part occurs in it
    /// and none of the negative parts does.
    pub fn url_shows_success(cfg: &LoginConfig, url: &str) -> (r: bool)
        ensures
            r == url_shows_success(*cfg, url@),
    {
        let part = match &cfg.success_url_part {
            Some(p) => p,
            None => return false,
        };
        let u = chars_of(url);
        let pc = chars_of(part.as_str());
        if !contains_chars(&u, &pc) {
            return false;
        }
        let mut k: usize = 0;
        while k < cfg.negative_url_parts.len()
            invariant
                k <= cfg.negative_url_parts@.len(),
                u@ == url@,
                forall|j: int| 0 <= j < k ==> !contains_seq(url@, (#[trigger] cfg.negative_url_parts@[j])@),
            decreases cfg.negative_url_parts@.len() - k,
        {
            let nc = chars_of(cfg.negative_url_parts[k].as_str());
            if contains_chars(&u, &nc) {
                return false;
            }
            k += 1;
        }
        true
    }

    /// Whether the probe shows a logged-in session, by element or by URL.
    pub fn success_shown(cfg: &LoginConfig, probe: &LoginProbe) -> (r: bool)
        ensures
            r == success_shown(*cfg, *probe),
    {
        (cfg.success_selector.is_some() && probe.success_element) || Self::url_shows_success(
            cfg,
            probe.current_url.as_str(),
        )
    }

    /// Takes one step of the login flow from a phase that is not final: the
    /// next phase and what the driver does. Every step brings a final phase
    /// closer.
    pub fn step(cfg: &LoginConfig, phase: LoginPhase, probe: &LoginProbe) -> (r: (
        LoginPhase,
        LoginAction,
    ))
        requires
            !is_final(phase),
        ensures
            r == login_step(*cfg, phase, *probe),
            0 <= steps_left(*cfg, r.0) < steps_left(*cfg, phase),
    {
        match phase {
            LoginPhase::TriggerSearch => {
                if probe.target_found {
                    (LoginPhase::UsernameEntry, LoginAction::ClickTrigger)
                } else if !probe.username_visible && Self::success_shown(cfg, probe) {
                    (LoginPhase::Success, LoginAction::PersistCookies)
                } else {
                    (LoginPhase::UsernameEntry, LoginAction::Proceed)
                }
            },
            LoginPhase::UsernameEntry => {
                if probe.target_found {
                    (
                        LoginPhase::VerificationChallenge,
                        LoginAction::TypeUsername {
                            then_click_next: cfg.next_button_selector.is_some(),
                        },
                    )
                } else {
                    (LoginPhase::VerificationChallenge, LoginAction::Proceed)
                }
            },
            LoginPhase::VerificationChallenge => {
                if probe.target_found {
                    (LoginPhase::PasswordEntry, LoginAction::FillChallenge)
                } else {
                    (LoginPhase::PasswordEntry, LoginAction::Proceed)
                }
            },
            LoginPhase::PasswordEntry => {
                if probe.target_found {
                    (
                        LoginPhase::AwaitingConfirmation { polls: 0 },
                        LoginAction::TypePasswordAndSubmit,
                    )
                } else if Self::success_shown(cfg, probe) {
                    (LoginPhase::Success, LoginAction::PersistCookies)
                } else {
                    (LoginPhase::AwaitingConfirmation { polls: 0 }, LoginAction::Proceed)
                }
            },
            LoginPhase::AwaitingConfirmation { polls } => {
                if Self::success_shown(cfg, probe) {
                    (LoginPhase::Success, LoginAction::PersistCookies)
                } else if polls as u64 + 1 >= cfg.max_polls as u64 {
                    (LoginPhase::Failed, LoginAction::ReportFailure)
                } else {
                    (LoginPhase::AwaitingConfirmation { polls: polls + 1 }, LoginAction::PollAgain)
                }
            },
            LoginPhase::Success => (LoginPhase::Success, LoginAction::PersistCookies),
            LoginPhase::Failed => (LoginPhase::Failed, LoginAction::ReportFailure),
        }
    }

    /// Whether the session must log in: unless the login trigger is absent and
    /// the logged-in indicator is present.
    pub fn login_needed(trigger_present: bool, indicator_present: bool) -> (r: bool)
        ensures
            r == !(!trigger_present && indicator_present),
    {
        trigger_present || !indicator_present
    }

    /// Whether the session navigates to the profile again before harvesting:
    /// always after a login, and otherwise where the tab is elsewhere.
    pub fn should_renavigate(login_ran: bool, current_url: &str, profile_url: &str) -> (r: bool)
        ensures
            r == (login_ran || current_url@ != profile_url@),
    {
        if login_ran {
            return true;
        }
        let c = String::from_str(current_url);
        let p = String::from_str(profile_url);
        !(c == p)
    }
}

/// At the trigger search, with neither the trigger nor the username field in
/// sight and the success element present, the flow succeeds at once, without
/// typing into or clicking anything.
pub proof fn lemma_logged_in_session_short_circuits(cfg: LoginConfig, probe: LoginProbe)
    requires
        !probe.target_found,
        !probe.username_visible,
        cfg.success_selector is Some,
        probe.success_element,
    ensures
        login_step(cfg, LoginPhase::TriggerSearch, probe) == (
            LoginPhase::Success,
            LoginAction::PersistCookies,
        ),
        !touches_form(login_step(cfg, LoginPhase::TriggerSearch, probe).1),
{
}

} // verus!
