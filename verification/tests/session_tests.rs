use queue_bot::session::{
    start, step, Action, ConfigError, Event, QueueConfig, SessionError, SessionState,
};
use queue_bot::settings::ReactionRole;

fn coffee_role() -> ReactionRole {
    ReactionRole {
        emoji_id: None,
        emoji_char: Some("\u{2615}".to_string()),
        role_id: 5,
        title: "Support".to_string(),
    }
}

fn config() -> QueueConfig {
    QueueConfig::new("Alice".to_string(), "Deadlock".to_string(), vec![coffee_role()])
        .expect("one well-formed role")
}

fn strings(values: &[&str]) -> Vec<String> {
    values.iter().map(|v| v.to_string()).collect()
}

fn public_count(actions: &[Action]) -> usize {
    actions
        .iter()
        .filter(|a| {
            matches!(a, Action::PostAnnouncement { .. } | Action::EditAnnouncement { .. })
        })
        .count()
}

#[test]
fn full_session_runs_to_closed() {
    // Wait 300s against the 2400s match-length constant, one role with a
    // literal emoji.
    let cfg = config();
    let (st, actions) = start();
    assert!(matches!(st, SessionState::AwaitingDuration));
    assert_eq!(actions.len(), 1);
    match &actions[0] {
        Action::ShowDurationPrompt { prompt } => assert_eq!(prompt.options.len(), 5),
        _ => panic!("expected the duration prompt"),
    }

    let (st, actions) = step(st, Event::DurationChosen { values: strings(&["300"]) }, &cfg);
    assert!(matches!(st, SessionState::AwaitingRoles { wait_secs: 300 }));
    assert_eq!(actions.len(), 1);
    match &actions[0] {
        Action::ShowRolePrompt { prompt } => {
            assert_eq!(prompt.options.len(), 1);
            assert_eq!(prompt.options[0].value, "5");
        },
        _ => panic!("expected the role prompt"),
    }

    let (st, actions) = step(
        st,
        Event::RolesChosen { values: strings(&["5"]), now_secs: 1000 },
        &cfg,
    );
    assert!(matches!(st, SessionState::Announced { .. }));
    assert_eq!(actions.len(), 4);
    assert!(matches!(actions[0], Action::AcknowledgeSelection));
    match &actions[1] {
        Action::PostAnnouncement { message } => {
            assert_eq!(
                message.text,
                "## Alice is Queueing\n### Looking to Play with\n\u{2615}<@&5>\n\nDeadlock Queueing <t:1300:R>\n"
            );
            assert!(!message.has_toggle);
        },
        _ => panic!("expected the public announcement"),
    }
    assert!(matches!(actions[2], Action::DeleteEphemeral));
    assert!(matches!(actions[3], Action::Delay { secs: 300 }));

    let (st, actions) = step(st, Event::WaitElapsed, &cfg);
    assert!(matches!(st, SessionState::MatchStarting { .. }));
    assert_eq!(actions.len(), 2);
    match &actions[0] {
        Action::EditAnnouncement { message } => {
            assert_eq!(
                message.text,
                "## Alice is Queueing\n### Looking to Play with\n\u{2615}<@&5>\n\nStarted Queueing <t:1300:R>\nApprox. Next Match <t:3700:R>\n"
            );
            assert!(message.has_toggle);
        },
        _ => panic!("expected the match-starting edit"),
    }
    // Window = 2400 - 300.
    assert!(matches!(actions[1], Action::AwaitToggles { window_secs: 2100 }));

    let (st, actions) = step(st, Event::ToggleSignal { user_id: 42 }, &cfg);
    assert!(matches!(st, SessionState::MatchStarting { .. }));
    assert_eq!(actions.len(), 2);
    assert!(matches!(actions[0], Action::AcknowledgeToggle));
    match &actions[1] {
        Action::EditAnnouncement { message } => {
            assert!(message.text.ends_with("### Waiting For Next Game\n\n<@42>"));
            assert!(message.has_toggle);
        },
        _ => panic!("expected the roster re-render"),
    }

    let (st, actions) = step(st, Event::WindowElapsed, &cfg);
    assert!(matches!(st, SessionState::Closed));
    assert_eq!(actions.len(), 1);
    match &actions[0] {
        Action::EditAnnouncement { message } => {
            assert_eq!(
                message.text,
                "## Alice is Queueing\n### Looking to Play with\n\u{2615}<@&5>\nStarted Queueing <t:1300:R>\n"
            );
            assert!(!message.has_toggle);
            assert!(!message.text.contains("Waiting For Next Game"));
        },
        _ => panic!("expected the closing edit"),
    }
}

#[test]
fn duration_timeout_sends_nothing_public() {
    // A duration-prompt timeout: no role prompt is ever sent, and no
    // public message exists.
    let cfg = config();
    let (st, _) = start();
    let (st, actions) = step(st, Event::PromptTimedOut, &cfg);
    assert!(matches!(st, SessionState::Abandoned));
    assert_eq!(actions.len(), 1);
    assert!(matches!(actions[0], Action::DeleteEphemeral));
    assert_eq!(public_count(&actions), 0);
    assert!(
        !actions.iter().any(|a| matches!(a, Action::ShowRolePrompt { .. }))
    );

    // The abandoned session ignores everything that follows.
    let (st, actions) = step(
        st,
        Event::RolesChosen { values: strings(&["5"]), now_secs: 1000 },
        &cfg,
    );
    assert!(matches!(st, SessionState::Abandoned));
    assert!(actions.is_empty());
    let (st, actions) = step(st, Event::WaitElapsed, &cfg);
    assert!(matches!(st, SessionState::Abandoned));
    assert!(actions.is_empty());
}

#[test]
fn role_timeout_sends_nothing_public() {
    let cfg = config();
    let (st, _) = start();
    let (st, a1) = step(st, Event::DurationChosen { values: strings(&["60"]) }, &cfg);
    let (st, a2) = step(st, Event::PromptTimedOut, &cfg);
    assert!(matches!(st, SessionState::Abandoned));
    assert_eq!(public_count(&a1), 0);
    assert_eq!(public_count(&a2), 0);
    assert_eq!(a2.len(), 1);
    assert!(matches!(a2[0], Action::DeleteEphemeral));
}

#[test]
fn zero_window_closes_without_collecting() {
    // A wait at least as long as the match-length constant leaves no
    // collection window: the session closes at once and no toggle is ever
    // processed.
    let cfg = config();
    let (st, _) = start();
    let (st, _) = step(st, Event::DurationChosen { values: strings(&["2400"]) }, &cfg);
    let (st, _) = step(
        st,
        Event::RolesChosen { values: strings(&["5"]), now_secs: 1000 },
        &cfg,
    );
    let (st, actions) = step(st, Event::WaitElapsed, &cfg);
    assert!(matches!(st, SessionState::Closed));
    assert_eq!(actions.len(), 2);
    assert!(
        !actions.iter().any(|a| matches!(a, Action::AwaitToggles { .. }))
    );
    match (&actions[0], &actions[1]) {
        (
            Action::EditAnnouncement { message: first },
            Action::EditAnnouncement { message: last },
        ) => {
            assert!(first.has_toggle);
            assert!(!last.has_toggle);
        },
        _ => panic!("expected the two phase edits"),
    }

    // No toggle event is processed, and nothing is re-rendered.
    let (st, actions) = step(st, Event::ToggleSignal { user_id: 42 }, &cfg);
    assert!(matches!(st, SessionState::Closed));
    assert!(actions.is_empty());
}

#[test]
fn unparseable_duration_fails_the_session() {
    let cfg = config();
    let (st, _) = start();
    let (st, actions) = step(
        st,
        Event::DurationChosen { values: strings(&["soon"]) },
        &cfg,
    );
    assert!(matches!(
        st,
        SessionState::Failed { error: SessionError::MalformedSelection }
    ));
    assert_eq!(public_count(&actions), 0);
}

#[test]
fn unknown_role_value_fails_the_session() {
    let cfg = config();
    let (st, _) = start();
    let (st, _) = step(st, Event::DurationChosen { values: strings(&["60"]) }, &cfg);
    let (st, actions) = step(
        st,
        Event::RolesChosen { values: strings(&["99"]), now_secs: 1000 },
        &cfg,
    );
    assert!(matches!(
        st,
        SessionState::Failed { error: SessionError::MalformedSelection }
    ));
    assert_eq!(public_count(&actions), 0);
}

#[test]
fn empty_role_selection_fails_the_session() {
    let cfg = config();
    let (st, _) = start();
    let (st, _) = step(st, Event::DurationChosen { values: strings(&["60"]) }, &cfg);
    let (st, actions) = step(st, Event::RolesChosen { values: vec![], now_secs: 1000 }, &cfg);
    assert!(matches!(
        st,
        SessionState::Failed { error: SessionError::MalformedSelection }
    ));
    assert_eq!(public_count(&actions), 0);
}

#[test]
fn capability_failure_aborts_quietly() {
    let cfg = config();
    let (st, _) = start();
    let (st, _) = step(st, Event::DurationChosen { values: strings(&["300"]) }, &cfg);
    let (st, _) = step(
        st,
        Event::RolesChosen { values: strings(&["5"]), now_secs: 1000 },
        &cfg,
    );
    let (st, actions) = step(st, Event::CapabilityFailed, &cfg);
    assert!(matches!(
        st,
        SessionState::Failed { error: SessionError::CapabilityFailure }
    ));
    assert!(actions.is_empty());
}

#[test]
fn config_rejects_empty_and_malformed_directories() {
    assert!(matches!(
        QueueConfig::new("Alice".to_string(), "Deadlock".to_string(), vec![]),
        Err(ConfigError::NoRoles)
    ));
    let both = ReactionRole {
        emoji_id: Some(1),
        emoji_char: Some("x".to_string()),
        role_id: 5,
        title: "Support".to_string(),
    };
    assert!(matches!(
        QueueConfig::new("Alice".to_string(), "Deadlock".to_string(), vec![both]),
        Err(ConfigError::MalformedRole)
    ));
    let neither = ReactionRole {
        emoji_id: None,
        emoji_char: None,
        role_id: 5,
        title: "Support".to_string(),
    };
    assert!(matches!(
        QueueConfig::new("Alice".to_string(), "Deadlock".to_string(), vec![neither]),
        Err(ConfigError::MalformedRole)
    ));
}

#[test]
fn roster_updates_preserve_order_across_steps() {
    let cfg = config();
    let (st, _) = start();
    let (st, _) = step(st, Event::DurationChosen { values: strings(&["300"]) }, &cfg);
    let (st, _) = step(
        st,
        Event::RolesChosen { values: strings(&["5"]), now_secs: 1000 },
        &cfg,
    );
    let (st, _) = step(st, Event::WaitElapsed, &cfg);
    let (st, _) = step(st, Event::ToggleSignal { user_id: 10 }, &cfg);
    let (st, actions) = step(st, Event::ToggleSignal { user_id: 20 }, &cfg);
    match &actions[1] {
        Action::EditAnnouncement { message } => {
            assert!(message.text.ends_with("### Waiting For Next Game\n\n<@10>\n<@20>"));
        },
        _ => panic!("expected the roster re-render"),
    }
    // The first user toggles again and leaves; the second stays listed.
    let (_, actions) = step(st, Event::ToggleSignal { user_id: 10 }, &cfg);
    match &actions[1] {
        Action::EditAnnouncement { message } => {
            assert!(message.text.ends_with("### Waiting For Next Game\n\n<@20>"));
        },
        _ => panic!("expected the roster re-render"),
    }
}
