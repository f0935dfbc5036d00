use queue_bot::render::{render, Phase};
use queue_bot::roster::Roster;
use queue_bot::session::Session;
use queue_bot::settings::ReactionRole;

fn coffee_role() -> ReactionRole {
    ReactionRole {
        emoji_id: None,
        emoji_char: Some("\u{2615}".to_string()),
        role_id: 5,
        title: "Support".to_string(),
    }
}

fn custom_emoji_role() -> ReactionRole {
    ReactionRole { emoji_id: Some(77), emoji_char: None, role_id: 7, title: "Flex".to_string() }
}

fn coffee_session() -> Session {
    Session {
        inviting_user: "Alice".to_string(),
        group_name: "Deadlock".to_string(),
        wait_secs: 300,
        roles: vec![coffee_role()],
        start_secs: 1000,
    }
}

#[test]
fn queueing_text_has_one_marker_at_start_plus_wait() {
    // Wait 300s, one role with the literal emoji: the Queueing text ends
    // with a single relative marker at start + 300.
    let session = coffee_session();
    let message = render(&session, Phase::Queueing, &Roster::new());
    assert_eq!(
        message.text,
        "## Alice is Queueing\n### Looking to Play with\n\u{2615}<@&5>\n\nDeadlock Queueing <t:1300:R>\n"
    );
    assert!(!message.has_toggle);
    assert_eq!(message.text.matches("<t:").count(), 1);
}

#[test]
fn match_starting_text_has_two_markers() {
    // Match-length constant 2400s: markers at start+300 and start+300+2400,
    // plus the role line with its emoji prefix.
    let session = coffee_session();
    let message = render(&session, Phase::MatchStarting, &Roster::new());
    assert_eq!(
        message.text,
        "## Alice is Queueing\n### Looking to Play with\n\u{2615}<@&5>\n\nStarted Queueing <t:1300:R>\nApprox. Next Match <t:3700:R>\n"
    );
    assert!(message.has_toggle);
    assert!(message.text.contains("<t:1300:R>"));
    assert!(message.text.contains("<t:3700:R>"));
    assert!(message.text.contains("\u{2615}<@&5>"));
    assert_eq!(message.text.matches("<t:").count(), 2);
}

#[test]
fn started_text_matches_match_starting_text() {
    let session = coffee_session();
    let started = render(&session, Phase::Started, &Roster::new());
    let match_starting = render(&session, Phase::MatchStarting, &Roster::new());
    assert_eq!(started.text, match_starting.text);
    assert!(!started.has_toggle);
}

#[test]
fn role_without_literal_emoji_gets_no_prefix() {
    let session = Session {
        inviting_user: "Alice".to_string(),
        group_name: "Deadlock".to_string(),
        wait_secs: 300,
        roles: vec![coffee_role(), custom_emoji_role()],
        start_secs: 1000,
    };
    let message = render(&session, Phase::Queueing, &Roster::new());
    assert!(message.text.contains("\u{2615}<@&5>\n"));
    assert!(message.text.contains("\n<@&7>\n"));
}

#[test]
fn closed_text_has_no_toggle_and_no_roster_block() {
    // Whatever the roster holds at termination, the Closed text shows
    // neither the toggle nor the waiting list.
    let session = coffee_session();
    let mut roster = Roster::new();
    roster.toggle(10);
    roster.toggle(20);
    let message = render(&session, Phase::Closed, &roster);
    assert_eq!(
        message.text,
        "## Alice is Queueing\n### Looking to Play with\n\u{2615}<@&5>\nStarted Queueing <t:1300:R>\n"
    );
    assert!(!message.has_toggle);
    assert!(!message.text.contains("Waiting For Next Game"));
    assert!(!message.text.contains("<@10>"));
}

#[test]
fn match_starting_shows_roster_in_insertion_order() {
    let session = coffee_session();
    let mut roster = Roster::new();
    roster.toggle(10);
    roster.toggle(20);
    let message = render(&session, Phase::MatchStarting, &roster);
    assert_eq!(
        message.text,
        "## Alice is Queueing\n### Looking to Play with\n\u{2615}<@&5>\n\nStarted Queueing <t:1300:R>\nApprox. Next Match <t:3700:R>\n### Waiting For Next Game\n\n<@10>\n<@20>"
    );
}

#[test]
fn empty_roster_omits_the_block() {
    let session = coffee_session();
    let message = render(&session, Phase::MatchStarting, &Roster::new());
    assert!(!message.text.contains("Waiting For Next Game"));
}
