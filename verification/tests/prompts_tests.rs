use queue_bot::prompts::{duration_prompt, roles_prompt, PROMPT_TIMEOUT_SECS};
use queue_bot::settings::ReactionRole;

#[test]
fn duration_prompt_offers_the_fixed_menu() {
    let p = duration_prompt();
    assert_eq!(p.min_select, 1);
    assert_eq!(p.max_select, 1);
    assert_eq!(p.timeout_secs, PROMPT_TIMEOUT_SECS);
    assert_eq!(p.timeout_secs, 120);
    assert_eq!(p.options.len(), 5);
    let expected = [
        ("30 Seconds", "30"),
        ("1 Minute", "60"),
        ("5 Minutes", "300"),
        ("10 Minutes", "600"),
        ("15 Minutes", "900"),
    ];
    for (option, (label, value)) in p.options.iter().zip(expected.iter()) {
        assert_eq!(option.label, *label);
        assert_eq!(option.value, *value);
        assert!(option.emoji_id.is_none());
        assert!(option.emoji_char.is_none());
    }
}

#[test]
fn roles_prompt_mirrors_the_directory() {
    let roles = vec![
        ReactionRole {
            emoji_id: None,
            emoji_char: Some("\u{2615}".to_string()),
            role_id: 5,
            title: "Support".to_string(),
        },
        ReactionRole {
            emoji_id: Some(77),
            emoji_char: None,
            role_id: 1234,
            title: "Flex".to_string(),
        },
    ];
    let p = roles_prompt(&roles);
    assert_eq!(p.min_select, 1);
    assert_eq!(p.max_select, 2);
    assert_eq!(p.timeout_secs, 120);
    assert_eq!(p.options.len(), 2);
    assert_eq!(p.options[0].label, "Support");
    assert_eq!(p.options[0].value, "5");
    assert_eq!(p.options[0].emoji_char.as_deref(), Some("\u{2615}"));
    assert_eq!(p.options[0].emoji_id, None);
    assert_eq!(p.options[1].label, "Flex");
    assert_eq!(p.options[1].value, "1234");
    assert_eq!(p.options[1].emoji_id, Some(77));
    assert_eq!(p.options[1].emoji_char, None);
}
