use queue_bot::reaction::role_for_reaction;
use queue_bot::settings::{
    EmojiKey, Flags, General, ReactionRole, ReactionRoles, Settings,
};

fn role(id: u64, title: &str, emoji_id: Option<u64>, emoji_char: Option<&str>) -> ReactionRole {
    ReactionRole {
        emoji_id,
        emoji_char: emoji_char.map(|s| s.to_string()),
        role_id: id,
        title: title.to_string(),
    }
}

fn settings(blocks: Vec<ReactionRoles>) -> Settings {
    Settings {
        general: General { name: "bot".to_string() },
        reaction_roles: blocks,
        flags: Flags { deadlock_queue_start: true },
        game_queue: vec![],
    }
}

#[test]
fn message_to_channel_map_lists_every_block() {
    let s = settings(vec![
        ReactionRoles { channel_id: 11, message_id: 1, roles: vec![] },
        ReactionRoles { channel_id: 22, message_id: 2, roles: vec![] },
    ]);
    let m = s.message_id_to_channel_id();
    assert_eq!(m.len(), 2);
    assert_eq!(m.get(&1), Some(&11));
    assert_eq!(m.get(&2), Some(&22));
    assert_eq!(m.get(&3), None);
}

#[test]
fn later_blocks_override_earlier_channels() {
    let s = settings(vec![
        ReactionRoles { channel_id: 11, message_id: 1, roles: vec![] },
        ReactionRoles { channel_id: 99, message_id: 1, roles: vec![] },
    ]);
    let m = s.message_id_to_channel_id();
    assert_eq!(m.len(), 1);
    assert_eq!(m.get(&1), Some(&99));
}

#[test]
fn lookup_finds_custom_and_literal_emoji() {
    let s = settings(vec![ReactionRoles {
        channel_id: 11,
        message_id: 1,
        roles: vec![
            role(100, "Support", None, Some("\u{2615}")),
            role(200, "Flex", Some(42), None),
        ],
    }]);
    let lookup = s.message_id_to_emoji_reaction_to_reactionrole_lookup();
    assert_eq!(lookup.bindings.len(), 2);

    let coffee = EmojiKey::Unicode("\u{2615}".to_string());
    let found = lookup.get(1, &coffee).expect("registered emoji");
    assert_eq!(found.role_id, 100);

    let custom = EmojiKey::Custom(42);
    let found = lookup.get(1, &custom).expect("registered emoji");
    assert_eq!(found.role_id, 200);

    assert!(lookup.get(2, &coffee).is_none());
    assert!(lookup.get(1, &EmojiKey::Custom(43)).is_none());
    assert!(lookup.get(1, &EmojiKey::Unicode("x".to_string())).is_none());
}

#[test]
fn lookup_skips_roles_without_emoji_and_keeps_the_last_duplicate() {
    let s = settings(vec![ReactionRoles {
        channel_id: 11,
        message_id: 1,
        roles: vec![
            role(100, "NoEmoji", None, None),
            role(200, "First", None, Some("\u{2615}")),
            role(300, "Second", None, Some("\u{2615}")),
        ],
    }]);
    let lookup = s.message_id_to_emoji_reaction_to_reactionrole_lookup();
    assert_eq!(lookup.bindings.len(), 2);
    let coffee = EmojiKey::Unicode("\u{2615}".to_string());
    let found = lookup.get(1, &coffee).expect("registered emoji");
    assert_eq!(found.role_id, 300);
}

#[test]
fn reaction_grants_and_revokes_through_one_lookup() {
    let s = settings(vec![ReactionRoles {
        channel_id: 11,
        message_id: 1,
        roles: vec![role(100, "Support", None, Some("\u{2615}"))],
    }]);
    let lookup = s.message_id_to_emoji_reaction_to_reactionrole_lookup();
    let coffee = EmojiKey::Unicode("\u{2615}".to_string());
    assert_eq!(role_for_reaction(&lookup, 1, &coffee), Some(100));
    assert_eq!(role_for_reaction(&lookup, 2, &coffee), None);
    assert_eq!(role_for_reaction(&lookup, 1, &EmojiKey::Custom(5)), None);
}
