use queue_bot::directory::DirectoryError;
use queue_bot::settings::{
    Flags, GameQueues, General, ReactionRole, ReactionRoles, Settings,
};

fn role(id: u64, title: &str) -> ReactionRole {
    ReactionRole {
        emoji_id: None,
        emoji_char: Some("\u{2615}".to_string()),
        role_id: id,
        title: title.to_string(),
    }
}

fn settings() -> Settings {
    Settings {
        general: General { name: "bot".to_string() },
        reaction_roles: vec![
            ReactionRoles {
                channel_id: 11,
                message_id: 1,
                roles: vec![role(100, "Support"), role(200, "Spectator"), role(300, "Flex")],
            },
            ReactionRoles { channel_id: 11, message_id: 2, roles: vec![role(400, "Other")] },
        ],
        flags: Flags { deadlock_queue_start: true },
        game_queue: vec![GameQueues {
            game_name: "Deadlock".to_string(),
            roles_message_id: 1,
            exclude: vec!["Spectator".to_string()],
        }],
    }
}

#[test]
fn directory_filters_exclusions_and_keeps_order() {
    let s = settings();
    let roles = s.roles_for_group(&"Deadlock".to_string()).expect("configured group");
    let ids: Vec<u64> = roles.iter().map(|r| r.role_id).collect();
    assert_eq!(ids, vec![100, 300]);
    assert_eq!(roles[0].title, "Support");
    assert_eq!(roles[1].title, "Flex");
}

#[test]
fn unknown_group_is_an_error() {
    let s = settings();
    assert!(matches!(
        s.roles_for_group(&"Chess".to_string()),
        Err(DirectoryError::UnknownGroup)
    ));
}

#[test]
fn unregistered_backing_message_is_an_error() {
    let mut s = settings();
    s.game_queue[0].roles_message_id = 9;
    assert!(matches!(
        s.roles_for_group(&"Deadlock".to_string()),
        Err(DirectoryError::NoRegisteredEntries)
    ));
}

#[test]
fn blocks_for_the_same_message_merge_in_order() {
    let mut s = settings();
    s.reaction_roles.push(ReactionRoles {
        channel_id: 11,
        message_id: 1,
        roles: vec![role(500, "Carry")],
    });
    let roles = s.roles_for_group(&"Deadlock".to_string()).expect("configured group");
    let ids: Vec<u64> = roles.iter().map(|r| r.role_id).collect();
    assert_eq!(ids, vec![100, 300, 500]);
}
