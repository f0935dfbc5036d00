use queue_bot::voice::{
    available_names, channels_to_delete, count_empty_in_category, count_in_category,
    names_in_category, pick_channel_name, should_create_channel, VoiceChannel,
};

fn channel(id: u64, parent: Option<u64>, name: &str, members: usize) -> VoiceChannel {
    VoiceChannel { channel_id: id, parent_id: parent, name: name.to_string(), member_count: members }
}

fn strings(values: &[&str]) -> Vec<String> {
    values.iter().map(|v| v.to_string()).collect()
}

fn pool() -> Vec<VoiceChannel> {
    vec![
        channel(1, Some(9), "Alpha", 2),
        channel(2, Some(9), "Beta", 0),
        channel(3, Some(8), "Gamma", 0),
        channel(4, None, "Delta", 1),
        channel(5, Some(9), "Epsilon", 3),
    ]
}

#[test]
fn counting_respects_the_category() {
    let channels = pool();
    assert_eq!(count_in_category(&channels, 9), 3);
    assert_eq!(count_in_category(&channels, 8), 1);
    assert_eq!(count_in_category(&channels, 7), 0);
    assert_eq!(count_empty_in_category(&channels, 9), 1);
    assert_eq!(count_empty_in_category(&channels, 8), 1);
}

#[test]
fn names_come_in_listing_order() {
    let channels = pool();
    assert_eq!(names_in_category(&channels, 9), strings(&["Alpha", "Beta", "Epsilon"]));
}

#[test]
fn available_names_drop_those_in_use() {
    let names = available_names(
        &strings(&["Alpha", "Beta", "Gamma"]),
        &strings(&["Beta"]),
    );
    assert_eq!(names, strings(&["Alpha", "Gamma"]));
}

#[test]
fn creation_needs_room_and_no_empty_channel() {
    let mut channels = pool();
    // Category 9 has an empty channel: nothing to create.
    assert!(!should_create_channel(&channels, 9, 10));
    // Fill it: now a new channel is wanted while under the cap.
    channels[1].member_count = 1;
    assert!(should_create_channel(&channels, 9, 10));
    // At the cap: nothing to create.
    assert!(!should_create_channel(&channels, 9, 3));
}

#[test]
fn deletion_spares_the_last_listed_channel() {
    let channels = vec![
        channel(1, Some(9), "Alpha", 0),
        channel(2, Some(9), "Beta", 2),
        channel(3, Some(9), "Gamma", 0),
        channel(4, Some(8), "Delta", 0),
        channel(5, Some(9), "Epsilon", 0),
    ];
    // Walked from the end backwards, sparing the last listed channel and
    // other categories: Gamma then Alpha.
    assert_eq!(channels_to_delete(&channels, 9), vec![3, 1]);
}

#[test]
fn deletion_of_tiny_listings_is_empty() {
    assert_eq!(channels_to_delete(&vec![], 9), Vec::<u64>::new());
    let one = vec![channel(1, Some(9), "Alpha", 0)];
    assert_eq!(channels_to_delete(&one, 9), Vec::<u64>::new());
}

#[test]
fn picked_name_is_available_or_fallback() {
    assert_eq!(pick_channel_name(&vec![]), "ERROR");
    let options = strings(&["Alpha", "Beta"]);
    let picked = pick_channel_name(&options);
    assert!(options.contains(&picked));
}
