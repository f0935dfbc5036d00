use queue_bot::roster::Roster;

fn members(r: &Roster) -> Vec<u64> {
    let mut out = Vec::new();
    let mut i = 0;
    while i < r.len() {
        out.push(r.get(i));
        i += 1;
    }
    out
}

#[test]
fn two_users_then_first_leaves() {
    // Two different users each toggle once, then the first toggles again.
    let user_a = 100;
    let user_b = 200;
    let mut roster = Roster::new();
    assert!(roster.toggle(user_a));
    assert!(roster.toggle(user_b));
    assert_eq!(members(&roster), vec![user_a, user_b]);
    assert!(!roster.toggle(user_a));
    assert_eq!(members(&roster), vec![user_b]);
}

#[test]
fn toggle_twice_restores_membership() {
    let mut roster = Roster::new();
    roster.toggle(1);
    roster.toggle(2);
    roster.toggle(3);
    assert!(roster.toggle(9));
    assert!(!roster.toggle(9));
    assert_eq!(members(&roster), vec![1, 2, 3]);
    assert!(!roster.contains(9));
}

#[test]
fn toggle_never_duplicates() {
    let mut roster = Roster::new();
    roster.toggle(5);
    roster.toggle(5);
    roster.toggle(5);
    assert_eq!(members(&roster), vec![5]);
    roster.toggle(5);
    assert_eq!(members(&roster), Vec::<u64>::new());
}

#[test]
fn removed_user_rejoins_at_the_end() {
    let mut roster = Roster::new();
    roster.toggle(1);
    roster.toggle(2);
    roster.toggle(1);
    roster.toggle(1);
    assert_eq!(members(&roster), vec![2, 1]);
}
