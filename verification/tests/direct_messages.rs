use guildchat::api::dm::DM;
use guildchat::api::emoji::Emoji;
use guildchat::api::user::User;

fn user(name: &str) -> User {
    User { id: format!("id of {}", name), username: name.to_string(), global_name: None }
}

fn dm(names: &[&str]) -> DM {
    DM { id: "d".to_string(), channel_type: 1, recipients: names.iter().map(|n| user(n)).collect() }
}

#[test]
fn name_without_recipients_is_empty() {
    assert_eq!(dm(&[]).get_name(), "");
}

#[test]
fn name_of_one_recipient_is_the_user_name() {
    assert_eq!(dm(&["ada"]).get_name(), "ada");
}

#[test]
fn names_are_joined_with_comma_and_space() {
    assert_eq!(dm(&["ada", "grace"]).get_name(), "ada, grace");
    assert_eq!(dm(&["ada", "grace", "édith"]).get_name(), "ada, grace, édith");
}

#[test]
fn empty_user_names_still_get_their_separator() {
    assert_eq!(dm(&["", ""]).get_name(), ", ");
    assert_eq!(dm(&["a", "", "b"]).get_name(), "a, , b");
}

#[test]
fn name_uses_the_user_name_not_the_global_name() {
    let mut channel = dm(&["ada"]);
    channel.recipients[0].global_name = Some("Countess".to_string());
    assert_eq!(channel.get_name(), "ada");
}

#[test]
fn records_clone_field_by_field() {
    let mut channel = dm(&["ada", "grace"]);
    channel.recipients[1].global_name = Some("Amazing".to_string());
    let copy = channel.clone();
    assert_eq!(copy.id, "d");
    assert_eq!(copy.channel_type, 1);
    assert_eq!(copy.recipients.len(), 2);
    assert_eq!(copy.recipients[0].id, "id of ada");
    assert_eq!(copy.recipients[1].username, "grace");
    assert_eq!(copy.recipients[1].global_name.as_deref(), Some("Amazing"));
    assert_eq!(copy.get_name(), channel.get_name());

    let emoji = Emoji { id: "1".to_string(), name: "wave".to_string(), animated: Some(true) };
    let copy = emoji.clone();
    assert_eq!(copy.id, "1");
    assert_eq!(copy.name, "wave");
    assert_eq!(copy.animated, Some(true));
}
