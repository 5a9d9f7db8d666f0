use scsock::cfg::{Action, Config, ConfigError, RawAction};

#[test]
fn empty_table_is_rejected() {
    let r = Config::new("/tmp/s.sock".to_string(), false, vec![]);
    assert_eq!(r.err(), Some(ConfigError::NoActions));
}

#[test]
fn oversized_title_is_rejected() {
    let long = "x".repeat(256);
    let actions = vec![(
        "key".to_string(),
        RawAction::Verbose { command: "true".to_string(), name: Some(long) },
    )];
    let r = Config::new("/tmp/s.sock".to_string(), false, actions);
    assert_eq!(r.err(), Some(ConfigError::TitleTooLong));
}

#[test]
fn title_of_255_bytes_is_accepted() {
    let widest = "x".repeat(255);
    let actions = vec![(
        "key".to_string(),
        RawAction::Verbose { command: "true".to_string(), name: Some(widest) },
    )];
    assert!(Config::new("/tmp/s.sock".to_string(), false, actions).is_ok());
}

#[test]
fn oversized_key_used_as_title_is_rejected() {
    // the key becomes the title when no display name is given, so an
    // oversized key is just as fatal
    let actions = vec![("k".repeat(300), RawAction::Plain("true".to_string()))];
    let r = Config::new("/tmp/s.sock".to_string(), false, actions);
    assert_eq!(r.err(), Some(ConfigError::TitleTooLong));
}

#[test]
fn duplicate_keys_are_rejected() {
    let actions = vec![
        ("same".to_string(), RawAction::Plain("one".to_string())),
        ("other".to_string(), RawAction::Plain("two".to_string())),
        ("same".to_string(), RawAction::Plain("three".to_string())),
    ];
    let r = Config::new("/tmp/s.sock".to_string(), false, actions);
    assert_eq!(r.err(), Some(ConfigError::DuplicateKey));
}

#[test]
fn valid_configuration_is_kept_verbatim() {
    let actions = vec![
        ("a".to_string(), RawAction::Plain("echo a".to_string())),
        ("b".to_string(), RawAction::Plain("echo b".to_string())),
    ];
    let c = Config::new("/run/switch.sock".to_string(), true, actions).unwrap();
    assert_eq!(c.socket, "/run/switch.sock");
    assert!(c.remove_socket_if_exists);
    assert_eq!(c.actions.len(), 2);
    assert_eq!(c.get_action_title(0), "a");
    assert_eq!(c.get_action_command(0), "echo a");
    assert_eq!(c.get_action_title(1), "b");
    assert_eq!(c.get_action_command(1), "echo b");
}

#[test]
fn explicit_name_wins_over_the_key() {
    let actions = vec![(
        "key".to_string(),
        RawAction::Verbose { command: "true".to_string(), name: Some("Shown".to_string()) },
    )];
    let c = Config::new("/tmp/s.sock".to_string(), false, actions).unwrap();
    assert_eq!(c.get_action_title(0), "Shown");
    assert_eq!(c.get_action_command(0), "true");
}

#[test]
fn missing_name_falls_back_to_the_key() {
    let actions = vec![
        ("bare".to_string(), RawAction::Plain("true".to_string())),
        (
            "unnamed".to_string(),
            RawAction::Verbose { command: "false".to_string(), name: None },
        ),
    ];
    let c = Config::new("/tmp/s.sock".to_string(), false, actions).unwrap();
    assert_eq!(c.get_action_title(0), "bare");
    assert_eq!(c.get_action_title(1), "unnamed");
}

#[test]
fn resolve_fills_the_default_title() {
    let bare = Action::resolve(&"k".to_string(), &RawAction::Plain("c".to_string()));
    assert_eq!(bare.name, "k");
    assert_eq!(bare.command, "c");

    let named = Action::resolve(
        &"k".to_string(),
        &RawAction::Verbose { command: "c".to_string(), name: Some("n".to_string()) },
    );
    assert_eq!(named.name, "n");
    assert_eq!(named.command, "c");

    let unnamed = Action::resolve(
        &"k".to_string(),
        &RawAction::Verbose { command: "c".to_string(), name: None },
    );
    assert_eq!(unnamed.name, "k");
    assert_eq!(unnamed.command, "c");
}

#[test]
fn multibyte_titles_are_measured_in_bytes() {
    // 128 two-byte characters: 256 bytes of UTF-8, one over the cap
    let wide = "\u{00e9}".repeat(128);
    let actions = vec![(
        "key".to_string(),
        RawAction::Verbose { command: "true".to_string(), name: Some(wide) },
    )];
    let r = Config::new("/tmp/s.sock".to_string(), false, actions);
    assert_eq!(r.err(), Some(ConfigError::TitleTooLong));
}
