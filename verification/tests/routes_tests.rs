use backend::routes::accounts::auth_cookie_outcome;
use backend::auth::RequestOutcome;
use backend::routes::messenger::{
    chat_message_stored, home_messages, poll_messages, ConnectionList, MessageRow,
};
use backend::routes::packs::{
    pack_dir_indices, ListedEntry, file_stem, find_description_file, is_description_file, pack_from_files, section_from_config,
    SectionConfig,
};

fn row(user: Option<&str>, content: &str, datetime: i64) -> MessageRow {
    MessageRow {
        user_name: user.map(|u| u.to_string()),
        content: content.to_string(),
        datetime,
    }
}

#[test]
fn home_shows_oldest_first_with_calendar_time() {
    let rows = vec![row(Some("zed"), "second", 1_700_000_000_123), row(Some("amy"), "first", 0)];
    let msgs = home_messages(&rows);
    assert_eq!(msgs.len(), 2);
    assert_eq!(msgs[0].user_name, "amy");
    assert_eq!(msgs[0].content, "first");
    assert_eq!(msgs[0].datetime, "01-01-70 00-00-00");
    assert_eq!(msgs[1].user_name, "zed");
    assert_eq!(msgs[1].datetime, "14-11-23 22-13-20");
}

#[test]
fn poller_keeps_order_and_decimal_time() {
    let rows = vec![row(Some("a"), "x", 5), row(Some("b"), "y", -3)];
    let msgs = poll_messages(&rows);
    assert_eq!(msgs[0].user_name, "a");
    assert_eq!(msgs[0].datetime, "5");
    assert_eq!(msgs[1].content, "y");
    assert_eq!(msgs[1].datetime, "-3");
}

#[test]
fn empty_chat_messages_are_not_stored() {
    assert!(!chat_message_stored(""));
    assert!(chat_message_stored("hi"));
}

#[test]
fn connections_of_a_user_are_dropped_together() {
    let mut list: ConnectionList<&str> = ConnectionList::new();
    list.add(1, "a");
    list.add(2, "b");
    list.add(1, "c");
    list.add(3, "d");
    list.remove_user(1);
    assert_eq!(list.entries, vec![(2, "b"), (3, "d")]);
    list.remove_user(7);
    assert_eq!(list.entries, vec![(2, "b"), (3, "d")]);
    list.add(4, "e");
    list.remove_user(4);
    assert_eq!(list.entries, vec![(2, "b"), (3, "d")]);
}

#[test]
fn account_cookie_guard() {
    assert!(matches!(
        auth_cookie_outcome(Some("expected_auth_token_value")),
        RequestOutcome::Success(_)
    ));
    assert!(matches!(auth_cookie_outcome(Some("other")), RequestOutcome::Error(401)));
    assert!(matches!(auth_cookie_outcome(None), RequestOutcome::Error(401)));
}

#[test]
fn description_files() {
    assert!(is_description_file("about.txt"));
    assert!(is_description_file(".txt"));
    assert!(!is_description_file("about.md"));
    assert!(!is_description_file("txt"));
    let entries = vec![
        Some(String::from("icon.png")),
        None,
        Some(String::from("first.txt")),
        Some(String::from("second.txt")),
    ];
    assert_eq!(find_description_file(&entries), Some(2));
    assert_eq!(find_description_file(&vec![Some(String::from("a.md")), None]), None);
}

#[test]
fn stems_agree_with_path() {
    for name in ["about.txt", ".txt", "..txt", "a.b.txt", "noext", ".hidden", "a.", "x.tar.gz"] {
        let expected = std::path::Path::new(name).file_stem().unwrap().to_str().unwrap();
        assert_eq!(file_stem(name), expected, "name {:?}", name);
    }
}

#[test]
fn packs_and_sections() {
    let pack = pack_from_files(String::from("dir1"), "Cool Pack.txt", String::from("desc"));
    assert_eq!(pack.id, "dir1");
    assert_eq!(pack.name, "Cool Pack");
    assert_eq!(pack.description, "desc");
    let config = SectionConfig {
        title: String::from("T"),
        description: String::from("D"),
        allow_none: true,
    };
    let section = section_from_config(config, vec![pack]);
    assert_eq!(section.title, "T");
    assert_eq!(section.description, "D");
    assert!(section.allow_none);
    assert_eq!(section.options.len(), 1);
}

#[test]
fn pack_directories_in_listing_order() {
    let listed = vec![
        ListedEntry { name: Some(String::from("a")), is_dir: true },
        ListedEntry { name: Some(String::from("f.txt")), is_dir: false },
        ListedEntry { name: None, is_dir: true },
        ListedEntry { name: Some(String::from("b")), is_dir: true },
    ];
    assert_eq!(pack_dir_indices(&listed), vec![0, 3]);
    assert_eq!(pack_dir_indices(&vec![]), Vec::<usize>::new());
}
