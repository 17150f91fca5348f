use kemono_to_epub::{custom_title_replace, match_title, Creator, Post, Title};
use serde_json::Value;

fn post(id: &str, title: &str) -> Post {
    Post {
        id: id.to_string(),
        user: "u".to_string(),
        service: "patreon".to_string(),
        title: title.to_string(),
        content: String::new(),
        embed: Value::Null,
        shared_file: false,
        added: String::new(),
        published: String::new(),
        edited: None,
        file: Value::Null,
        attachments: Value::Null,
        poll: Value::Null,
        captions: None,
        tags: None,
        opf_extras: None,
    }
}

/// Posts come newest first: "P1" is the oldest.
fn creator(name: &str) -> Creator {
    Creator {
        id: "1".to_string(),
        name: name.to_string(),
        service: "patreon".to_string(),
        indexed: String::new(),
        updated: "2024-01-01".to_string(),
        public_id: String::new(),
        relation_id: None,
        posts: Some(vec![post("3", "P3"), post("2", "P2"), post("1", "P1")]),
    }
}

#[test]
fn start_to_end_goes_from_oldest_to_newest() {
    let c = creator("Alice");
    assert_eq!(match_title(&c, &Title::StartToEnd, false), "P1 — P3");
}

#[test]
fn name_start_to_end() {
    let c = creator("Alice");
    assert_eq!(match_title(&c, &Title::NameStartToEnd, false), "Alice — P1 — P3");
}

#[test]
fn name_number_counts_posts() {
    let c = creator("Alice");
    assert_eq!(match_title(&c, &Title::NameNumber, false), "Alice — 3");
}

#[test]
fn name_first_and_last_post() {
    let c = creator("Alice");
    assert_eq!(match_title(&c, &Title::NameFirstPostName, false), "Alice — P1");
    assert_eq!(match_title(&c, &Title::NameLastPostName, false), "Alice — P3");
}

#[test]
fn creator_name_and_file_name() {
    let c = creator("Alice");
    assert_eq!(match_title(&c, &Title::CreatorName, false), "Alice");
    assert_eq!(match_title(&c, &Title::CreatorName, true), "Alice.epub");
}

#[test]
fn custom_title_fills_placeholders() {
    let c = creator("Alice");
    let t = Title::Custom((
        "{Creator.name}: {Posts.first} to {Posts.last} ({Posts.count})".to_string(),
        false,
    ));
    assert_eq!(match_title(&c, &t, false), "Alice: P1 to P3 (3)");
    assert_eq!(match_title(&c, &t, true), "Alice: P1 to P3 (3).epub");
}

#[test]
fn custom_title_with_extension_keeps_it() {
    let c = creator("Alice");
    let t = Title::Custom(("{Creator.name}.epub".to_string(), true));
    assert_eq!(match_title(&c, &t, true), "Alice.epub");
    assert_eq!(match_title(&c, &t, false), "Alice.epub");
}

#[test]
fn law_escaped_placeholder_is_shown_literally() {
    let c = creator("Alice");
    assert_eq!(custom_title_replace(r"{\Posts.first}".to_string(), &c), "{Posts.first}");
    assert_eq!(custom_title_replace(r"a\b\\c".to_string(), &c), "abc");
    assert_eq!(custom_title_replace("plain title".to_string(), &c), "plain title");
}

#[test]
fn placeholders_are_case_sensitive() {
    let c = creator("Alice");
    assert_eq!(custom_title_replace("{creator.name}".to_string(), &c), "{creator.name}");
}

#[test]
fn placeholders_in_the_name_are_filled_too() {
    let c = creator("A {Posts.count}");
    assert_eq!(match_title(&c, &Title::CreatorName, false), "A 3");
}

#[test]
fn backslashes_leave_built_in_titles() {
    let c = creator(r"A\B");
    assert_eq!(match_title(&c, &Title::CreatorName, false), "AB");
}

#[test]
fn law_file_name_is_title_with_extension() {
    let c = creator("Alice");
    for t in [Title::StartToEnd, Title::NameNumber, Title::CreatorName] {
        assert_eq!(match_title(&c, &t, true), format!("{}.epub", match_title(&c, &t, false)));
    }
    let custom = Title::Custom(("x".to_string(), false));
    assert_eq!(match_title(&c, &custom, true), "x.epub");
}
