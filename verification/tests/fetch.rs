use kemono_to_epub::epub::fetch::FetchStep;
use kemono_to_epub::{Creator, Post};
use serde_json::Value;

fn post(id: &str) -> Post {
    Post {
        id: id.to_string(),
        user: "u".to_string(),
        service: "patreon".to_string(),
        title: id.to_string(),
        content: String::new(),
        embed: Value::Null,
        shared_file: false,
        added: String::new(),
        published: String::new(),
        edited: None,
        file: Value::Null,
        attachments: Value::Null,
        poll: Value::Null,
        captions: None,
        tags: None,
        opf_extras: None,
    }
}

fn creator() -> Creator {
    Creator {
        id: "1".to_string(),
        name: "n".to_string(),
        service: "patreon".to_string(),
        indexed: String::new(),
        updated: String::new(),
        public_id: String::new(),
        relation_id: None,
        posts: None,
    }
}

fn ids(c: &Creator) -> Vec<String> {
    c.posts.as_ref().unwrap().iter().map(|p| p.id.clone()).collect()
}

#[test]
fn empty_page_stops_and_keeps_posts() {
    let mut c = creator();
    assert_eq!(c.take_page(vec![], 0, 3), FetchStep::EmptyPage);
    assert!(c.posts.is_none());
}

#[test]
fn pages_accumulate_in_order() {
    let mut c = creator();
    assert_eq!(c.take_page(vec![post("a"), post("b")], 0, 3), FetchStep::NextPage(50));
    assert_eq!(c.take_page(vec![post("c")], 50, 3), FetchStep::NextPage(100));
    assert_eq!(ids(&c), vec!["a", "b", "c"]);
}

#[test]
fn limit_of_pages() {
    let mut c = creator();
    assert_eq!(c.take_page(vec![post("a")], 0, 1), FetchStep::NextPage(50));
    assert_eq!(c.take_page(vec![post("b")], 50, 1), FetchStep::ReachedLimit);
    assert_eq!(ids(&c), vec!["a", "b"]);
}

#[test]
fn zero_pages_still_takes_the_first() {
    let mut c = creator();
    assert_eq!(c.take_page(vec![post("a")], 0, 0), FetchStep::ReachedLimit);
    assert_eq!(ids(&c), vec!["a"]);
}

#[test]
fn limit_too_large_overflows() {
    let mut c = creator();
    assert_eq!(c.take_page(vec![post("a")], 0, u32::MAX), FetchStep::Overflow);
    assert_eq!(c.take_page(vec![], 0, u32::MAX), FetchStep::EmptyPage);
    let mut d = creator();
    assert_eq!(d.take_page(vec![post("a")], u32::MAX - 10, 1), FetchStep::Overflow);
}
