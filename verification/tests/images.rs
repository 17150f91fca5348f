use kemono_to_epub::Post;
use serde_json::Value;

fn post(content: &str, extras: Option<Vec<String>>) -> Post {
    Post {
        id: "7".to_string(),
        user: "u".to_string(),
        service: "patreon".to_string(),
        title: "T".to_string(),
        content: content.to_string(),
        embed: Value::Null,
        shared_file: false,
        added: String::new(),
        published: String::new(),
        edited: None,
        file: Value::Null,
        attachments: Value::Null,
        poll: Value::Null,
        captions: None,
        tags: None,
        opf_extras: extras,
    }
}

#[test]
fn one_image_is_rewritten_into_images_folder() {
    let mut p = post(r#"<p>hi</p><img src="https://a.b/c.png">"#, None);
    let (urls, ok) = p.fix_img();
    assert!(ok);
    assert_eq!(urls, vec!["https://a.b/c.png".to_string()]);
    assert_eq!(p.content, r#"<p>hi</p><img src="/Images/https-__a.b_c.png" alt="" />"#);
    assert_eq!(p.opf_extras, Some(vec!["https://a.b/c.png".to_string()]));
    assert_eq!(p.title, "T");
}

#[test]
fn addresses_are_added_after_existing_extras() {
    let mut p = post(r#"<img src="http://x/1">"#, Some(vec!["old".to_string()]));
    let (urls, ok) = p.fix_img();
    assert!(ok);
    assert_eq!(urls, vec!["http://x/1".to_string()]);
    assert_eq!(p.opf_extras, Some(vec!["old".to_string(), "http://x/1".to_string()]));
}

#[test]
fn law_two_images_two_addresses() {
    let mut p = post(r#"<img src="http://x/1"><img src="http://x/2">"#, None);
    let (urls, ok) = p.fix_img();
    assert!(ok);
    assert_eq!(urls, vec!["http://x/1".to_string(), "http://x/2".to_string()]);
    assert_eq!(
        p.content,
        r#"<img src="/Images/http-__x_1" alt="" /><img src="/Images/http-__x_2" alt="" />"#
    );
}

#[test]
fn no_images_changes_nothing() {
    let mut p = post("<p>text</p>", None);
    let (urls, ok) = p.fix_img();
    assert!(ok);
    assert!(urls.is_empty());
    assert_eq!(p.content, "<p>text</p>");
    assert_eq!(p.opf_extras, None);
}

#[test]
fn tag_without_address_fails_before_any_download() {
    let mut p = post(r#"<img alt="x">"#, None);
    let (urls, ok) = p.fix_img();
    assert!(!ok);
    assert!(urls.is_empty());
    assert_eq!(p.content, r#"<img alt="x">"#);
    assert_eq!(p.opf_extras, None);
}

#[test]
fn searches_that_outrun_the_tags_fail() {
    // The third search starts past the third tag, as in the byte-offset search.
    let tag = r#"<img src="a">"#;
    let content = format!("{}{}{}{}", "x".repeat(20), tag, tag, tag);
    let mut p = post(&content, None);
    let (urls, ok) = p.fix_img();
    assert!(!ok);
    assert_eq!(urls, vec!["a".to_string(), "a".to_string()]);
}

#[test]
fn searches_inside_a_character_fail() {
    let tag = r#"<img src="a">"#;
    let content = format!("{}{}{}aéééééé{}", "x".repeat(20), tag, tag, tag);
    let mut p = post(&content, None);
    let (urls, ok) = p.fix_img();
    assert!(!ok);
    assert_eq!(urls.len(), 2);
}

#[test]
fn multibyte_text_before_images_is_kept() {
    let mut p = post(r#"日本<img src="http://x/1">"#, None);
    let (urls, ok) = p.fix_img();
    assert!(ok);
    assert_eq!(urls, vec!["http://x/1".to_string()]);
    assert_eq!(p.content, r#"日本<img src="/Images/http-__x_1" alt="" />"#);
}
