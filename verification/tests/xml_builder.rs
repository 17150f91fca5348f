use kemono_to_epub::XMLElement;

const DECL: &str = r#"<?xml version = "1.0" encoding = "UTF-8"?>"#;

#[test]
fn empty_element_closes_itself() {
    let e = XMLElement::new("a");
    assert_eq!(e.to_string(), format!("{}<a/>", DECL));
}

#[test]
fn attributes_render_in_order() {
    let mut e = XMLElement::new("item");
    e.add_attribute("href", "x.html");
    e.add_attribute("id", "x");
    assert_eq!(e.to_string(), format!(r#"{}<item href="x.html" id="x"/>"#, DECL));
}

#[test]
fn text_makes_open_and_close_tags() {
    let mut e = XMLElement::new("title");
    e.add_text("Hello");
    assert_eq!(e.to_string(), format!("{}<title>Hello</title>", DECL));
}

#[test]
fn add_text_replaces_the_text() {
    let mut e = XMLElement::new("t");
    e.add_text("first");
    e.add_text("second");
    assert_eq!(e.to_string(), format!("{}<t>second</t>", DECL));
}

#[test]
fn text_comes_before_children() {
    let mut p = XMLElement::new("p");
    let mut b = XMLElement::new("b");
    b.add_text("bold");
    p.add_child(b);
    p.add_text("plain");
    assert_eq!(p.to_string(), format!("{}<p>plain<b>bold</b></p>", DECL));
}

#[test]
fn children_render_in_order_and_nest() {
    let mut root = XMLElement::new("r");
    let mut a = XMLElement::new("a");
    a.add_child(XMLElement::new("x"));
    root.add_child(a);
    root.add_child(XMLElement::new("b"));
    assert_eq!(root.to_string(), format!("{}<r><a><x/></a><b/></r>", DECL));
}

#[test]
fn special_text_follows_the_declaration() {
    let mut e = XMLElement::new("html");
    e.add_special("<!DOCTYPE html>");
    e.add_special("<!DOCTYPE x>");
    assert_eq!(e.to_string(), format!("{}<!DOCTYPE x><html/>", DECL));
}

#[test]
fn special_text_of_children_is_not_rendered() {
    let mut root = XMLElement::new("r");
    let mut c = XMLElement::new("c");
    c.add_special("IGNORED");
    root.add_child(c);
    assert_eq!(root.to_string(), format!("{}<r><c/></r>", DECL));
}

#[test]
fn nothing_is_escaped() {
    let mut e = XMLElement::new("t");
    e.add_attribute("q", "a\"b");
    e.add_text("<&>");
    assert_eq!(e.to_string(), format!("{}<t q=\"a\"b\"><&></t>", DECL));
}

#[test]
fn law_add_child_appends_before_closing_tag() {
    let mut e = XMLElement::new("list");
    e.add_attribute("k", "v");
    e.add_text("T");
    e.add_child(XMLElement::new("one"));
    let before = e.to_string();
    let mut child = XMLElement::new("two");
    child.add_text("2");
    e.add_child(child);
    let after = e.to_string();
    let open_part = before.strip_suffix("</list>").unwrap();
    assert_eq!(after, format!("{}<two>2</two></list>", open_part));
}
