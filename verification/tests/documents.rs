use kemono_to_epub::epub::archive::ArchiveAction;
use kemono_to_epub::epub::documents::{
    chapter_document, container_document, content_document, cover_document, file_name,
    icon_url_of, toc_document,
};
use kemono_to_epub::{Creator, EpubRequest, Post, Title};
use serde_json::Value;

const DECL: &str = r#"<?xml version = "1.0" encoding = "UTF-8"?>"#;
const DOCTYPE: &str = r#"<!DOCTYPE html PUBLIC "-//W3C//DTD XHTML 1.1//EN" "http://www.w3.org/TR/xhtml11/DTD/xhtml11.dtd">"#;

fn post(id: &str, title: &str, content: &str) -> Post {
    Post {
        id: id.to_string(),
        user: "u".to_string(),
        service: "patreon".to_string(),
        title: title.to_string(),
        content: content.to_string(),
        embed: Value::Null,
        shared_file: false,
        added: String::new(),
        published: String::new(),
        edited: None,
        file: Value::Null,
        attachments: Value::Null,
        poll: Value::Null,
        captions: None,
        tags: None,
        opf_extras: None,
    }
}

fn creator(posts: Vec<Post>) -> Creator {
    Creator {
        id: "1".to_string(),
        name: "Al".to_string(),
        service: "patreon".to_string(),
        indexed: String::new(),
        updated: "2024-05-06".to_string(),
        public_id: String::new(),
        relation_id: None,
        posts: Some(posts),
    }
}

#[test]
fn container_names_the_package() {
    assert_eq!(
        container_document(),
        format!(
            r#"{}<container version="1.0" xmlns="urn:oasis:names:tc:opendocument:xmlns:container"><rootfiles><rootfile full-path="OEBPS/content.opf" media-type="application/oebps-package+xml"/></rootfiles></container>"#,
            DECL
        )
    );
}

#[test]
fn chapter_page_of_a_post() {
    let p = post("9", "T", "a<br>b</p><hr><img><link>");
    assert_eq!(
        chapter_document(&p),
        format!(
            "{}{}<html xmlns=\"http://www.w3.org/1999/xhtml\"><head><title>T</title><link href=\"../Styles/stylesheet.css\" type=\"text/css\" rel=\"stylesheet\"/></head><body><h1>T</h1><div class=\"chapter-inner chapter-content\">a<br/>b</p>\n<hr/><img/><link/></div></body></html>",
            DECL, DOCTYPE
        )
    );
}

#[test]
fn empty_post_gives_self_closing_elements() {
    let p = post("9", "", "");
    let page = chapter_document(&p);
    assert!(page.contains("<head><title/><link "));
    assert!(page.contains("<body><h1/><div class=\"chapter-inner chapter-content\"/></body>"));
}

#[test]
fn toc_lists_oldest_post_first() {
    let c = creator(vec![post("2", "P2", ""), post("1", "P1", "")]);
    assert_eq!(
        toc_document(&c),
        format!(
            r#"{}<ncx xmlns="http://www.daisy.org/z3986/2005/ncx/" version="2005-1" xml:lang="en"><head><meta content="https://kemono.su/patreon/user/1" name="dtb:uid"/><meta content="2" name="dtb:depth"/><meta content="0" name="dtb:totalPageCount"/><meta content="0" name="dtb:maxPageNumber"/></head><docTitle><text>Al</text></docTitle><navMap><navPoint id="body1" playOrder="1"><navLabel><text>P1</text></navLabel><content src="Text/Chapter_1.xhtml"/></navPoint><navPoint id="body2" playOrder="2"><navLabel><text>P2</text></navLabel><content src="Text/Chapter_2.xhtml"/></navPoint></navMap></ncx>"#,
            DECL
        )
    );
}

#[test]
fn toc_without_posts_has_empty_nav_map() {
    let c = creator(vec![]);
    assert!(toc_document(&c).ends_with("</docTitle><navMap/></ncx>"));
}

#[test]
fn file_names_of_addresses() {
    assert_eq!(file_name("https://a.b/c:d.png"), "https-__a.b_c-d.png");
    let c = creator(vec![]);
    assert_eq!(icon_url_of(&c), "https://img.kemono.su/icons/patreon/1");
}

#[test]
fn cover_page_shows_the_icon() {
    let c = creator(vec![post("1", "P1", "")]);
    assert_eq!(
        cover_document(&c),
        format!(
            "{}\n{}<html xmlns=\"http://www.w3.org/1999/xhtml\"><head><link href=\"../Styles/stylesheet.css\" type=\"text/css\" rel=\"stylesheet\"/><title>Cover</title></head><body><div class=\"svg_outer svg_inner\"><svg xmlns=\"http://www.w3.org/2000/svg\" xmlns:xlink=\"http://www.w3.org/1999/xlink\" height=\"99%\" width=\"100%\" version=\"1.1\" preserveAspectRatio=\"xMidYMid meet\" viewBox=\"0 0 400 600\"><image xlink:href=\"../../Images/https-__img.kemono.su_icons_patreon_1\" width=\"400\" height=\"600\"/><desc>https://www.royalroadcdn.com/public/covers-large/46868-reincarnated-into-a-time-loop-dungeon-as.jpg?time=1705791928</desc></svg></div></body></html>",
            DECL, DOCTYPE
        )
    );
}

#[test]
fn package_document_of_one_post() {
    let mut p = post("55", "Only", "");
    p.opf_extras = Some(vec!["http://x/a.jpg".to_string()]);
    let c = creator(vec![p]);
    let expected = [
        DECL,
        r#"<package xmlns="http://www.idpf.org/2007/opf" version="2.0" unique-identifier="BookId">"#,
        r#"<metadata xmlns:dc="http://purl.org/dc/elements/1.1/" xmlns:opf="http://www.idpf.org/2007/opf">"#,
        r#"<dc:title>Al — Only</dc:title><dc:language>en</dc:language><dc:date>2024-05-06</dc:date><dc:creator>Al</dc:creator>"#,
        r#"<dc:identifier id="BookId" opf:scheme="URI">https://kemono.su/patreon/user/1</dc:identifier>"#,
        r#"<dc:contributor opf:role="bkp">[https://github.com/TinyCatBag/Kemono_to_EPUB] (ver. 1.0.1.0)</dc:contributor>"#,
        r#"<meta content="cover-image" name="cover"/>"#,
        r#"<dc:source id="id.cover-image">https://img.kemono.su/icons/patreon/1</dc:source>"#,
        r#"<dc:source id="id.xhtml1">https://kemono.su/patreon/user/1/post/55</dc:source>"#,
        r#"<dc:source id="id.image0">http://x/a.jpg</dc:source></metadata>"#,
        r#"<manifest><item href="../Images/https-__img.kemono.su_icons_patreon_1" id="cover-image" media-type="image/webp"/>"#,
        r#"<item href="Styles/stylesheet.css" id="stylesheet" media-type="text/css"/>"#,
        r#"<item href="toc.ncx" id="ncx" media-type="application/x-dtbncx+xml"/>"#,
        r#"<item href="Text/Cover.xhtml" id="cover" media-type="application/xhtml+xml"/>"#,
        r#"<item href="Text/Chapter_1.xhtml" id="xhtml1" media-type="application/xhtml+xml"/>"#,
        r#"<item href="../Images/http-__x_a.jpg" id="image0" media-type="image/jpeg"/></manifest>"#,
        r#"<spine toc="ncx"><itemref idref="cover"/><itemref idref="xhtml1"/></spine>"#,
        r#"<guide><reference href="Text/Cover.xhtml" title="Cover" type="Cover"/></guide></package>"#,
    ]
    .concat();
    assert_eq!(content_document(&c, &Title::NameFirstPostName), expected);
}

#[test]
fn package_document_follows_list_order() {
    let c = creator(vec![post("b", "New", ""), post("a", "Old", "")]);
    let doc = content_document(&c, &Title::CreatorName);
    let first = doc.find("id.xhtml1\">https://kemono.su/patreon/user/1/post/b<").unwrap();
    let second = doc.find("id.xhtml2\">https://kemono.su/patreon/user/1/post/a<").unwrap();
    assert!(first < second);
    assert!(doc.contains("<itemref idref=\"cover\"/><itemref idref=\"xhtml1\"/><itemref idref=\"xhtml2\"/></spine>"));
}

fn describe(a: &ArchiveAction) -> String {
    match a {
        ArchiveAction::AddDirectory(p) => format!("dir {}", p),
        ArchiveAction::AddDirectoryFromPath(p) => format!("path {}", p),
        ArchiveAction::WriteFile(p, _) => format!("file {}", p),
        ArchiveAction::WriteStylesheet(p) => format!("css {}", p),
        ArchiveAction::DownloadImage(u, p) => format!("get {} {}", u, p),
        ArchiveAction::Fail => "fail".to_string(),
    }
}

#[test]
fn archive_steps_in_order() {
    let newest = post("2", "Second", r#"<p>x</p><img src="http://i/2.png">"#);
    let oldest = post("1", "First", "plain");
    let mut request = EpubRequest { creator: creator(vec![newest, oldest]), title: Title::CreatorName };
    let plan = request.archive_plan();
    assert_eq!(plan.file_name, "Al.epub");
    let steps: Vec<String> = plan.actions.iter().map(describe).collect();
    assert_eq!(
        steps,
        vec![
            "file mimetype",
            "dir META-INF",
            "path OEBPS/Styles",
            "path OEBPS/Text",
            "file META-INF/container.xml",
            "css OEBPS/Styles/stylesheet.css",
            "file OEBPS/Text/Chapter_1.xhtml",
            "get http://i/2.png Images/http-__i_2.png",
            "file OEBPS/Text/Chapter_2.xhtml",
            "file OEBPS/toc.ncx",
            "get https://img.kemono.su/icons/patreon/1 Images/https-__img.kemono.su_icons_patreon_1",
            "file OEBPS/Text/Cover.xhtml",
            "file OEBPS/content.opf",
        ]
    );
    match &plan.actions[0] {
        ArchiveAction::WriteFile(_, text) => assert_eq!(text, "application/epub+zip"),
        _ => panic!("mimetype must come first"),
    }
    match &plan.actions[8] {
        ArchiveAction::WriteFile(_, text) => {
            assert!(text.contains(r#"<img src="/Images/http-__i_2.png" alt="" />"#))
        }
        _ => panic!("chapter expected"),
    }
    match &plan.actions[12] {
        ArchiveAction::WriteFile(_, text) => {
            assert!(text.contains(r#"<dc:source id="id.image0">http://i/2.png</dc:source>"#))
        }
        _ => panic!("package expected"),
    }
    let posts = request.creator.posts.as_ref().unwrap();
    assert_eq!(posts[0].opf_extras, Some(vec!["http://i/2.png".to_string()]));
    assert_eq!(posts[1].content, "plain");
}

#[test]
fn archive_stops_at_a_broken_image() {
    let broken = post("2", "Second", r#"<img alt="no address">"#);
    let oldest = post("1", "First", "plain");
    let mut request = EpubRequest {
        creator: creator(vec![broken, oldest]),
        title: Title::Custom(("Book.epub".to_string(), true)),
    };
    let plan = request.archive_plan();
    assert_eq!(plan.file_name, "Book.epub");
    let steps: Vec<String> = plan.actions.iter().map(describe).collect();
    assert_eq!(steps.len(), 8);
    assert_eq!(steps[6], "file OEBPS/Text/Chapter_1.xhtml");
    assert_eq!(steps[7], "fail");
}

#[test]
fn law_toc_entry_and_chapter_page_share_a_post() {
    let mut request = EpubRequest {
        creator: creator(vec![post("3", "Third", ""), post("2", "Second", ""), post("1", "First", "")]),
        title: Title::CreatorName,
    };
    let plan = request.archive_plan();
    let text_of = |path: &str| -> String {
        plan.actions
            .iter()
            .find_map(|a| match a {
                ArchiveAction::WriteFile(p, t) if p == path => Some(t.clone()),
                _ => None,
            })
            .unwrap()
    };
    let toc = text_of("OEBPS/toc.ncx");
    for (k, title) in [(1, "First"), (2, "Second"), (3, "Third")] {
        let page = text_of(&format!("OEBPS/Text/Chapter_{}.xhtml", k));
        assert!(page.contains(&format!("<h1>{}</h1>", title)));
        assert!(toc.contains(&format!(
            "<navLabel><text>{}</text></navLabel><content src=\"Text/Chapter_{}.xhtml\"/>",
            title, k
        )));
    }
}

#[test]
fn package_sources_follow_list_order_not_chapter_order() {
    let c = creator(vec![post("new", "New", ""), post("old", "Old", "")]);
    let doc = content_document(&c, &Title::CreatorName);
    assert!(doc.contains("<dc:source id=\"id.xhtml1\">https://kemono.su/patreon/user/1/post/new</dc:source>"));
}
