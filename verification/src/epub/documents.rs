//! The XML documents of the book: the container, one chapter per post, the
//! table of contents, the cover page and the package (content.opf).

use vstd::prelude::*;
use crate::text::{replace_all, decimal, replace_str, decimal_string, owned, concat2, contains,
    lemma_replace_all_absent, lemma_contains_self, lemma_contains_after, lemma_contains_before,
    lemma_contains_within};
use crate::epub::{Creator, Post, Title, has_posts, posts_of, book_title, match_title};
use crate::epub::simple_xml_builder::{XMLElement, xml_declaration, element_text, leaf_text,
    render_all, lemma_render_all_push, lemma_render_all_empty, lemma_element_contains};

verus! {

pub open spec fn no_attrs() -> Seq<(Seq<char>, Seq<char>)> {
    Seq::empty()
}

pub open spec fn nothing() -> Seq<char> {
    Seq::empty()
}

/// The document type of the XHTML pages.
pub open spec fn doctype() -> Seq<char> {
    "<!DOCTYPE html PUBLIC \"-//W3C//DTD XHTML 1.1//EN\" \"http://www.w3.org/TR/xhtml11/DTD/xhtml11.dtd\">"@
}

/// The name under which a downloaded file is stored: its address with `/`
/// turned into `_` and `:` into `-`.
pub open spec fn file_name_of(url: Seq<char>) -> Seq<char> {
    replace_all(replace_all(url, "/"@, "_"@), ":"@, "-"@)
}

/// The address of the creator's icon.
pub open spec fn icon_url(creator: Creator) -> Seq<char> {
    "https://img.kemono.su/icons/"@ + creator.service@ + "/"@ + creator.id@
}

/// The address of the creator's page.
pub open spec fn creator_page(creator: Creator) -> Seq<char> {
    "https://kemono.su/"@ + creator.service@ + "/user/"@ + creator.id@
}

/// The file of chapter `number`.
pub open spec fn chapter_file(number: nat) -> Seq<char> {
    "Text/Chapter_"@ + decimal(number) + ".xhtml"@
}

// ---------------------------------------------------------------------------
// container.xml
// ---------------------------------------------------------------------------

pub open spec fn rootfile_text() -> Seq<char> {
    leaf_text(
        "rootfile"@,
        seq![
            ("full-path"@, "OEBPS/content.opf"@),
            ("media-type"@, "application/oebps-package+xml"@),
        ],
        nothing(),
    )
}

/// META-INF/container.xml: where the package document is.
#[verifier::opaque]
pub open spec fn container_text() -> Seq<char> {
    xml_declaration() + element_text(
        "container"@,
        seq![("version"@, "1.0"@), ("xmlns"@, "urn:oasis:names:tc:opendocument:xmlns:container"@)],
        nothing(),
        element_text("rootfiles"@, no_attrs(), nothing(), rootfile_text()),
    )
}

/// The text of META-INF/container.xml.
pub fn container_document() -> (s: String)
    ensures
        s@ == container_text(),
{
    reveal(container_text);
    let mut container = XMLElement::new("container");
    container.add_attribute("version", "1.0");
    container.add_attribute("xmlns", "urn:oasis:names:tc:opendocument:xmlns:container");

    let mut rootfile = XMLElement::new("rootfile");
    rootfile.add_attribute("full-path", "OEBPS/content.opf");
    rootfile.add_attribute("media-type", "application/oebps-package+xml");
    proof {
        rootfile.lemma_render();
        lemma_render_all_empty();
        assert(rootfile.attributes_of() =~= seq![
            ("full-path"@, "OEBPS/content.opf"@),
            ("media-type"@, "application/oebps-package+xml"@),
        ]);
    }
    let ghost rootfile_v = rootfile;

    let mut rootfiles = XMLElement::new("rootfiles");
    rootfiles.add_child(rootfile);
    proof {
        rootfiles.lemma_render();
        lemma_render_all_push(Seq::empty(), rootfile_v);
        assert(rootfiles.children_of() =~= Seq::empty().push(rootfile_v));
    }
    let ghost rootfiles_v = rootfiles;

    container.add_child(rootfiles);
    proof {
        container.lemma_render();
        lemma_render_all_push(Seq::empty(), rootfiles_v);
        assert(container.children_of() =~= Seq::empty().push(rootfiles_v));
        assert(container.attributes_of() =~= seq![
            ("version"@, "1.0"@),
            ("xmlns"@, "urn:oasis:names:tc:opendocument:xmlns:container"@),
        ]);
    }
    container.to_string()
}

// ---------------------------------------------------------------------------
// Chapters
// ---------------------------------------------------------------------------

/// A post's content made fit for XHTML: void tags closed, a line break after
/// each paragraph.
pub open spec fn chapter_body(content: Seq<char>) -> Seq<char> {
    let a = replace_all(content, "<br>"@, "<br/>"@);
    let b = replace_all(a, "<hr>"@, "<hr/>"@);
    let c = replace_all(b, "<img>"@, "<img/>"@);
    let d = replace_all(c, "<link>"@, "<link/>"@);
    let e = replace_all(d, "</p>"@, "</p>\n"@);
    replace_all(e, "<br>"@, "<br>\n"@)
}

pub open spec fn stylesheet_link_text() -> Seq<char> {
    leaf_text(
        "link"@,
        seq![
            ("href"@, "../Styles/stylesheet.css"@),
            ("type"@, "text/css"@),
            ("rel"@, "stylesheet"@),
        ],
        nothing(),
    )
}

/// The XHTML page of a post: its title as heading, then its content.
#[verifier::opaque]
pub open spec fn chapter_text(post: Post) -> Seq<char> {
    xml_declaration() + doctype() + element_text(
        "html"@,
        seq![("xmlns"@, "http://www.w3.org/1999/xhtml"@)],
        nothing(),
        element_text(
            "head"@,
            no_attrs(),
            nothing(),
            leaf_text("title"@, no_attrs(), post.title@) + stylesheet_link_text(),
        ) + element_text(
            "body"@,
            no_attrs(),
            nothing(),
            leaf_text("h1"@, no_attrs(), post.title@) + leaf_text(
                "div"@,
                seq![("class"@, "chapter-inner chapter-content"@)],
                chapter_body(post.content@),
            ),
        ),
    )
}

/// A post's content that holds none of `<br>`, `<hr>`, `<img>`, `<link>` and
/// `</p>` is copied into its chapter page unchanged (an already closed `<br/>`
/// stays as it is), as the text of the page's `div`.
pub proof fn law_chapter_keeps_plain_content(post: Post)
    requires
        !contains(post.content@, "<br>"@),
        !contains(post.content@, "<hr>"@),
        !contains(post.content@, "<img>"@),
        !contains(post.content@, "<link>"@),
        !contains(post.content@, "</p>"@),
    ensures
        contains(
            chapter_text(post),
            leaf_text(
                "div"@,
                seq![("class"@, "chapter-inner chapter-content"@)],
                post.content@,
            ),
        ),
{
    let c = post.content@;
    lemma_replace_all_absent(c, "<br>"@, "<br/>"@);
    lemma_replace_all_absent(c, "<hr>"@, "<hr/>"@);
    lemma_replace_all_absent(c, "<img>"@, "<img/>"@);
    lemma_replace_all_absent(c, "<link>"@, "<link/>"@);
    lemma_replace_all_absent(c, "</p>"@, "</p>\n"@);
    lemma_replace_all_absent(c, "<br>"@, "<br>\n"@);
    assert(chapter_body(c) == c);
    reveal(chapter_text);
    let div = leaf_text("div"@, seq![("class"@, "chapter-inner chapter-content"@)], c);
    assert(div.len() > 0);
    lemma_contains_self(div);
    let h1 = leaf_text("h1"@, no_attrs(), post.title@);
    lemma_contains_after(h1, div, div);
    lemma_element_contains("body"@, no_attrs(), nothing(), h1 + div, div);
    let head = element_text(
        "head"@,
        no_attrs(),
        nothing(),
        leaf_text("title"@, no_attrs(), post.title@) + stylesheet_link_text(),
    );
    let body = element_text("body"@, no_attrs(), nothing(), h1 + div);
    lemma_contains_after(head, body, div);
    lemma_element_contains(
        "html"@,
        seq![("xmlns"@, "http://www.w3.org/1999/xhtml"@)],
        nothing(),
        head + body,
        div,
    );
    lemma_contains_after(
        xml_declaration() + doctype(),
        element_text(
            "html"@,
            seq![("xmlns"@, "http://www.w3.org/1999/xhtml"@)],
            nothing(),
            head + body,
        ),
        div,
    );
}

fn chapter_body_of(content: &str) -> (s: String)
    ensures
        s@ == chapter_body(content@),
{
    proof {
        reveal_strlit("<br>");
        reveal_strlit("<hr>");
        reveal_strlit("<img>");
        reveal_strlit("<link>");
        reveal_strlit("</p>");
    }
    let a = replace_str(content, "<br>", "<br/>");
    let b = replace_str(a.as_str(), "<hr>", "<hr/>");
    let c = replace_str(b.as_str(), "<img>", "<img/>");
    let d = replace_str(c.as_str(), "<link>", "<link/>");
    let e = replace_str(d.as_str(), "</p>", "</p>\n");
    replace_str(e.as_str(), "<br>", "<br>\n")
}

fn stylesheet_link() -> (link: XMLElement)
    ensures
        link.render() == stylesheet_link_text(),
{
    let mut link = XMLElement::new("link");
    link.add_attribute("href", "../Styles/stylesheet.css");
    link.add_attribute("type", "text/css");
    link.add_attribute("rel", "stylesheet");
    proof {
        link.lemma_render();
        lemma_render_all_empty();
        assert(link.attributes_of() =~= seq![
            ("href"@, "../Styles/stylesheet.css"@),
            ("type"@, "text/css"@),
            ("rel"@, "stylesheet"@),
        ]);
    }
    link
}

/// The XHTML page of a post.
pub fn chapter_document(post: &Post) -> (s: String)
    ensures
        s@ == chapter_text(*post),
{
    reveal(chapter_text);
    let mut html = XMLElement::new("html");
    html.add_special(
        "<!DOCTYPE html PUBLIC \"-//W3C//DTD XHTML 1.1//EN\" \"http://www.w3.org/TR/xhtml11/DTD/xhtml11.dtd\">",
    );
    html.add_attribute("xmlns", "http://www.w3.org/1999/xhtml");
    let mut head = XMLElement::new("head");
    let mut title = XMLElement::new("title");
    title.add_text(post.title.as_str());
    let link = stylesheet_link();
    proof {
        title.lemma_render();
        lemma_render_all_empty();
    }
    let ghost title_v = title;
    let ghost link_v = link;
    head.add_child(title);
    head.add_child(link);
    proof {
        head.lemma_render();
        lemma_render_all_push(Seq::empty(), title_v);
        lemma_render_all_push(Seq::empty().push(title_v), link_v);
    }
    let ghost head_v = head;
    html.add_child(head);

    let mut body = XMLElement::new("body");
    let mut h1 = XMLElement::new("h1");
    h1.add_text(post.title.as_str());
    let mut div = XMLElement::new("div");
    div.add_attribute("class", "chapter-inner chapter-content");
    let text = chapter_body_of(post.content.as_str());
    div.add_text(text.as_str());
    proof {
        h1.lemma_render();
        div.lemma_render();
        assert(div.attributes_of() =~= seq![("class"@, "chapter-inner chapter-content"@)]);
    }
    let ghost h1_v = h1;
    let ghost div_v = div;
    body.add_child(h1);
    body.add_child(div);
    proof {
        body.lemma_render();
        lemma_render_all_push(Seq::empty(), h1_v);
        lemma_render_all_push(Seq::empty().push(h1_v), div_v);
    }
    let ghost body_v = body;
    html.add_child(body);
    proof {
        html.lemma_render();
        lemma_render_all_push(Seq::empty(), head_v);
        lemma_render_all_push(Seq::empty().push(head_v), body_v);
        assert(html.attributes_of() =~= seq![("xmlns"@, "http://www.w3.org/1999/xhtml"@)]);
        assert(html.render() == element_text(
            "html"@,
            seq![("xmlns"@, "http://www.w3.org/1999/xhtml"@)],
            nothing(),
            head_v.render() + body_v.render(),
        ));
    }
    html.to_string()
}

// ---------------------------------------------------------------------------
// toc.ncx
// ---------------------------------------------------------------------------

pub open spec fn meta_text(content: Seq<char>, name: Seq<char>) -> Seq<char> {
    leaf_text("meta"@, seq![("content"@, content), ("name"@, name)], nothing())
}

/// The table-of-contents entry of chapter `x + 1`, which holds the post
/// `x` places from the end of the list (the oldest post comes first).
pub open spec fn nav_point_text(creator: Creator, x: int) -> Seq<char> {
    let n = posts_of(creator).len();
    element_text(
        "navPoint"@,
        seq![("id"@, "body"@ + decimal((x + 1) as nat)), ("playOrder"@, decimal((x + 1) as nat))],
        nothing(),
        element_text(
            "navLabel"@,
            no_attrs(),
            nothing(),
            leaf_text("text"@, no_attrs(), posts_of(creator)[n - x - 1].title@),
        ) + leaf_text("content"@, seq![("src"@, chapter_file((x + 1) as nat))], nothing()),
    )
}

/// The entries of the first `k` chapters.
pub open spec fn nav_points_text(creator: Creator, k: nat) -> Seq<char>
    decreases k,
{
    if k == 0 {
        nothing()
    } else {
        nav_points_text(creator, (k - 1) as nat) + nav_point_text(creator, k - 1)
    }
}

/// OEBPS/toc.ncx: the table of contents, one entry per chapter.
#[verifier::opaque]
pub open spec fn toc_text(creator: Creator) -> Seq<char> {
    xml_declaration() + element_text(
        "ncx"@,
        seq![
            ("xmlns"@, "http://www.daisy.org/z3986/2005/ncx/"@),
            ("version"@, "2005-1"@),
            ("xml:lang"@, "en"@),
        ],
        nothing(),
        element_text(
            "head"@,
            no_attrs(),
            nothing(),
            meta_text(creator_page(creator), "dtb:uid"@) + meta_text("2"@, "dtb:depth"@)
                + meta_text("0"@, "dtb:totalPageCount"@) + meta_text("0"@, "dtb:maxPageNumber"@),
        ) + element_text(
            "docTitle"@,
            no_attrs(),
            nothing(),
            leaf_text("text"@, no_attrs(), creator.name@),
        ) + element_text(
            "navMap"@,
            no_attrs(),
            nothing(),
            nav_points_text(creator, posts_of(creator).len()),
        ),
    )
}

fn meta_element(content: &str, name: &str) -> (meta: XMLElement)
    ensures
        meta.render() == meta_text(content@, name@),
{
    let mut meta = XMLElement::new("meta");
    meta.add_attribute("content", content);
    meta.add_attribute("name", name);
    proof {
        meta.lemma_render();
        lemma_render_all_empty();
        assert(meta.attributes_of() =~= seq![("content"@, content@), ("name"@, name@)]);
    }
    meta
}

fn creator_page_of(creator: &Creator) -> (s: String)
    ensures
        s@ == creator_page(*creator),
{
    let mut s = owned("https://kemono.su/");
    s.append(creator.service.as_str());
    s.append("/user/");
    s.append(creator.id.as_str());
    s
}

pub(crate) fn chapter_file_of(number: usize) -> (s: String)
    ensures
        s@ == chapter_file(number as nat),
{
    let mut s = owned("Text/Chapter_");
    let n = decimal_string(number);
    s.append(n.as_str());
    s.append(".xhtml");
    s
}

/// Adds the children `a`, `b`, ... one after the other to an element with no children.
proof fn lemma_two_children(a: XMLElement, b: XMLElement)
    ensures
        render_all(Seq::empty().push(a).push(b)) == a.render() + b.render(),
{
    lemma_render_all_empty();
    lemma_render_all_push(Seq::empty(), a);
    lemma_render_all_push(Seq::empty().push(a), b);
}

fn nav_point(creator: &Creator, x: usize) -> (point: XMLElement)
    requires
        creator.posts is Some,
        x < posts_of(*creator).len(),
    ensures
        point.render() == nav_point_text(*creator, x as int),
{
    let posts = creator.posts.as_ref().unwrap();
    let reverse = posts.len() - x - 1;
    let number = decimal_string(x + 1);

    let mut navpoint = XMLElement::new("navPoint");
    let id = concat2("body", number.as_str());
    navpoint.add_attribute("id", id.as_str());
    navpoint.add_attribute("playOrder", number.as_str());

    let mut navlabel = XMLElement::new("navLabel");
    let mut text = XMLElement::new("text");
    text.add_text(posts[reverse].title.as_str());

    let mut content = XMLElement::new("content");
    let src = chapter_file_of(x + 1);
    content.add_attribute("src", src.as_str());
    proof {
        lemma_render_all_empty();
        text.lemma_render();
        content.lemma_render();
        assert(content.attributes_of() =~= seq![("src"@, chapter_file((x + 1) as nat))]);
        lemma_render_all_push(Seq::empty(), text);
    }
    let ghost text_v = text;
    let ghost content_v = content;
    navlabel.add_child(text);
    proof {
        navlabel.lemma_render();
    }
    let ghost navlabel_v = navlabel;
    navpoint.add_child(navlabel);
    navpoint.add_child(content);
    proof {
        navpoint.lemma_render();
        lemma_two_children(navlabel_v, content_v);
        assert(navpoint.attributes_of() =~= seq![
            ("id"@, "body"@ + decimal((x + 1) as nat)),
            ("playOrder"@, decimal((x + 1) as nat)),
        ]);
    }
    navpoint
}

/// The text of OEBPS/toc.ncx.
pub fn toc_document(creator: &Creator) -> (s: String)
    requires
        creator.posts is Some,
    ensures
        s@ == toc_text(*creator),
{
    reveal(toc_text);
    let mut ncx = XMLElement::new("ncx");
    ncx.add_attribute("xmlns", "http://www.daisy.org/z3986/2005/ncx/");
    ncx.add_attribute("version", "2005-1");
    ncx.add_attribute("xml:lang", "en");

    let mut head = XMLElement::new("head");
    let uid = creator_page_of(creator);
    let meta_one = meta_element(uid.as_str(), "dtb:uid");
    let meta_two = meta_element("2", "dtb:depth");
    let meta_three = meta_element("0", "dtb:totalPageCount");
    let meta_four = meta_element("0", "dtb:maxPageNumber");

    let mut doctitle = XMLElement::new("docTitle");
    let mut text = XMLElement::new("text");
    text.add_text(creator.name.as_str());
    let mut navmap = XMLElement::new("navMap");

    let ghost m1 = meta_one;
    let ghost m2 = meta_two;
    let ghost m3 = meta_three;
    let ghost m4 = meta_four;
    head.add_child(meta_one);
    head.add_child(meta_two);
    head.add_child(meta_three);
    head.add_child(meta_four);
    proof {
        head.lemma_render();
        lemma_two_children(m1, m2);
        lemma_render_all_push(Seq::empty().push(m1).push(m2), m3);
        lemma_render_all_push(Seq::empty().push(m1).push(m2).push(m3), m4);
    }
    let ghost head_v = head;
    ncx.add_child(head);
    proof {
        text.lemma_render();
        lemma_render_all_empty();
        lemma_render_all_push(Seq::empty(), text);
    }
    let ghost text_v = text;
    doctitle.add_child(text);
    proof {
        doctitle.lemma_render();
    }
    let ghost doctitle_v = doctitle;
    ncx.add_child(doctitle);

    let posts = creator.posts.as_ref().unwrap();
    let mut x: usize = 0;
    while x < posts.len()
        invariant
            x <= posts@.len(),
            posts@ == posts_of(*creator),
            creator.posts is Some,
            navmap.title_of() == "navMap"@,
            navmap.attributes_of() == no_attrs(),
            navmap.text_of() == nothing(),
            render_all(navmap.children_of()) == nav_points_text(*creator, x as nat),
        decreases posts@.len() - x,
    {
        let point = nav_point(creator, x);
        proof {
            lemma_render_all_push(navmap.children_of(), point);
        }
        navmap.add_child(point);
        x += 1;
    }
    proof {
        navmap.lemma_render();
    }
    let ghost navmap_v = navmap;
    ncx.add_child(navmap);
    proof {
        ncx.lemma_render();
        lemma_two_children(head_v, doctitle_v);
        lemma_render_all_push(Seq::empty().push(head_v).push(doctitle_v), navmap_v);
        assert(ncx.attributes_of() =~= seq![
            ("xmlns"@, "http://www.daisy.org/z3986/2005/ncx/"@),
            ("version"@, "2005-1"@),
            ("xml:lang"@, "en"@),
        ]);
    }
    ncx.to_string()
}

// ---------------------------------------------------------------------------
// Cover.xhtml
// ---------------------------------------------------------------------------

/// The cover page's image element: the creator's icon, stored in `Images/`.
pub open spec fn cover_image_text(creator: Creator) -> Seq<char> {
    leaf_text(
        "image"@,
        seq![
            ("xlink:href"@, "../../Images/"@ + file_name_of(icon_url(creator))),
            ("width"@, "400"@),
            ("height"@, "600"@),
        ],
        nothing(),
    )
}

pub open spec fn cover_desc() -> Seq<char> {
    "https://www.royalroadcdn.com/public/covers-large/46868-reincarnated-into-a-time-loop-dungeon-as.jpg?time=1705791928"@
}

pub open spec fn svg_attrs() -> Seq<(Seq<char>, Seq<char>)> {
    seq![
        ("xmlns"@, "http://www.w3.org/2000/svg"@),
        ("xmlns:xlink"@, "http://www.w3.org/1999/xlink"@),
        ("height"@, "99%"@),
        ("width"@, "100%"@),
        ("version"@, "1.1"@),
        ("preserveAspectRatio"@, "xMidYMid meet"@),
        ("viewBox"@, "0 0 400 600"@),
    ]
}

/// The cover page's `html` element.
pub open spec fn cover_html_text(creator: Creator) -> Seq<char> {
    element_text(
        "html"@,
        seq![("xmlns"@, "http://www.w3.org/1999/xhtml"@)],
        nothing(),
        element_text(
            "head"@,
            no_attrs(),
            nothing(),
            stylesheet_link_text() + leaf_text("title"@, no_attrs(), "Cover"@),
        ) + element_text(
            "body"@,
            no_attrs(),
            nothing(),
            element_text(
                "div"@,
                seq![("class"@, "svg_outer svg_inner"@)],
                nothing(),
                element_text(
                    "svg"@,
                    svg_attrs(),
                    nothing(),
                    cover_image_text(creator) + leaf_text("desc"@, no_attrs(), cover_desc()),
                ),
            ),
        ),
    )
}

/// OEBPS/Text/Cover.xhtml: the creator's icon as the cover, with the
/// document type added after every XML declaration.
#[verifier::opaque]
pub open spec fn cover_text(creator: Creator) -> Seq<char> {
    replace_all(
        xml_declaration() + cover_html_text(creator),
        xml_declaration(),
        xml_declaration() + "\n"@ + doctype(),
    )
}

/// The address of the creator's icon.
pub fn icon_url_of(creator: &Creator) -> (s: String)
    ensures
        s@ == icon_url(*creator),
{
    let mut s = owned("https://img.kemono.su/icons/");
    s.append(creator.service.as_str());
    s.append("/");
    s.append(creator.id.as_str());
    s
}

/// The name under which a downloaded file is stored.
pub fn file_name(url: &str) -> (s: String)
    ensures
        s@ == file_name_of(url@),
{
    proof {
        reveal_strlit("/");
        reveal_strlit(":");
    }
    let a = replace_str(url, "/", "_");
    replace_str(a.as_str(), ":", "-")
}

fn cover_html(creator: &Creator) -> (html: XMLElement)
    ensures
        html.render() == cover_html_text(*creator),
        html.special_of() == nothing(),
{
    let mut html = XMLElement::new("html");
    html.add_attribute("xmlns", "http://www.w3.org/1999/xhtml");

    let mut head = XMLElement::new("head");
    let mut title = XMLElement::new("title");
    title.add_text("Cover");
    let link = stylesheet_link();
    proof {
        title.lemma_render();
        lemma_render_all_empty();
    }
    let ghost title_v = title;
    let ghost link_v = link;
    head.add_child(link);
    head.add_child(title);
    proof {
        head.lemma_render();
        lemma_two_children(link_v, title_v);
    }
    let ghost head_v = head;
    html.add_child(head);

    let mut body = XMLElement::new("body");
    let mut div = XMLElement::new("div");
    div.add_attribute("class", "svg_outer svg_inner");

    let mut svg = XMLElement::new("svg");
    svg.add_attribute("xmlns", "http://www.w3.org/2000/svg");
    svg.add_attribute("xmlns:xlink", "http://www.w3.org/1999/xlink");
    svg.add_attribute("height", "99%");
    svg.add_attribute("width", "100%");
    svg.add_attribute("version", "1.1");
    svg.add_attribute("preserveAspectRatio", "xMidYMid meet");
    svg.add_attribute("viewBox", "0 0 400 600");

    let mut image = XMLElement::new("image");
    let icon = icon_url_of(creator);
    let name = file_name(icon.as_str());
    let href = concat2("../../Images/", name.as_str());
    image.add_attribute("xlink:href", href.as_str());
    image.add_attribute("width", "400");
    image.add_attribute("height", "600");

    let mut desc = XMLElement::new("desc");
    desc.add_text(
        "https://www.royalroadcdn.com/public/covers-large/46868-reincarnated-into-a-time-loop-dungeon-as.jpg?time=1705791928",
    );
    proof {
        image.lemma_render();
        desc.lemma_render();
        assert(image.attributes_of() =~= seq![
            ("xlink:href"@, "../../Images/"@ + file_name_of(icon_url(*creator))),
            ("width"@, "400"@),
            ("height"@, "600"@),
        ]);
    }
    let ghost image_v = image;
    let ghost desc_v = desc;
    svg.add_child(image);
    svg.add_child(desc);
    proof {
        svg.lemma_render();
        lemma_two_children(image_v, desc_v);
        assert(svg.attributes_of() =~= svg_attrs());
    }
    let ghost svg_v = svg;
    div.add_child(svg);
    proof {
        div.lemma_render();
        lemma_render_all_push(Seq::empty(), svg_v);
        assert(div.attributes_of() =~= seq![("class"@, "svg_outer svg_inner"@)]);
    }
    let ghost div_v = div;
    body.add_child(div);
    proof {
        body.lemma_render();
        lemma_render_all_push(Seq::empty(), div_v);
    }
    let ghost body_v = body;
    html.add_child(body);
    proof {
        html.lemma_render();
        lemma_two_children(head_v, body_v);
        assert(html.attributes_of() =~= seq![("xmlns"@, "http://www.w3.org/1999/xhtml"@)]);
    }
    html
}

/// The text of OEBPS/Text/Cover.xhtml.
pub fn cover_document(creator: &Creator) -> (s: String)
    ensures
        s@ == cover_text(*creator),
{
    reveal(cover_text);
    let html = cover_html(creator);
    let page = html.to_string();
    let with_doctype = concat2(
        "<?xml version = \"1.0\" encoding = \"UTF-8\"?>\n",
        "<!DOCTYPE html PUBLIC \"-//W3C//DTD XHTML 1.1//EN\" \"http://www.w3.org/TR/xhtml11/DTD/xhtml11.dtd\">",
    );
    proof {
        reveal_strlit("<?xml version = \"1.0\" encoding = \"UTF-8\"?>");
        reveal_strlit("<?xml version = \"1.0\" encoding = \"UTF-8\"?>\n");
        reveal_strlit("\n");
        assert("<?xml version = \"1.0\" encoding = \"UTF-8\"?>\n"@ =~= xml_declaration() + "\n"@);
    }
    replace_str(page.as_str(), "<?xml version = \"1.0\" encoding = \"UTF-8\"?>", with_doctype.as_str())
}

// ---------------------------------------------------------------------------
// content.opf
// ---------------------------------------------------------------------------

/// The extra files of a post (the images of its content), none when unset.
pub open spec fn extras_of(post: Post) -> Seq<Seq<char>> {
    match post.opf_extras {
        Some(v) => v@.map_values(|s: String| s@),
        None => Seq::empty(),
    }
}

pub open spec fn source_text(id: Seq<char>, text: Seq<char>) -> Seq<char> {
    leaf_text("dc:source"@, seq![("id"@, id)], text)
}

pub open spec fn item_text(href: Seq<char>, id: Seq<char>, media_type: Seq<char>) -> Seq<char> {
    leaf_text("item"@, seq![("href"@, href), ("id"@, id), ("media-type"@, media_type)], nothing())
}

pub open spec fn itemref_text(idref: Seq<char>) -> Seq<char> {
    leaf_text("itemref"@, seq![("idref"@, idref)], nothing())
}

/// The metadata entries of the first `k` extra files of a post.
pub open spec fn extra_sources_text(extras: Seq<Seq<char>>, k: nat) -> Seq<char>
    decreases k,
{
    if k == 0 {
        nothing()
    } else {
        extra_sources_text(extras, (k - 1) as nat) + source_text(
            "id.image"@ + decimal((k - 1) as nat),
            extras[k - 1],
        )
    }
}

/// The manifest items of the first `k` extra files of a post.
pub open spec fn extra_items_text(extras: Seq<Seq<char>>, k: nat) -> Seq<char>
    decreases k,
{
    if k == 0 {
        nothing()
    } else {
        extra_items_text(extras, (k - 1) as nat) + item_text(
            "../Images/"@ + file_name_of(extras[k - 1]),
            "image"@ + decimal((k - 1) as nat),
            "image/jpeg"@,
        )
    }
}

/// The metadata entries of post `x`: its address, then its extra files.
pub open spec fn post_sources_text(creator: Creator, x: int) -> Seq<char> {
    let post = posts_of(creator)[x];
    source_text(
        "id.xhtml"@ + decimal((x + 1) as nat),
        creator_page(creator) + "/post/"@ + post.id@,
    ) + extra_sources_text(extras_of(post), extras_of(post).len())
}

/// The manifest items of post `x`: chapter `x + 1`, then its extra files.
pub open spec fn post_items_text(creator: Creator, x: int) -> Seq<char> {
    let post = posts_of(creator)[x];
    item_text(
        chapter_file((x + 1) as nat),
        "xhtml"@ + decimal((x + 1) as nat),
        "application/xhtml+xml"@,
    ) + extra_items_text(extras_of(post), extras_of(post).len())
}

pub open spec fn metadata_posts_text(creator: Creator, k: nat) -> Seq<char>
    decreases k,
{
    if k == 0 {
        nothing()
    } else {
        metadata_posts_text(creator, (k - 1) as nat) + post_sources_text(creator, k - 1)
    }
}

pub open spec fn manifest_posts_text(creator: Creator, k: nat) -> Seq<char>
    decreases k,
{
    if k == 0 {
        nothing()
    } else {
        manifest_posts_text(creator, (k - 1) as nat) + post_items_text(creator, k - 1)
    }
}

pub open spec fn spine_posts_text(creator: Creator, k: nat) -> Seq<char>
    decreases k,
{
    if k == 0 {
        nothing()
    } else {
        spine_posts_text(creator, (k - 1) as nat) + itemref_text("xhtml"@ + decimal(k))
    }
}

pub open spec fn contributor() -> Seq<char> {
    "[https://github.com/TinyCatBag/Kemono_to_EPUB] (ver. 1.0.1.0)"@
}

/// The fixed entries at the start of the metadata.
pub open spec fn metadata_head_text(creator: Creator, title: Title) -> Seq<char> {
    leaf_text("dc:title"@, no_attrs(), book_title(creator, title, false)) + leaf_text(
        "dc:language"@,
        no_attrs(),
        "en"@,
    ) + leaf_text("dc:date"@, no_attrs(), creator.updated@) + leaf_text(
        "dc:creator"@,
        no_attrs(),
        creator.name@,
    ) + leaf_text(
        "dc:identifier"@,
        seq![("id"@, "BookId"@), ("opf:scheme"@, "URI"@)],
        creator_page(creator),
    ) + leaf_text("dc:contributor"@, seq![("opf:role"@, "bkp"@)], contributor()) + meta_text(
        "cover-image"@,
        "cover"@,
    ) + source_text("id.cover-image"@, icon_url(creator))
}

/// The fixed items at the start of the manifest.
pub open spec fn manifest_head_text(creator: Creator) -> Seq<char> {
    item_text("../Images/"@ + file_name_of(icon_url(creator)), "cover-image"@, "image/webp"@)
        + item_text("Styles/stylesheet.css"@, "stylesheet"@, "text/css"@) + item_text(
        "toc.ncx"@,
        "ncx"@,
        "application/x-dtbncx+xml"@,
    ) + item_text("Text/Cover.xhtml"@, "cover"@, "application/xhtml+xml"@)
}

pub open spec fn metadata_attrs() -> Seq<(Seq<char>, Seq<char>)> {
    seq![
        ("xmlns:dc"@, "http://purl.org/dc/elements/1.1/"@),
        ("xmlns:opf"@, "http://www.idpf.org/2007/opf"@),
    ]
}

pub open spec fn package_attrs() -> Seq<(Seq<char>, Seq<char>)> {
    seq![
        ("xmlns"@, "http://www.idpf.org/2007/opf"@),
        ("version"@, "2.0"@),
        ("unique-identifier"@, "BookId"@),
    ]
}

pub open spec fn guide_text() -> Seq<char> {
    element_text(
        "guide"@,
        no_attrs(),
        nothing(),
        leaf_text(
            "reference"@,
            seq![("href"@, "Text/Cover.xhtml"@), ("title"@, "Cover"@), ("type"@, "Cover"@)],
            nothing(),
        ),
    )
}

/// OEBPS/content.opf: the book's metadata, its files, and their reading order.
/// Post `x` (in list order) gives chapter `x + 1`'s metadata, item and place
/// in the reading order, and one metadata entry and one item per extra file.
#[verifier::opaque]
pub open spec fn content_text(creator: Creator, title: Title) -> Seq<char> {
    let n = posts_of(creator).len();
    xml_declaration() + element_text(
        "package"@,
        package_attrs(),
        nothing(),
        element_text(
            "metadata"@,
            metadata_attrs(),
            nothing(),
            metadata_head_text(creator, title) + metadata_posts_text(creator, n),
        ) + element_text(
            "manifest"@,
            no_attrs(),
            nothing(),
            manifest_head_text(creator) + manifest_posts_text(creator, n),
        ) + element_text(
            "spine"@,
            seq![("toc"@, "ncx"@)],
            nothing(),
            itemref_text("cover"@) + spine_posts_text(creator, n),
        ) + guide_text(),
    )
}

/// The manifest item of an image file.
pub open spec fn image_item(url: Seq<char>, z: nat) -> Seq<char> {
    leaf_text(
        "item"@,
        seq![
            ("href"@, "../Images/"@ + file_name_of(url)),
            ("id"@, "image"@ + decimal(z)),
            ("media-type"@, "image/jpeg"@),
        ],
        nothing(),
    )
}

proof fn lemma_extra_items_contain(extras: Seq<Seq<char>>, k: nat, z: nat)
    requires
        z < k <= extras.len(),
    ensures
        contains(extra_items_text(extras, k), image_item(extras[z as int], z)),
    decreases k,
{
    let item = image_item(extras[z as int], z);
    let prev = extra_items_text(extras, (k - 1) as nat);
    if z == k - 1 {
        assert(item.len() > 0);
        lemma_contains_self(item);
        lemma_contains_after(prev, item, item);
    } else {
        lemma_extra_items_contain(extras, (k - 1) as nat, z);
        lemma_contains_before(
            prev,
            item_text(
                "../Images/"@ + file_name_of(extras[k - 1]),
                "image"@ + decimal((k - 1) as nat),
                "image/jpeg"@,
            ),
            item,
        );
    }
}

proof fn lemma_manifest_posts_contain(creator: Creator, k: nat, x: int, t: Seq<char>)
    requires
        0 <= x < k,
        contains(post_items_text(creator, x), t),
    ensures
        contains(manifest_posts_text(creator, k), t),
    decreases k,
{
    let prev = manifest_posts_text(creator, (k - 1) as nat);
    if x == k - 1 {
        lemma_contains_after(prev, post_items_text(creator, x), t);
    } else {
        lemma_manifest_posts_contain(creator, (k - 1) as nat, x, t);
        lemma_contains_before(prev, post_items_text(creator, k - 1), t);
    }
}

/// Every extra file of every post has its own manifest item in content.opf:
/// the `z`-th extra file of a post is listed as `image<z>`, under the file
/// name of that same file in `../Images/`.
pub proof fn law_manifest_lists_every_extra(creator: Creator, title: Title, x: int, z: int)
    requires
        has_posts(creator),
        0 <= x < posts_of(creator).len(),
        0 <= z < extras_of(posts_of(creator)[x]).len(),
    ensures
        contains(
            content_text(creator, title),
            leaf_text(
                "item"@,
                seq![
                    ("href"@, "../Images/"@ + file_name_of(extras_of(posts_of(creator)[x])[z])),
                    ("id"@, "image"@ + decimal(z as nat)),
                    ("media-type"@, "image/jpeg"@),
                ],
                nothing(),
            ),
        ),
{
    let n = posts_of(creator).len();
    let extras = extras_of(posts_of(creator)[x]);
    let item = image_item(extras[z], z as nat);
    assert(item.len() > 0);
    lemma_extra_items_contain(extras, extras.len(), z as nat);
    let chapter_item = item_text(
        chapter_file((x + 1) as nat),
        "xhtml"@ + decimal((x + 1) as nat),
        "application/xhtml+xml"@,
    );
    lemma_contains_after(chapter_item, extra_items_text(extras, extras.len()), item);
    lemma_manifest_posts_contain(creator, n, x, item);
    lemma_contains_after(manifest_head_text(creator), manifest_posts_text(creator, n), item);
    lemma_element_contains(
        "manifest"@,
        no_attrs(),
        nothing(),
        manifest_head_text(creator) + manifest_posts_text(creator, n),
        item,
    );
    let m = element_text(
        "metadata"@,
        metadata_attrs(),
        nothing(),
        metadata_head_text(creator, title) + metadata_posts_text(creator, n),
    );
    let mf = element_text(
        "manifest"@,
        no_attrs(),
        nothing(),
        manifest_head_text(creator) + manifest_posts_text(creator, n),
    );
    let s = element_text(
        "spine"@,
        seq![("toc"@, "ncx"@)],
        nothing(),
        itemref_text("cover"@) + spine_posts_text(creator, n),
    );
    lemma_contains_within(m, mf, s, item);
    lemma_contains_before(m + mf + s, guide_text(), item);
    lemma_element_contains("package"@, package_attrs(), nothing(), m + mf + s + guide_text(), item);
    lemma_contains_after(
        xml_declaration(),
        element_text("package"@, package_attrs(), nothing(), m + mf + s + guide_text()),
        item,
    );
    reveal(content_text);
}

proof fn lemma_extra_sources_contain(extras: Seq<Seq<char>>, k: nat, z: nat)
    requires
        z < k <= extras.len(),
    ensures
        contains(
            extra_sources_text(extras, k),
            source_text("id.image"@ + decimal(z), extras[z as int]),
        ),
    decreases k,
{
    let item = source_text("id.image"@ + decimal(z), extras[z as int]);
    let prev = extra_sources_text(extras, (k - 1) as nat);
    if z == k - 1 {
        assert(item.len() > 0);
        lemma_contains_self(item);
        lemma_contains_after(prev, item, item);
    } else {
        lemma_extra_sources_contain(extras, (k - 1) as nat, z);
        lemma_contains_before(
            prev,
            source_text("id.image"@ + decimal((k - 1) as nat), extras[k - 1]),
            item,
        );
    }
}

proof fn lemma_metadata_posts_contain(creator: Creator, k: nat, x: int, t: Seq<char>)
    requires
        0 <= x < k,
        contains(post_sources_text(creator, x), t),
    ensures
        contains(metadata_posts_text(creator, k), t),
    decreases k,
{
    let prev = metadata_posts_text(creator, (k - 1) as nat);
    if x == k - 1 {
        lemma_contains_after(prev, post_sources_text(creator, x), t);
    } else {
        lemma_metadata_posts_contain(creator, (k - 1) as nat, x, t);
        lemma_contains_before(prev, post_sources_text(creator, k - 1), t);
    }
}

/// Every extra file of every post has its own metadata entry in content.opf:
/// the `z`-th extra file of a post is a `dc:source` with id `id.image<z>`
/// whose text is that same file's address.
pub proof fn law_metadata_lists_every_extra(creator: Creator, title: Title, x: int, z: int)
    requires
        has_posts(creator),
        0 <= x < posts_of(creator).len(),
        0 <= z < extras_of(posts_of(creator)[x]).len(),
    ensures
        contains(
            content_text(creator, title),
            leaf_text(
                "dc:source"@,
                seq![("id"@, "id.image"@ + decimal(z as nat))],
                extras_of(posts_of(creator)[x])[z],
            ),
        ),
{
    let n = posts_of(creator).len();
    let post = posts_of(creator)[x];
    let extras = extras_of(post);
    let item = source_text("id.image"@ + decimal(z as nat), extras[z]);
    assert(item.len() > 0);
    lemma_extra_sources_contain(extras, extras.len(), z as nat);
    let own = source_text(
        "id.xhtml"@ + decimal((x + 1) as nat),
        creator_page(creator) + "/post/"@ + post.id@,
    );
    lemma_contains_after(own, extra_sources_text(extras, extras.len()), item);
    lemma_metadata_posts_contain(creator, n, x, item);
    lemma_contains_after(metadata_head_text(creator, title), metadata_posts_text(creator, n), item);
    lemma_element_contains(
        "metadata"@,
        metadata_attrs(),
        nothing(),
        metadata_head_text(creator, title) + metadata_posts_text(creator, n),
        item,
    );
    let m = element_text(
        "metadata"@,
        metadata_attrs(),
        nothing(),
        metadata_head_text(creator, title) + metadata_posts_text(creator, n),
    );
    let rest = element_text(
        "manifest"@,
        no_attrs(),
        nothing(),
        manifest_head_text(creator) + manifest_posts_text(creator, n),
    ) + element_text(
        "spine"@,
        seq![("toc"@, "ncx"@)],
        nothing(),
        itemref_text("cover"@) + spine_posts_text(creator, n),
    ) + guide_text();
    lemma_contains_before(m, rest, item);
    assert(m + rest =~= m + element_text(
        "manifest"@,
        no_attrs(),
        nothing(),
        manifest_head_text(creator) + manifest_posts_text(creator, n),
    ) + element_text(
        "spine"@,
        seq![("toc"@, "ncx"@)],
        nothing(),
        itemref_text("cover"@) + spine_posts_text(creator, n),
    ) + guide_text());
    lemma_element_contains("package"@, package_attrs(), nothing(), m + rest, item);
    lemma_contains_after(
        xml_declaration(),
        element_text("package"@, package_attrs(), nothing(), m + rest),
        item,
    );
    reveal(content_text);
}

fn text_element(title: &str, text: &str) -> (e: XMLElement)
    ensures
        e.render() == leaf_text(title@, no_attrs(), text@),
{
    let mut e = XMLElement::new(title);
    e.add_text(text);
    proof {
        e.lemma_render();
        lemma_render_all_empty();
    }
    e
}

fn source_element(id: &str, text: &str) -> (e: XMLElement)
    ensures
        e.render() == source_text(id@, text@),
{
    let mut e = XMLElement::new("dc:source");
    e.add_attribute("id", id);
    e.add_text(text);
    proof {
        e.lemma_render();
        lemma_render_all_empty();
        assert(e.attributes_of() =~= seq![("id"@, id@)]);
    }
    e
}

fn item_element(href: &str, id: &str, media_type: &str) -> (e: XMLElement)
    ensures
        e.render() == item_text(href@, id@, media_type@),
{
    let mut e = XMLElement::new("item");
    e.add_attribute("href", href);
    e.add_attribute("id", id);
    e.add_attribute("media-type", media_type);
    proof {
        e.lemma_render();
        lemma_render_all_empty();
        assert(e.attributes_of() =~= seq![("href"@, href@), ("id"@, id@), ("media-type"@, media_type@)]);
    }
    e
}

fn itemref_element(idref: &str) -> (e: XMLElement)
    ensures
        e.render() == itemref_text(idref@),
{
    let mut e = XMLElement::new("itemref");
    e.add_attribute("idref", idref);
    proof {
        e.lemma_render();
        lemma_render_all_empty();
        assert(e.attributes_of() =~= seq![("idref"@, idref@)]);
    }
    e
}

/// `parent` with `child` added: its rendering grows by the child's.
fn append_child(parent: &mut XMLElement, child: XMLElement)
    ensures
        render_all(final(parent).children_of()) == render_all(old(parent).children_of())
            + child.render(),
        final(parent).title_of() == old(parent).title_of(),
        final(parent).attributes_of() == old(parent).attributes_of(),
        final(parent).text_of() == old(parent).text_of(),
        final(parent).special_of() == old(parent).special_of(),
{
    proof {
        lemma_render_all_push(parent.children_of(), child);
    }
    parent.add_child(child);
}

/// Adds post `x`'s metadata entries, manifest items and place in the reading order.
fn add_post_entries(
    creator: &Creator,
    x: usize,
    metadata: &mut XMLElement,
    manifest: &mut XMLElement,
    spine: &mut XMLElement,
)
    requires
        creator.posts is Some,
        x < posts_of(*creator).len(),
    ensures
        render_all(final(metadata).children_of()) == render_all(old(metadata).children_of())
            + post_sources_text(*creator, x as int),
        render_all(final(manifest).children_of()) == render_all(old(manifest).children_of())
            + post_items_text(*creator, x as int),
        render_all(final(spine).children_of()) == render_all(old(spine).children_of())
            + itemref_text("xhtml"@ + decimal((x + 1) as nat)),
        final(metadata).title_of() == old(metadata).title_of(),
        final(metadata).attributes_of() == old(metadata).attributes_of(),
        final(metadata).text_of() == old(metadata).text_of(),
        final(manifest).title_of() == old(manifest).title_of(),
        final(manifest).attributes_of() == old(manifest).attributes_of(),
        final(manifest).text_of() == old(manifest).text_of(),
        final(spine).title_of() == old(spine).title_of(),
        final(spine).attributes_of() == old(spine).attributes_of(),
        final(spine).text_of() == old(spine).text_of(),
{
    let posts = creator.posts.as_ref().unwrap();
    let post = &posts[x];
    assert(x < posts.len());
    let number = decimal_string(x + 1);

    let id = concat2("id.xhtml", number.as_str());
    let mut address = creator_page_of(creator);
    address.append("/post/");
    address.append(post.id.as_str());
    let source = source_element(id.as_str(), address.as_str());
    append_child(metadata, source);

    let href = chapter_file_of(x + 1);
    let item_id = concat2("xhtml", number.as_str());
    let item = item_element(href.as_str(), item_id.as_str(), "application/xhtml+xml");
    append_child(manifest, item);

    let itemref = itemref_element(item_id.as_str());
    append_child(spine, itemref);

    let ghost meta_start = render_all(metadata.children_of());
    let ghost manifest_start = render_all(manifest.children_of());
    let ghost extras = extras_of(*post);
    match &post.opf_extras {
        None => {
            assert(extra_sources_text(extras, 0) == nothing());
            assert(meta_start + nothing() =~= meta_start);
            assert(manifest_start + nothing() =~= manifest_start);
        },
        Some(list) => {
            let mut z: usize = 0;
            assert(meta_start + nothing() =~= meta_start);
            assert(manifest_start + nothing() =~= manifest_start);
            while z < list.len()
                invariant
                    z <= list@.len(),
                    extras == list@.map_values(|s: String| s@),
                    render_all(metadata.children_of()) == meta_start + extra_sources_text(
                        extras,
                        z as nat,
                    ),
                    render_all(manifest.children_of()) == manifest_start + extra_items_text(
                        extras,
                        z as nat,
                    ),
                    metadata.title_of() == old(metadata).title_of(),
                    metadata.attributes_of() == old(metadata).attributes_of(),
                    metadata.text_of() == old(metadata).text_of(),
                    manifest.title_of() == old(manifest).title_of(),
                    manifest.attributes_of() == old(manifest).attributes_of(),
                    manifest.text_of() == old(manifest).text_of(),
                decreases list@.len() - z,
            {
                let extra = &list[z];
                let z_text = decimal_string(z);
                let image_id = concat2("id.image", z_text.as_str());
                let image = source_element(image_id.as_str(), extra.as_str());
                append_child(metadata, image);

                let name = file_name(extra.as_str());
                let href = concat2("../Images/", name.as_str());
                let id = concat2("image", z_text.as_str());
                let image = item_element(href.as_str(), id.as_str(), "image/jpeg");
                append_child(manifest, image);
                z += 1;
            }
        },
    }
}

/// The text of OEBPS/content.opf.
pub fn content_document(creator: &Creator, title: &Title) -> (s: String)
    requires
        has_posts(*creator),
    ensures
        s@ == content_text(*creator, *title),
{
    reveal(content_text);
    let mut content = XMLElement::new("package");
    content.add_attribute("xmlns", "http://www.idpf.org/2007/opf");
    content.add_attribute("version", "2.0");
    content.add_attribute("unique-identifier", "BookId");

    let mut metadata = XMLElement::new("metadata");
    metadata.add_attribute("xmlns:dc", "http://purl.org/dc/elements/1.1/");
    metadata.add_attribute("xmlns:opf", "http://www.idpf.org/2007/opf");
    proof {
        lemma_render_all_empty();
        assert(metadata.attributes_of() =~= metadata_attrs());
        assert(content.attributes_of() =~= package_attrs());
    }

    let book = match_title(creator, title, false);
    let title_el = text_element("dc:title", book.as_str());
    let language = text_element("dc:language", "en");
    let date = text_element("dc:date", creator.updated.as_str());
    let creator_dc = text_element("dc:creator", creator.name.as_str());

    let mut identifier = XMLElement::new("dc:identifier");
    identifier.add_attribute("id", "BookId");
    identifier.add_attribute("opf:scheme", "URI");
    let page = creator_page_of(creator);
    identifier.add_text(page.as_str());
    proof {
        identifier.lemma_render();
        assert(identifier.attributes_of() =~= seq![("id"@, "BookId"@), ("opf:scheme"@, "URI"@)]);
    }

    let mut contributor_el = XMLElement::new("dc:contributor");
    contributor_el.add_attribute("opf:role", "bkp");
    contributor_el.add_text("[https://github.com/TinyCatBag/Kemono_to_EPUB] (ver. 1.0.1.0)");
    proof {
        contributor_el.lemma_render();
        assert(contributor_el.attributes_of() =~= seq![("opf:role"@, "bkp"@)]);
    }

    let meta = meta_element("cover-image", "cover");
    let icon = icon_url_of(creator);
    let source = source_element("id.cover-image", icon.as_str());

    append_child(&mut metadata, title_el);
    append_child(&mut metadata, language);
    append_child(&mut metadata, date);
    append_child(&mut metadata, creator_dc);
    append_child(&mut metadata, identifier);
    append_child(&mut metadata, contributor_el);
    append_child(&mut metadata, meta);
    append_child(&mut metadata, source);
    assert(render_all(metadata.children_of()) =~= metadata_head_text(*creator, *title));

    let mut manifest = XMLElement::new("manifest");
    let name = file_name(icon.as_str());
    let href = concat2("../Images/", name.as_str());
    let cover_image = item_element(href.as_str(), "cover-image", "image/webp");
    append_child(&mut manifest, cover_image);
    let style = item_element("Styles/stylesheet.css", "stylesheet", "text/css");
    let toc_item = item_element("toc.ncx", "ncx", "application/x-dtbncx+xml");
    let cover = item_element("Text/Cover.xhtml", "cover", "application/xhtml+xml");
    append_child(&mut manifest, style);
    append_child(&mut manifest, toc_item);
    append_child(&mut manifest, cover);
    assert(render_all(manifest.children_of()) =~= manifest_head_text(*creator));

    let mut spine = XMLElement::new("spine");
    spine.add_attribute("toc", "ncx");
    let cover_itemref = itemref_element("cover");
    append_child(&mut spine, cover_itemref);
    proof {
        assert(spine.attributes_of() =~= seq![("toc"@, "ncx"@)]);
        assert(render_all(spine.children_of()) =~= itemref_text("cover"@));
    }

    let posts = creator.posts.as_ref().unwrap();
    let mut x: usize = 0;
    while x < posts.len()
        invariant
            x <= posts@.len(),
            posts@ == posts_of(*creator),
            creator.posts is Some,
            metadata.title_of() == "metadata"@,
            metadata.attributes_of() == metadata_attrs(),
            metadata.text_of() == nothing(),
            render_all(metadata.children_of()) == metadata_head_text(*creator, *title)
                + metadata_posts_text(*creator, x as nat),
            manifest.title_of() == "manifest"@,
            manifest.attributes_of() == no_attrs(),
            manifest.text_of() == nothing(),
            render_all(manifest.children_of()) == manifest_head_text(*creator)
                + manifest_posts_text(*creator, x as nat),
            spine.title_of() == "spine"@,
            spine.attributes_of() == seq![("toc"@, "ncx"@)],
            spine.text_of() == nothing(),
            render_all(spine.children_of()) == itemref_text("cover"@) + spine_posts_text(
                *creator,
                x as nat,
            ),
        decreases posts@.len() - x,
    {
        add_post_entries(creator, x, &mut metadata, &mut manifest, &mut spine);
        x += 1;
    }
    proof {
        metadata.lemma_render();
        manifest.lemma_render();
        spine.lemma_render();
    }
    let ghost metadata_v = metadata;
    let ghost manifest_v = manifest;
    let ghost spine_v = spine;
    append_child(&mut content, metadata);
    append_child(&mut content, manifest);
    append_child(&mut content, spine);

    let mut guide = XMLElement::new("guide");
    let mut reference = XMLElement::new("reference");
    reference.add_attribute("href", "Text/Cover.xhtml");
    reference.add_attribute("title", "Cover");
    reference.add_attribute("type", "Cover");
    proof {
        reference.lemma_render();
        assert(reference.attributes_of() =~= seq![
            ("href"@, "Text/Cover.xhtml"@),
            ("title"@, "Cover"@),
            ("type"@, "Cover"@),
        ]);
    }
    append_child(&mut guide, reference);
    proof {
        guide.lemma_render();
    }
    append_child(&mut content, guide);
    proof {
        content.lemma_render();
    }
    content.to_string()
}

} // verus!
