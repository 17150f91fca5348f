//! The data of an EPUB request (a creator, their posts, a title choice) and
//! the book's title.

pub mod simple_xml_builder;
pub mod address;
pub mod images;
pub mod fetch;
pub mod dialog;
pub mod documents;
pub mod archive;

use vstd::prelude::*;
use crate::text::{replace_all, decimal, replace_str, decimal_string, owned, contains,
    lemma_replace_all_absent};

verus! {

/// A JSON value that the library carries without reading it.
#[verifier::external_type_specification]
#[verifier::external_body]
pub struct ExJsonValue(serde_json::Value);

/// A creator's profile, with the posts fetched so far (newest first).
#[derive(Debug)]
pub struct Creator {
    pub id: String,
    pub name: String,
    pub service: String,
    pub indexed: String,
    pub updated: String,
    pub public_id: String,
    pub relation_id: Option<String>,
    pub posts: Option<Vec<Post>>,
}

/// One post of a creator.
#[derive(Debug)]
pub struct Post {
    pub id: String,
    pub user: String,
    pub service: String,
    pub title: String,
    pub content: String,
    pub embed: serde_json::Value,
    pub shared_file: bool,
    pub added: String,
    pub published: String,
    pub edited: Option<String>,
    pub file: serde_json::Value,
    pub attachments: serde_json::Value,
    pub poll: serde_json::Value,
    pub captions: Option<bool>,
    pub tags: Option<String>,
    pub opf_extras: Option<Vec<String>>,
}

/// What to make an EPUB of, and how to title it.
pub struct EpubRequest {
    pub creator: Creator,
    pub title: Title,
}

/// How the book is titled. `Custom((text, has_extension))` holds a template and
/// whether the text the user typed contained `.epub`.
pub enum Title {
    Custom((String, bool)),
    StartToEnd,
    NameNumber,
    NameFirstPostName,
    NameLastPostName,
    NameStartToEnd,
    CreatorName,
}

/// The creator has at least one post; the title functions need one.
pub open spec fn has_posts(creator: Creator) -> bool {
    creator.posts is Some && creator.posts.unwrap()@.len() > 0
}

/// The creator's posts (newest first).
pub open spec fn posts_of(creator: Creator) -> Seq<Post> {
    creator.posts.unwrap()@
}

/// The title of the creator's oldest post (the last one in the list).
pub open spec fn first_post_title(creator: Creator) -> Seq<char> {
    posts_of(creator).last().title@
}

/// The title of the creator's newest post (the first one in the list).
pub open spec fn last_post_title(creator: Creator) -> Seq<char> {
    posts_of(creator)[0].title@
}

/// The placeholders of a custom title filled in, then every backslash removed
/// (a backslash after `{` keeps a placeholder from being filled in).
pub open spec fn fill_title(input: Seq<char>, creator: Creator) -> Seq<char> {
    let a = replace_all(input, "{Creator.name}"@, creator.name@);
    let b = replace_all(a, "{Posts.first}"@, first_post_title(creator));
    let c = replace_all(b, "{Posts.last}"@, last_post_title(creator));
    let d = replace_all(c, "{Posts.count}"@, decimal(posts_of(creator).len()));
    replace_all(d, "\\"@, Seq::empty())
}

/// The title text that a title choice names, before placeholders are filled in.
pub open spec fn title_template(creator: Creator, title: Title) -> Seq<char> {
    match title {
        Title::StartToEnd => first_post_title(creator) + " — "@ + last_post_title(creator),
        Title::NameStartToEnd => creator.name@ + " — "@ + first_post_title(creator) + " — "@
            + last_post_title(creator),
        Title::NameNumber => creator.name@ + " — "@ + decimal(posts_of(creator).len()),
        Title::NameFirstPostName => creator.name@ + " — "@ + first_post_title(creator),
        Title::NameLastPostName => creator.name@ + " — "@ + last_post_title(creator),
        Title::CreatorName => creator.name@,
        Title::Custom(x) => x.0@,
    }
}

/// The book's title, or with `epub` its file name: the filled-in template,
/// with `.epub` appended unless it is a custom title that already had one.
pub open spec fn book_title(creator: Creator, title: Title, epub: bool) -> Seq<char> {
    let filled = fill_title(title_template(creator, title), creator);
    let needs_extension = match title {
        Title::Custom(x) => epub && !x.1,
        _ => epub,
    };
    if needs_extension {
        filled + ".epub"@
    } else {
        filled
    }
}

/// A template without placeholders is only stripped of its backslashes; this
/// is how `{\Posts.first}` comes out as `{Posts.first}`. A template with
/// neither placeholders nor backslashes comes out unchanged.
pub proof fn law_escaped_template(input: Seq<char>, creator: Creator)
    requires
        !contains(input, "{Creator.name}"@),
        !contains(input, "{Posts.first}"@),
        !contains(input, "{Posts.last}"@),
        !contains(input, "{Posts.count}"@),
    ensures
        fill_title(input, creator) == replace_all(input, "\\"@, Seq::empty()),
        !contains(input, "\\"@) ==> fill_title(input, creator) == input,
{
    lemma_replace_all_absent(input, "{Creator.name}"@, creator.name@);
    lemma_replace_all_absent(input, "{Posts.first}"@, first_post_title(creator));
    lemma_replace_all_absent(input, "{Posts.last}"@, last_post_title(creator));
    lemma_replace_all_absent(input, "{Posts.count}"@, decimal(posts_of(creator).len()));
    if !contains(input, "\\"@) {
        lemma_replace_all_absent(input, "\\"@, Seq::empty());
    }
}

/// The file name is the title with `.epub` appended, except for a custom title
/// typed with `.epub` in it, whose file name is the title itself.
pub proof fn law_file_name_extension(creator: Creator, title: Title)
    ensures
        (title matches Title::Custom(x) && x.1) ==> book_title(creator, title, true) == book_title(
            creator,
            title,
            false,
        ),
        !(title matches Title::Custom(x) && x.1) ==> book_title(creator, title, true) == book_title(
            creator,
            title,
            false,
        ) + ".epub"@,
{
}

/// Fills in the placeholders `{Creator.name}`, `{Posts.first}` (the oldest
/// post's title), `{Posts.last}` (the newest post's title) and `{Posts.count}`,
/// in that order, then removes every backslash.
pub fn custom_title_replace(input: String, creator: &Creator) -> (out: String)
    requires
        has_posts(*creator),
    ensures
        out@ == fill_title(input@, *creator),
{
    proof {
        reveal_strlit("{Creator.name}");
        reveal_strlit("{Posts.first}");
        reveal_strlit("{Posts.last}");
        reveal_strlit("{Posts.count}");
        reveal_strlit("\\");
        reveal_strlit("");
    }
    let posts = creator.posts.as_ref().unwrap();
    let first = &posts[posts.len() - 1];
    let last = &posts[0];
    let count = decimal_string(posts.len());
    let a = replace_str(input.as_str(), "{Creator.name}", creator.name.as_str());
    let b = replace_str(a.as_str(), "{Posts.first}", first.title.as_str());
    let c = replace_str(b.as_str(), "{Posts.last}", last.title.as_str());
    let d = replace_str(c.as_str(), "{Posts.count}", count.as_str());
    let out = replace_str(d.as_str(), "\\", "");
    assert(""@ =~= Seq::<char>::empty());
    out
}

/// The book's title (`epub == false`) or the EPUB's file name (`epub == true`).
pub fn match_title(creator: &Creator, title: &Title, epub: bool) -> (out: String)
    requires
        has_posts(*creator),
    ensures
        out@ == book_title(*creator, *title, epub),
{
    let posts = creator.posts.as_ref().unwrap();
    let first = &posts[posts.len() - 1];
    let last = &posts[0];
    let output = match title {
        Title::StartToEnd => {
            let mut s = owned(first.title.as_str());
            s.append(" — ");
            s.append(last.title.as_str());
            s
        },
        Title::NameStartToEnd => {
            let mut s = owned(creator.name.as_str());
            s.append(" — ");
            s.append(first.title.as_str());
            s.append(" — ");
            s.append(last.title.as_str());
            s
        },
        Title::NameNumber => {
            let count = decimal_string(posts.len());
            let mut s = owned(creator.name.as_str());
            s.append(" — ");
            s.append(count.as_str());
            s
        },
        Title::NameFirstPostName => {
            let mut s = owned(creator.name.as_str());
            s.append(" — ");
            s.append(first.title.as_str());
            s
        },
        Title::NameLastPostName => {
            let mut s = owned(creator.name.as_str());
            s.append(" — ");
            s.append(last.title.as_str());
            s
        },
        Title::CreatorName => owned(creator.name.as_str()),
        Title::Custom(x) => {
            let filled = custom_title_replace(owned(x.0.as_str()), creator);
            if epub && !x.1 {
                let mut s = filled;
                s.append(".epub");
                return s;
            }
            return filled;
        },
    };
    assert(output@ == title_template(*creator, *title));
    let filled = custom_title_replace(output, creator);
    if epub {
        let mut s = filled;
        s.append(".epub");
        s
    } else {
        filled
    }
}

} // verus!
