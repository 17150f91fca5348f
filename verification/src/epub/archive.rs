//! The book as a sequence of archive steps: what goes into the EPUB file, in
//! which order, and which images are downloaded on the way. Posts come newest
//! first, so chapter 1 is the last post.

use vstd::prelude::*;
use crate::text::{contains, owned, concat2, contains_str, decimal, count};
use crate::epub::{Creator, Post, Title, EpubRequest, has_posts, posts_of, book_title, match_title};
use crate::epub::images::{fix_images, extras_view, extras_after, same_but_images};
use crate::epub::documents::{container_text, chapter_text, toc_text, cover_text, content_text,
    icon_url, file_name_of, chapter_file, container_document, chapter_document, toc_document,
    cover_document, content_document, icon_url_of, file_name, nav_point_text, no_attrs, nothing};
use crate::epub::simple_xml_builder::{element_text, leaf_text};

verus! {

/// One step of writing the archive.
pub enum ArchiveAction {
    /// Add a directory entry with `ZipWriter::add_directory`.
    AddDirectory(String),
    /// Add a directory entry with `ZipWriter::add_directory_from_path`.
    AddDirectoryFromPath(String),
    /// Start a file at the path and write the text into it.
    WriteFile(String, String),
    /// Start a file at the path and write the stylesheet into it.
    WriteStylesheet(String),
    /// Download the image at the address and store it at the path.
    DownloadImage(String, String),
    /// Stop with an error: a post's image tags could not be rewritten.
    Fail,
}

/// An archive step as text.
pub enum Entry {
    Directory(Seq<char>),
    DirectoryFromPath(Seq<char>),
    File(Seq<char>, Seq<char>),
    Stylesheet(Seq<char>),
    Download(Seq<char>, Seq<char>),
    Fail,
}

impl View for ArchiveAction {
    type V = Entry;

    open spec fn view(&self) -> Entry {
        match self {
            ArchiveAction::AddDirectory(p) => Entry::Directory(p@),
            ArchiveAction::AddDirectoryFromPath(p) => Entry::DirectoryFromPath(p@),
            ArchiveAction::WriteFile(p, t) => Entry::File(p@, t@),
            ArchiveAction::WriteStylesheet(p) => Entry::Stylesheet(p@),
            ArchiveAction::DownloadImage(u, p) => Entry::Download(u@, p@),
            ArchiveAction::Fail => Entry::Fail,
        }
    }
}

/// The EPUB file's name and the steps that fill it.
pub struct EpubPlan {
    pub file_name: String,
    pub actions: Vec<ArchiveAction>,
}

/// The steps as text.
pub open spec fn entries_of(actions: Vec<ArchiveAction>) -> Seq<Entry> {
    actions@.map_values(|a: ArchiveAction| a@)
}

/// Where a downloaded image is stored in the archive.
pub open spec fn image_path(url: Seq<char>) -> Seq<char> {
    "Images/"@ + file_name_of(url)
}

/// Downloading each of the addresses, in order.
pub open spec fn downloads(urls: Seq<Seq<char>>) -> Seq<Entry> {
    urls.map_values(|u: Seq<char>| Entry::Download(u, image_path(u)))
}

/// The steps before the chapters: the mimetype, the folders, the container and
/// the stylesheet.
pub open spec fn opening_entries() -> Seq<Entry> {
    seq![
        Entry::File("mimetype"@, "application/epub+zip"@),
        Entry::Directory("META-INF"@),
        Entry::DirectoryFromPath("OEBPS/Styles"@),
        Entry::DirectoryFromPath("OEBPS/Text"@),
        Entry::File("META-INF/container.xml"@, container_text()),
        Entry::Stylesheet("OEBPS/Styles/stylesheet.css"@),
    ]
}

/// A post has image tags, which are rewritten before its chapter is written.
pub open spec fn has_images(p: Post) -> bool {
    contains(p.content@, "<img"@)
}

/// The chapter of a post can be written: it has no image tags, or they could
/// all be rewritten.
pub open spec fn chapter_ok(p: Post) -> bool {
    !has_images(p) || fix_images(p.content@).2
}

/// The images a post's chapter downloads.
pub open spec fn chapter_urls(p: Post) -> Seq<Seq<char>> {
    if has_images(p) {
        fix_images(p.content@).1
    } else {
        Seq::empty()
    }
}

/// A post before (`p0`) and after (`p1`) its chapter was made.
pub open spec fn fixed_post(p0: Post, p1: Post) -> bool {
    if has_images(p0) {
        let f = fix_images(p0.content@);
        &&& p1.content@ == f.0
        &&& extras_view(p1.opf_extras) == extras_after(extras_view(p0.opf_extras), f.1)
        &&& same_but_images(p0, p1)
    } else {
        p1 == p0
    }
}

/// The steps of chapter `number`, made of post `p0`, which became `p1`.
pub open spec fn chapter_entries(p0: Post, p1: Post, number: nat) -> Seq<Entry> {
    downloads(chapter_urls(p0)) + if chapter_ok(p0) {
        seq![Entry::File("OEBPS/"@ + chapter_file(number), chapter_text(p1))]
    } else {
        seq![Entry::Fail]
    }
}

/// A chapter downloads, in order, every address that rewriting its post's
/// image tags gave, one step each, into `Images/` under the address's file
/// name; then it writes its page or fails. When the page is written, there is
/// one download per `<img` of the post; a post without image tags downloads
/// nothing.
pub proof fn law_chapter_downloads(p0: Post, p1: Post, k: nat)
    ensures
        has_images(p0) ==> ({
            let urls = fix_images(p0.content@).1;
            &&& chapter_entries(p0, p1, k).len() == urls.len() + 1
            &&& forall|i: int|
                0 <= i < urls.len() ==> chapter_entries(p0, p1, k)[i] == Entry::Download(
                    urls[i],
                    "Images/"@ + file_name_of(urls[i]),
                )
            &&& chapter_ok(p0) ==> urls.len() == count(p0.content@, "<img"@)
        }),
        !has_images(p0) ==> chapter_entries(p0, p1, k).len() == 1 && chapter_entries(
            p0,
            p1,
            k,
        )[0] == Entry::File("OEBPS/"@ + chapter_file(k), chapter_text(p1)),
{
    crate::epub::images::law_one_address_per_tag(p0.content@);
    if !has_images(p0) {
        assert(downloads(chapter_urls(p0)) =~= Seq::<Entry>::empty());
    }
}

/// The first `k` chapters could all be written (chapter `x + 1` is post `n - 1 - x`).
pub open spec fn chapters_ok(old: Seq<Post>, k: int) -> bool {
    forall|x: int| 0 <= x < k ==> chapter_ok(#[trigger] old[old.len() - 1 - x])
}

/// The steps of the first `k` chapters, up to the first that fails; `new`
/// holds the posts as they became.
pub open spec fn chapters_entries(old: Seq<Post>, new: Seq<Post>, k: nat) -> Seq<Entry>
    decreases k,
{
    if k == 0 {
        Seq::empty()
    } else {
        let prev = chapters_entries(old, new, (k - 1) as nat);
        if chapters_ok(old, k - 1) {
            prev + chapter_entries(old[old.len() - k], new[old.len() - k], k)
        } else {
            prev
        }
    }
}

/// The steps after the chapters: the table of contents, the cover image and
/// page, and the package document.
pub open spec fn closing_entries(creator: Creator, title: Title) -> Seq<Entry> {
    seq![
        Entry::File("OEBPS/toc.ncx"@, toc_text(creator)),
        Entry::Download(icon_url(creator), image_path(icon_url(creator))),
        Entry::File("OEBPS/Text/Cover.xhtml"@, cover_text(creator)),
        Entry::File("OEBPS/content.opf"@, content_text(creator, title)),
    ]
}

/// The chapters' steps read the changed posts only from index `n - k` on.
proof fn lemma_chapters_frame(old: Seq<Post>, a: Seq<Post>, b: Seq<Post>, k: nat)
    requires
        k <= old.len(),
        a.len() == old.len(),
        b.len() == old.len(),
        forall|i: int| old.len() - k <= i < old.len() ==> a[i] == b[i],
    ensures
        chapters_entries(old, a, k) == chapters_entries(old, b, k),
    decreases k,
{
    if k > 0 {
        lemma_chapters_frame(old, a, b, (k - 1) as nat);
    }
}

/// Once a chapter failed, no later chapter adds steps.
proof fn lemma_chapters_stop(old: Seq<Post>, new: Seq<Post>, x: nat, k: nat)
    requires
        x <= k <= old.len(),
        !chapters_ok(old, x as int),
    ensures
        chapters_entries(old, new, k) == chapters_entries(old, new, x),
    decreases k,
{
    if k > x {
        lemma_chapters_stop(old, new, x, (k - 1) as nat);
        assert(!chapters_ok(old, k - 1));
    }
}

/// The page of chapter `k`, as the steps write it.
pub open spec fn chapter_page(new: Seq<Post>, k: nat) -> Entry {
    Entry::File("OEBPS/"@ + chapter_file(k), chapter_text(new[new.len() - k]))
}

proof fn lemma_chapter_written(old: Seq<Post>, new: Seq<Post>, m: nat, k: nat)
    requires
        1 <= k <= m <= old.len(),
        new.len() == old.len(),
        chapters_ok(old, m as int),
    ensures
        chapters_entries(old, new, m).contains(chapter_page(new, k)),
    decreases m,
{
    let n = old.len();
    assert(chapters_ok(old, m - 1)) by {
        assert forall|y: int| 0 <= y < m - 1 implies chapter_ok(
            #[trigger] old[old.len() - 1 - y],
        ) by {}
    }
    let step = chapter_entries(old[n - m], new[n - m], m);
    let prev = chapters_entries(old, new, (m - 1) as nat);
    assert(chapter_ok(old[old.len() - 1 - (m - 1)]));
    if m == k {
        assert(step.last() == chapter_page(new, k));
        assert((prev + step)[prev.len() + step.len() - 1] == chapter_page(new, k));
    } else {
        lemma_chapter_written(old, new, (m - 1) as nat, k);
        let i = choose|i: int| 0 <= i < prev.len() && prev[i] == chapter_page(new, k);
        assert((prev + step)[i] == chapter_page(new, k));
    }
}

/// When every chapter was made, chapter `k`'s page is among the steps, and the
/// table of contents' entry for chapter `k` points at that page and carries
/// the title of the same post: post `n - k` in list order, whose title is the
/// page's heading.
pub proof fn law_toc_matches_chapters(old: Seq<Post>, creator: Creator, k: nat)
    requires
        creator.posts is Some,
        posts_of(creator).len() == old.len(),
        chapters_ok(old, old.len() as int),
        1 <= k <= old.len(),
    ensures
        chapters_entries(old, posts_of(creator), old.len()).contains(
            chapter_page(posts_of(creator), k),
        ),
        nav_point_text(creator, k - 1) == element_text(
            "navPoint"@,
            seq![("id"@, "body"@ + decimal(k)), ("playOrder"@, decimal(k))],
            nothing(),
            element_text(
                "navLabel"@,
                no_attrs(),
                nothing(),
                leaf_text("text"@, no_attrs(), posts_of(creator)[old.len() - k].title@),
            ) + leaf_text("content"@, seq![("src"@, chapter_file(k))], nothing()),
        ),
{
    lemma_chapter_written(old, posts_of(creator), old.len(), k);
}

fn action(a: ArchiveAction, actions: &mut Vec<ArchiveAction>)
    ensures
        entries_of(*final(actions)) == entries_of(*old(actions)).push(a@),
{
    let ghost before = *actions;
    actions.push(a);
    assert(entries_of(*actions) =~= entries_of(before).push(a@));
}

fn image_path_of(url: &str) -> (p: String)
    ensures
        p@ == image_path(url@),
{
    let name = file_name(url);
    concat2("Images/", name.as_str())
}

/// The steps of one chapter: rewriting the post's images, downloading them,
/// then writing the chapter (or stopping). Gives whether the chapter was written.
fn chapter_actions(post: &mut Post, number: usize, actions: &mut Vec<ArchiveAction>) -> (ok: bool)
    ensures
        ok == chapter_ok(*old(post)),
        fixed_post(*old(post), *final(post)),
        entries_of(*final(actions)) == entries_of(*old(actions)) + chapter_entries(
            *old(post),
            *final(post),
            number as nat,
        ),
{
    proof {
        reveal_strlit("<img");
    }
    let ghost start = entries_of(*actions);
    let mut ok = true;
    if contains_str(post.content.as_str(), "<img") {
        let (urls, fixed) = post.fix_img();
        let ghost url_views = urls@.map_values(|s: String| s@);
        let mut i: usize = 0;
        while i < urls.len()
            invariant
                i <= urls@.len(),
                url_views == urls@.map_values(|s: String| s@),
                entries_of(*actions) == start + downloads(url_views.take(i as int)),
            decreases urls@.len() - i,
        {
            let url = owned(urls[i].as_str());
            let path = image_path_of(urls[i].as_str());
            action(ArchiveAction::DownloadImage(url, path), actions);
            proof {
                assert(url_views.take(i + 1) =~= url_views.take(i as int).push(url_views[i as int]));
                assert(downloads(url_views.take(i + 1)) =~= downloads(url_views.take(i as int)).push(
                    Entry::Download(url_views[i as int], image_path(url_views[i as int])),
                ));
            }
            i += 1;
        }
        assert(url_views.take(i as int) =~= url_views);
        ok = fixed;
    } else {
        assert(downloads(Seq::empty()) =~= Seq::<Entry>::empty());
        assert(start + Seq::<Entry>::empty() =~= start);
    }
    let ghost after_downloads = entries_of(*actions);
    if ok {
        let mut path = owned("OEBPS/");
        let file = crate::epub::documents::chapter_file_of(number);
        path.append(file.as_str());
        let text = chapter_document(post);
        action(ArchiveAction::WriteFile(path, text), actions);
    } else {
        action(ArchiveAction::Fail, actions);
    }
    ok
}

/// The posts' relation before (`old`) and after (`new`) the chapters were made:
/// the posts of chapters tried were rewritten, the others are unchanged.
pub open spec fn chapters_made(old: Seq<Post>, new: Seq<Post>) -> bool {
    let n = old.len();
    &&& new.len() == n
    &&& forall|r: int|
        0 <= r < n ==> if chapters_ok(old, n - 1 - r) {
            fixed_post(old[r], #[trigger] new[r])
        } else {
            new[r] == old[r]
        }
}

/// Makes the chapters of `posts` (given newest first), oldest post first,
/// stopping after the first that fails. Gives the posts as they became and
/// whether every chapter was made.
fn chapters_actions(posts: Vec<Post>, actions: &mut Vec<ArchiveAction>) -> (r: (Vec<Post>, bool))
    ensures
        chapters_made(posts@, r.0@),
        r.1 == chapters_ok(posts@, posts@.len() as int),
        entries_of(*final(actions)) == entries_of(*old(actions)) + chapters_entries(
            posts@,
            r.0@,
            posts@.len() as nat,
        ),
{
    let ghost old_posts = posts@;
    let ghost n = old_posts.len();
    let ghost base = entries_of(*actions);
    let mut remaining = posts;
    let n_exec = remaining.len();
    let mut done: Vec<Post> = Vec::new();
    let ghost mut cur: Seq<Post> = old_posts;
    let mut failed = false;
    let mut x: usize = 0;
    assert(old_posts.take(n as int) =~= old_posts);
    assert(base + chapters_entries(old_posts, cur, 0) =~= base);
    while x < n_exec && !failed
        invariant
            n == old_posts.len(),
            n_exec == n,
            x <= n,
            remaining@ == old_posts.take(n - x),
            done@.len() == x,
            cur.len() == n,
            forall|i: int| 0 <= i < n - x ==> cur[i] == old_posts[i],
            forall|j: int| 0 <= j < x ==> cur[n - 1 - j] == done@[j],
            forall|j: int| 0 <= j < x ==> fixed_post(old_posts[n - 1 - j], #[trigger] done@[j]),
            failed <==> !chapters_ok(old_posts, x as int),
            x > 0 ==> chapters_ok(old_posts, x - 1),
            entries_of(*actions) == base + chapters_entries(old_posts, cur, x as nat),
        decreases n - x,
    {
        let ghost before_cur = cur;
        let mut post = remaining.pop().unwrap();
        assert(old_posts.take(n - x).drop_last() =~= old_posts.take(n - x - 1));
        assert(post == old_posts[n - 1 - x]);
        let ok = chapter_actions(&mut post, x + 1, actions);
        proof {
            cur = cur.update(n - 1 - x, post);
            lemma_chapters_frame(old_posts, before_cur, cur, x as nat);
            assert(chapters_ok(old_posts, x + 1) == ok);
            assert(entries_of(*actions) =~= base + chapters_entries(old_posts, cur, (x + 1) as nat));
        }
        done.push(post);
        if !ok {
            failed = true;
        }
        x += 1;
    }
    // The posts in list order again: those left, then the made ones, newest first.
    let ghost made = done@;
    let mut posts = remaining;
    while done.len() > 0
        invariant
            n == old_posts.len(),
            done@.len() + posts@.len() == n,
            forall|i: int| 0 <= i < posts@.len() ==> posts@[i] == cur[i],
            forall|j: int| 0 <= j < done@.len() ==> cur[n - 1 - j] == done@[j],
            cur.len() == n,
        decreases done@.len(),
    {
        let p = done.pop().unwrap();
        posts.push(p);
    }
    assert(posts@ =~= cur);
    proof {
        if failed {
            lemma_chapters_stop(old_posts, cur, x as nat, n);
        }
        assert forall|r: int| 0 <= r < n implies if chapters_ok(old_posts, n - 1 - r) {
            fixed_post(old_posts[r], #[trigger] cur[r])
        } else {
            cur[r] == old_posts[r]
        } by {
            if r >= n - x {
                let j = n - 1 - r;
                assert(fixed_post(old_posts[n - 1 - j], made[j]));
                assert(chapters_ok(old_posts, j)) by {
                    assert forall|y: int| 0 <= y < j implies chapter_ok(
                        #[trigger] old_posts[old_posts.len() - 1 - y],
                    ) by {
                        assert(chapters_ok(old_posts, x - 1));
                    }
                }
            } else {
                if chapters_ok(old_posts, n - 1 - r) {
                    assert(chapters_ok(old_posts, x as int));
                }
            }
        }
    }
    (posts, !failed)
}

/// The steps before the chapters.
fn opening_actions() -> (actions: Vec<ArchiveAction>)
    ensures
        entries_of(actions) == opening_entries(),
{
    let mut actions: Vec<ArchiveAction> = Vec::new();
    action(
        ArchiveAction::WriteFile(owned("mimetype"), owned("application/epub+zip")),
        &mut actions,
    );
    action(ArchiveAction::AddDirectory(owned("META-INF")), &mut actions);
    action(ArchiveAction::AddDirectoryFromPath(owned("OEBPS/Styles")), &mut actions);
    action(ArchiveAction::AddDirectoryFromPath(owned("OEBPS/Text")), &mut actions);
    let container = container_document();
    action(
        ArchiveAction::WriteFile(owned("META-INF/container.xml"), container),
        &mut actions,
    );
    action(
        ArchiveAction::WriteStylesheet(owned("OEBPS/Styles/stylesheet.css")),
        &mut actions,
    );
    assert(entries_of(actions) =~= opening_entries());
    actions
}

/// The steps after the chapters.
fn closing_actions(creator: &Creator, title: &Title, actions: &mut Vec<ArchiveAction>)
    requires
        has_posts(*creator),
    ensures
        entries_of(*final(actions)) == entries_of(*old(actions)) + closing_entries(*creator, *title),
{
    let ghost start = entries_of(*actions);
    let toc = toc_document(creator);
    action(ArchiveAction::WriteFile(owned("OEBPS/toc.ncx"), toc), actions);
    let icon = icon_url_of(creator);
    let icon_path = image_path_of(icon.as_str());
    action(ArchiveAction::DownloadImage(icon, icon_path), actions);
    let cover = cover_document(creator);
    action(ArchiveAction::WriteFile(owned("OEBPS/Text/Cover.xhtml"), cover), actions);
    let content = content_document(creator, title);
    action(ArchiveAction::WriteFile(owned("OEBPS/content.opf"), content), actions);
    assert(entries_of(*actions) =~= start + closing_entries(*creator, *title));
}

impl EpubRequest {
    /// The EPUB file's name and the steps that fill it: the opening entries,
    /// then one chapter per post from the oldest (the last post) to the newest,
    /// each after the images of its post were rewritten and downloaded, then
    /// the table of contents, the cover and the package document. A chapter
    /// whose images cannot be rewritten ends the steps with `Fail`. The posts
    /// of the chapters tried are left rewritten.
    pub fn archive_plan(&mut self) -> (plan: EpubPlan)
        requires
            has_posts(old(self).creator),
        ensures
            ({
                let old_posts = posts_of(old(self).creator);
                let new_posts = posts_of(final(self).creator);
                &&& plan.file_name@ == book_title(old(self).creator, old(self).title, true)
                &&& final(self).title == old(self).title
                &&& final(self).creator.posts is Some
                &&& chapters_made(old_posts, new_posts)
                &&& final(self).creator.id == old(self).creator.id
                &&& final(self).creator.name == old(self).creator.name
                &&& final(self).creator.service == old(self).creator.service
                &&& final(self).creator.indexed == old(self).creator.indexed
                &&& final(self).creator.updated == old(self).creator.updated
                &&& final(self).creator.public_id == old(self).creator.public_id
                &&& final(self).creator.relation_id == old(self).creator.relation_id
                &&& entries_of(plan.actions) == opening_entries() + chapters_entries(
                    old_posts,
                    new_posts,
                    old_posts.len(),
                ) + if chapters_ok(old_posts, old_posts.len() as int) {
                    closing_entries(final(self).creator, final(self).title)
                } else {
                    Seq::empty()
                }
            }),
    {
        let file_name = match_title(&self.creator, &self.title, true);
        let mut actions = opening_actions();

        let posts = self.creator.posts.take().unwrap();
        let (posts, all_made) = chapters_actions(posts, &mut actions);
        self.creator.posts = Some(posts);
        let ghost middle = entries_of(actions);
        if all_made {
            closing_actions(&self.creator, &self.title, &mut actions);
        } else {
            assert(entries_of(actions) =~= middle + Seq::<Entry>::empty());
        }
        EpubPlan { file_name, actions }
    }
}

} // verus!
