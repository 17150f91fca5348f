//! Rewriting the `<img ...>` tags of a post so that they point into the book's
//! `Images/` folder, and collecting the addresses of the images to download.
//!
//! The search works on byte offsets, as `str` indices do: after the first tag,
//! each search starts 4 bytes past an offset that grows by the byte position of
//! every tag found. A search that would start inside a character or past the
//! end fails, as does an offset that leaves `usize`.

use vstd::prelude::*;
use crate::text::{find_from, replace_all, byte_len, count, find_in, chars_of, string_of,
    replace_str, count_in, byte_offset, utf8_width, owned, lemma_find_from, matches_at};
use crate::epub::Post;

verus! {

/// The character index whose byte offset in `s` is `b`, if there is one.
pub open spec fn char_at_byte(s: Seq<char>, b: int) -> Option<int> {
    if exists|k: int| 0 <= k <= s.len() && byte_len(s.take(k)) == b {
        Some(choose|k: int| 0 <= k <= s.len() && byte_len(s.take(k)) == b)
    } else {
        None
    }
}

/// An image tag rewritten: `/` becomes `_`, `:` becomes `-`, `>` becomes
/// ` alt="" />` and `http` becomes `/Images/http`, so that the address names a
/// file in `Images/` and the tag closes itself.
pub open spec fn rewrite_tag(tag: Seq<char>) -> Seq<char> {
    let a = replace_all(tag, "/"@, "_"@);
    let b = replace_all(a, ":"@, "-"@);
    let c = replace_all(b, ">"@, " alt=\"\" />"@);
    replace_all(c, "http"@, "/Images/http"@)
}

/// The next image tag from byte offset `search` on: the tag's first character,
/// the index after its `>`, and where its `src="..."` address starts and ends.
pub open spec fn find_image(c: Seq<char>, search: int) -> Option<(int, int, int, int)> {
    match char_at_byte(c, search) {
        None => None,
        Some(k) => match find_from(c, "<img"@, k) {
            None => None,
            Some(start) => match find_from(c, ">"@, start) {
                None => None,
                Some(gt) => match find_from(c, "src=\""@, start) {
                    None => None,
                    Some(sp) => match find_from(c, "\""@, sp + 5) {
                        None => None,
                        Some(url_end) => Some((start, gt + 1, sp + 5, url_end)),
                    },
                },
            },
        },
    }
}

/// Rewrites `n` more image tags of `c`, searching from byte offset `search`.
/// Gives the content, the addresses found in order, and whether every step
/// succeeded. An address is given before the offset that follows it is checked.
pub open spec fn fix_images_from(c: Seq<char>, search: int, n: nat) -> (
    Seq<char>,
    Seq<Seq<char>>,
    bool,
)
    decreases n,
{
    if n == 0 {
        (c, Seq::empty(), true)
    } else {
        match find_image(c, search) {
            None => (c, Seq::empty(), false),
            Some((start, end, url_start, url_end)) => {
                let url = c.subrange(url_start, url_end);
                let offset = search + byte_len(c.take(start));
                if offset > usize::MAX {
                    (c, seq![url], false)
                } else {
                    let c2 = c.take(start) + rewrite_tag(c.subrange(start, end)) + c.skip(end);
                    if n == 1 {
                        (c2, seq![url], true)
                    } else if offset + 4 > usize::MAX {
                        (c2, seq![url], false)
                    } else {
                        let r = fix_images_from(c2, offset + 4, (n - 1) as nat);
                        (r.0, seq![url] + r.1, r.2)
                    }
                }
            },
        }
    }
}

/// All image tags of a post's content rewritten: as many steps as `<img`
/// occurs in the content, the first searching from its start.
pub open spec fn fix_images(c: Seq<char>) -> (Seq<char>, Seq<Seq<char>>, bool) {
    fix_images_from(c, 0, count(c, "<img"@))
}

proof fn lemma_fix_images_from_count(c: Seq<char>, search: int, n: nat)
    ensures
        fix_images_from(c, search, n).1.len() <= n,
        fix_images_from(c, search, n).2 ==> fix_images_from(c, search, n).1.len() == n,
    decreases n,
{
    if n > 0 {
        if let Some((start, end, url_start, url_end)) = find_image(c, search) {
            let offset = search + byte_len(c.take(start));
            let c2 = c.take(start) + rewrite_tag(c.subrange(start, end)) + c.skip(end);
            if offset <= usize::MAX && n > 1 && offset + 4 <= usize::MAX {
                lemma_fix_images_from_count(c2, offset + 4, (n - 1) as nat);
            }
        }
    }
}

/// At most one image address per `<img` in the content; exactly one each
/// when all tags could be rewritten.
pub proof fn law_one_address_per_tag(c: Seq<char>)
    ensures
        fix_images(c).1.len() <= count(c, "<img"@),
        fix_images(c).2 ==> fix_images(c).1.len() == count(c, "<img"@),
{
    lemma_fix_images_from_count(c, 0, count(c, "<img"@));
}

/// The extra files of a post as character sequences.
pub open spec fn extras_view(o: Option<Vec<String>>) -> Option<Seq<Seq<char>>> {
    match o {
        Some(v) => Some(v@.map_values(|s: String| s@)),
        None => None,
    }
}

/// The extra files after the addresses `urls` were added, one by one.
pub open spec fn extras_after(o: Option<Seq<Seq<char>>>, urls: Seq<Seq<char>>) -> Option<
    Seq<Seq<char>>,
> {
    if urls.len() == 0 {
        o
    } else {
        match o {
            Some(v) => Some(v + urls),
            None => Some(urls),
        }
    }
}

/// Recording addresses keeps the earlier extra files (none if unset) and adds
/// every address after them, in order: the list grows by the number of
/// addresses.
pub proof fn law_extras_record_every_address(o: Option<Seq<Seq<char>>>, urls: Seq<Seq<char>>)
    ensures
        urls.len() > 0 ==> ({
            let before = match o {
                Some(v) => v,
                None => Seq::<Seq<char>>::empty(),
            };
            &&& extras_after(o, urls) is Some
            &&& extras_after(o, urls)->0.len() == before.len() + urls.len()
            &&& forall|i: int| 0 <= i < before.len() ==> extras_after(o, urls)->0[i] == before[i]
            &&& forall|j: int|
                0 <= j < urls.len() ==> extras_after(o, urls)->0[before.len() + j] == urls[j]
        }),
        urls.len() == 0 ==> extras_after(o, urls) == o,
{
    if urls.len() > 0 {
        if o is None {
            assert(Seq::<Seq<char>>::empty() + urls =~= urls);
        }
    }
}

/// Two posts agree on everything but their content and extra files.
pub open spec fn same_but_images(a: Post, b: Post) -> bool {
    &&& a.id == b.id
    &&& a.user == b.user
    &&& a.service == b.service
    &&& a.title == b.title
    &&& a.embed == b.embed
    &&& a.shared_file == b.shared_file
    &&& a.added == b.added
    &&& a.published == b.published
    &&& a.edited == b.edited
    &&& a.file == b.file
    &&& a.attachments == b.attachments
    &&& a.poll == b.poll
    &&& a.captions == b.captions
    &&& a.tags == b.tags
}

// ---------------------------------------------------------------------------
// Byte offsets
// ---------------------------------------------------------------------------

proof fn lemma_scalar_width(c: char)
    ensures
        1 <= vstd::utf8::encode_scalar(c as u32).len() <= 4,
{
}

/// Byte offsets of character indices strictly increase.
proof fn lemma_byte_len_increasing(s: Seq<char>, i: int, j: int)
    requires
        0 <= i < j <= s.len(),
    ensures
        byte_len(s.take(i)) + (j - i) <= byte_len(s.take(j)),
    decreases j - i,
{
    crate::text::lemma_byte_len_take(s, j - 1);
    lemma_scalar_width(s[j - 1]);
    if i < j - 1 {
        lemma_byte_len_increasing(s, i, j - 1);
    }
}

/// The character index at byte offset `b`, if `b` falls between characters.
fn char_index_at(c: &Vec<char>, b: u128) -> (r: Option<usize>)
    ensures
        r matches Some(k) ==> char_at_byte(c@, b as int) == Some(k as int),
        r is None ==> char_at_byte(c@, b as int) is None,
{
    let mut acc: u128 = 0;
    let mut i: usize = 0;
    assert(c@.take(0) =~= Seq::<char>::empty());
    assert(vstd::utf8::encode_utf8(Seq::<char>::empty()) =~= Seq::<u8>::empty());
    while i < c.len() && acc < b
        invariant
            i <= c.len(),
            acc == byte_len(c@.take(i as int)),
            acc <= 4 * i,
            forall|k: int| 0 <= k < i ==> byte_len(c@.take(k)) < b,
        decreases c.len() - i,
    {
        let w = utf8_width(c[i]);
        proof {
            crate::text::lemma_byte_len_take(c@, i as int);
        }
        acc = acc + w;
        i += 1;
    }
    if acc == b {
        proof {
            assert(0 <= i <= c@.len() && byte_len(c@.take(i as int)) == b);
            let k = choose|k: int| 0 <= k <= c@.len() && byte_len(c@.take(k)) == b;
            if k < i {
                lemma_byte_len_increasing(c@, k, i as int);
            } else if k > i {
                lemma_byte_len_increasing(c@, i as int, k);
            }
        }
        Some(i)
    } else {
        proof {
            assert forall|k: int| 0 <= k <= c@.len() implies byte_len(c@.take(k)) != b by {
                if k > i {
                    lemma_byte_len_increasing(c@, i as int, k);
                }
            }
        }
        None
    }
}

// ---------------------------------------------------------------------------
// Executable steps
// ---------------------------------------------------------------------------

/// `c[..start] + mid + c[end..]`.
fn splice(c: &Vec<char>, start: usize, end: usize, mid: &Vec<char>) -> (r: Vec<char>)
    requires
        start <= end <= c.len(),
    ensures
        r@ == c@.take(start as int) + mid@ + c@.skip(end as int),
{
    let mut r: Vec<char> = Vec::new();
    let mut i: usize = 0;
    while i < start
        invariant
            i <= start <= end <= c.len(),
            r@ == c@.take(i as int),
        decreases start - i,
    {
        r.push(c[i]);
        assert(c@.take(i + 1) =~= c@.take(i as int).push(c@[i as int]));
        i += 1;
    }
    let mut j: usize = 0;
    while j < mid.len()
        invariant
            i == start,
            j <= mid.len(),
            r@ == c@.take(start as int) + mid@.take(j as int),
        decreases mid.len() - j,
    {
        r.push(mid[j]);
        assert(mid@.take(j + 1) =~= mid@.take(j as int).push(mid@[j as int]));
        assert(c@.take(start as int) + mid@.take(j + 1) =~= (c@.take(start as int) + mid@.take(
            j as int,
        )).push(mid@[j as int]));
        j += 1;
    }
    assert(mid@.take(j as int) =~= mid@);
    let mut k: usize = end;
    while k < c.len()
        invariant
            end <= k <= c.len(),
            r@ == c@.take(start as int) + mid@ + c@.subrange(end as int, k as int),
        decreases c.len() - k,
    {
        r.push(c[k]);
        assert(c@.subrange(end as int, k + 1) =~= c@.subrange(end as int, k as int).push(
            c@[k as int],
        ));
        assert(c@.take(start as int) + mid@ + c@.subrange(end as int, k + 1) =~= (c@.take(
            start as int,
        ) + mid@ + c@.subrange(end as int, k as int)).push(c@[k as int]));
        k += 1;
    }
    assert(c@.subrange(end as int, k as int) =~= c@.skip(end as int));
    r
}

/// The rewritten tag `c[start..end]`.
fn rewrite_tag_in(c: &Vec<char>, start: usize, end: usize) -> (r: Vec<char>)
    requires
        start <= end <= c.len(),
    ensures
        r@ == rewrite_tag(c@.subrange(start as int, end as int)),
{
    proof {
        reveal_strlit("/");
        reveal_strlit(":");
        reveal_strlit(">");
        reveal_strlit("http");
    }
    let tag = string_of(c, start, end);
    let a = replace_str(tag.as_str(), "/", "_");
    let b = replace_str(a.as_str(), ":", "-");
    let d = replace_str(b.as_str(), ">", " alt=\"\" />");
    let e = replace_str(d.as_str(), "http", "/Images/http");
    chars_of(e.as_str())
}

/// The next image tag from byte offset `search` on.
fn find_image_in(c: &Vec<char>, search: u128) -> (r: Option<(usize, usize, usize, usize)>)
    ensures
        r matches Some((a, b, d, e)) ==> find_image(c@, search as int) == Some(
            (a as int, b as int, d as int, e as int),
        ) && a < b <= c.len() && d <= e <= c.len(),
        r is None ==> find_image(c@, search as int) is None,
{
    proof {
        reveal_strlit("<img");
        reveal_strlit(">");
        reveal_strlit("src=\"");
        reveal_strlit("\"");
        assert(">"@.len() == 1);
        assert("src=\""@.len() == 5);
    }
    let k = match char_index_at(c, search) {
        None => return None,
        Some(k) => k,
    };
    let img = chars_of("<img");
    let gt_pat = chars_of(">");
    let src_pat = chars_of("src=\"");
    let quote = chars_of("\"");
    let start = match find_in(c, &img, k) {
        None => return None,
        Some(s) => s,
    };
    let gt = match find_in(c, &gt_pat, start) {
        None => return None,
        Some(g) => g,
    };
    proof {
        lemma_find_from(c@, ">"@, start as int);
    }
    let sp = match find_in(c, &src_pat, start) {
        None => return None,
        Some(p) => p,
    };
    proof {
        lemma_find_from(c@, "src=\""@, start as int);
        assert(matches_at(c@, "src=\""@, sp as int));
        assert(matches_at(c@, ">"@, gt as int));
        assert(sp + "src=\""@.len() <= c@.len());
        assert(sp + 5 <= c.len());
    }
    let url_end = match find_in(c, &quote, sp + 5) {
        None => return None,
        Some(e) => e,
    };
    proof {
        lemma_find_from(c@, "\""@, sp + 5);
        assert(matches_at(c@, "\""@, url_end as int));
    }
    Some((start, gt + 1, sp + 5, url_end))
}

/// Rewrites `n` more image tags of `c`, searching from byte offset `search`.
fn fix_images_in(c: Vec<char>, search: u128, n: usize) -> (r: (Vec<char>, Vec<String>, bool))
    requires
        search <= usize::MAX,
    ensures
        (r.0@, r.1@.map_values(|s: String| s@), r.2) == fix_images_from(c@, search as int, n as nat),
    decreases n,
{
    if n == 0 {
        let urls: Vec<String> = Vec::new();
        assert(urls@.map_values(|s: String| s@) =~= Seq::<Seq<char>>::empty());
        return (c, urls, true);
    }
    let (start, end, url_start, url_end) = match find_image_in(&c, search) {
        None => {
            let urls: Vec<String> = Vec::new();
            assert(urls@.map_values(|s: String| s@) =~= Seq::<Seq<char>>::empty());
            return (c, urls, false);
        },
        Some(f) => f,
    };
    let mut urls: Vec<String> = Vec::new();
    urls.push(string_of(&c, url_start, url_end));
    let ghost url = c@.subrange(url_start as int, url_end as int);
    assert(urls@.map_values(|s: String| s@) =~= seq![url]);
    let offset = search + byte_offset(&c, start);
    if offset > usize::MAX as u128 {
        return (c, urls, false);
    }
    let tag = rewrite_tag_in(&c, start, end);
    let c2 = splice(&c, start, end, &tag);
    if n == 1 {
        return (c2, urls, true);
    }
    if offset + 4 > usize::MAX as u128 {
        return (c2, urls, false);
    }
    let (c3, mut rest, ok) = fix_images_in(c2, offset + 4, n - 1);
    let ghost rest_view = rest@.map_values(|s: String| s@);
    urls.append(&mut rest);
    assert(urls@.map_values(|s: String| s@) =~= seq![url] + rest_view);
    (c3, urls, ok)
}

impl Post {
    /// Rewrites the post's image tags to point into `Images/` and records each
    /// image's address in its extra files. Gives the addresses to download, in
    /// order, and whether all tags could be rewritten; when not, the addresses
    /// given are those found before the step that failed, and the content is
    /// left as it was before that step.
    pub fn fix_img(&mut self) -> (r: (Vec<String>, bool))
        ensures
            ({
                let res = fix_images(old(self).content@);
                &&& final(self).content@ == res.0
                &&& r.0@.map_values(|s: String| s@) == res.1
                &&& r.1 == res.2
                &&& extras_view(final(self).opf_extras) == extras_after(
                    extras_view(old(self).opf_extras),
                    res.1,
                )
                &&& same_but_images(*old(self), *final(self))
                &&& res.1.len() > 0 ==> ({
                    let before = match old(self).opf_extras {
                        Some(v) => v@,
                        None => Seq::<String>::empty(),
                    };
                    &&& final(self).opf_extras matches Some(v) && v@.len() == before.len()
                        + res.1.len() && (forall|i: int|
                        0 <= i < before.len() ==> v@[i]@ == before[i]@) && (forall|j: int|
                        0 <= j < res.1.len() ==> v@[before.len() + j]@ == res.1[j])
                })
            }),
    {
        let ghost old_opf = self.opf_extras;
        let c = chars_of(self.content.as_str());
        let img = chars_of("<img");
        proof {
            reveal_strlit("<img");
        }
        let n = count_in(&c, &img);
        let (c2, urls, ok) = fix_images_in(c, 0, n);
        self.content = string_of(&c2, 0, c2.len());
        assert(c2@.subrange(0, c2@.len() as int) =~= c2@);
        if urls.len() > 0 {
            let ghost old_extras = extras_view(self.opf_extras);
            let mut i: usize = 0;
            let mut extras: Vec<String> = match self.opf_extras.take() {
                Some(v) => v,
                None => Vec::new(),
            };
            let ghost start = extras@.map_values(|s: String| s@);
            while i < urls.len()
                invariant
                    i <= urls@.len(),
                    extras@.map_values(|s: String| s@) == start + urls@.map_values(
                        |s: String| s@,
                    ).take(i as int),
                decreases urls@.len() - i,
            {
                let ghost prev = extras@;
                extras.push(owned(urls[i].as_str()));
                assert(extras@.map_values(|s: String| s@) =~= prev.map_values(|s: String| s@).push(
                    urls@[i as int]@,
                ));
                assert(urls@.map_values(|s: String| s@).take(i + 1) =~= urls@.map_values(
                    |s: String| s@,
                ).take(i as int).push(urls@[i as int]@));
                assert(extras@.map_values(|s: String| s@) =~= start + urls@.map_values(
                    |s: String| s@,
                ).take(i + 1));
                i += 1;
            }
            assert(urls@.map_values(|s: String| s@).take(i as int) =~= urls@.map_values(
                |s: String| s@,
            ));
            self.opf_extras = Some(extras);
        }
        proof {
            let uv = urls@.map_values(|s: String| s@);
            law_extras_record_every_address(extras_view(old_opf), uv);
            if uv.len() > 0 {
                let before = match old_opf {
                    Some(v) => v@,
                    None => Seq::<String>::empty(),
                };
                let bv = match extras_view(old_opf) {
                    Some(v) => v,
                    None => Seq::<Seq<char>>::empty(),
                };
                assert(bv.len() == before.len());
                assert forall|i: int| 0 <= i < before.len() implies bv[i] == before[i]@ by {}
                let ev = extras_after(extras_view(old_opf), uv)->0;
                assert(self.opf_extras is Some);
                let fv = self.opf_extras->0@;
                assert(fv.map_values(|s: String| s@) == ev);
                assert(fv.len() == ev.len());
                assert forall|i: int| 0 <= i < before.len() implies fv[i]@ == before[i]@ by {
                    assert(fv.map_values(|s: String| s@)[i] == fv[i]@);
                }
                assert forall|j: int| 0 <= j < uv.len() implies fv[before.len() + j]@ == uv[j] by {
                    assert(fv.map_values(|s: String| s@)[before.len() + j] == fv[before.len()
                        + j]@);
                }
            }
        }
        (urls, ok)
    }
}

} // verus!
