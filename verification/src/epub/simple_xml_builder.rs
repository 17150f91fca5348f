//! A small XML element builder: an element has a title (its tag name),
//! attributes in insertion order, a text and child elements, and renders as
//! `<title a="v"...>text children</title>`, or `<title a="v".../>` when it has
//! neither text nor children. Nothing is escaped.

use vstd::prelude::*;
use crate::text::{owned, contains, matches_at, lemma_contains_within};

verus! {

/// The declaration that starts every rendered document.
pub open spec fn xml_declaration() -> Seq<char> {
    "<?xml version = \"1.0\" encoding = \"UTF-8\"?>"@
}

/// ` name="value"` for each attribute, in order.
pub open spec fn attributes_text(attrs: Seq<(Seq<char>, Seq<char>)>) -> Seq<char>
    decreases attrs.len(),
{
    if attrs.len() == 0 {
        Seq::empty()
    } else {
        attributes_text(attrs.drop_last()) + seq![' '] + attrs.last().0 + seq!['=', '"']
            + attrs.last().1 + seq!['"']
    }
}

/// The renderings of a sequence of elements, one after the other.
pub open spec fn render_all(cs: Seq<XMLElement>) -> Seq<char>
    decreases cs,
{
    if cs.len() == 0 {
        Seq::empty()
    } else {
        render_all(cs.drop_last()) + cs.last().render()
    }
}

/// An element's text from its parts, where `children` is the rendering of
/// its children one after the other.
pub open spec fn element_text(
    title: Seq<char>,
    attrs: Seq<(Seq<char>, Seq<char>)>,
    text: Seq<char>,
    children: Seq<char>,
) -> Seq<char> {
    let head = seq!['<'] + title + attributes_text(attrs);
    if text.len() == 0 && children.len() == 0 {
        head + seq!['/', '>']
    } else {
        head + seq!['>'] + text + children + seq!['<', '/'] + title + seq!['>']
    }
}

/// What occurs in an element's children occurs in the element.
pub proof fn lemma_element_contains(
    title: Seq<char>,
    attrs: Seq<(Seq<char>, Seq<char>)>,
    text: Seq<char>,
    children: Seq<char>,
    t: Seq<char>,
)
    requires
        contains(children, t),
        t.len() > 0,
    ensures
        contains(element_text(title, attrs, text, children), t),
{
    let i = choose|i: int| matches_at(children, t, i);
    assert(children.len() > 0);
    let a = seq!['<'] + title + attributes_text(attrs) + seq!['>'] + text;
    let b = seq!['<', '/'] + title + seq!['>'];
    lemma_contains_within(a, children, b, t);
    assert(element_text(title, attrs, text, children) =~= a + children + b);
}

/// An element without children.
pub open spec fn leaf_text(
    title: Seq<char>,
    attrs: Seq<(Seq<char>, Seq<char>)>,
    text: Seq<char>,
) -> Seq<char> {
    element_text(title, attrs, text, Seq::empty())
}

/// Rendering a sequence with one more element appends that element's rendering.
pub proof fn lemma_render_all_push(cs: Seq<XMLElement>, c: XMLElement)
    ensures
        render_all(cs.push(c)) == render_all(cs) + c.render(),
{
    assert(cs.push(c).drop_last() =~= cs);
}

/// Rendering no elements gives no text.
pub proof fn lemma_render_all_empty()
    ensures
        render_all(Seq::<XMLElement>::empty()) == Seq::<char>::empty(),
{
}

/// Rendering at least one element gives some text.
pub proof fn lemma_render_all_nonempty(cs: Seq<XMLElement>)
    ensures
        cs.len() > 0 <==> render_all(cs).len() > 0,
{
    if cs.len() > 0 {
        let l = cs.last();
        assert(l.render().len() > 0);
    }
}

pub struct XMLElement {
    special: String,
    children: Vec<XMLElement>,
    text: String,
    title: String,
    attributes: Vec<(String, String)>,
}

impl XMLElement {
    /// Text placed between the XML declaration and the root element.
    pub closed spec fn special_of(self) -> Seq<char> {
        self.special@
    }

    /// The tag name.
    pub closed spec fn title_of(self) -> Seq<char> {
        self.title@
    }

    /// The text content, rendered before the children.
    pub closed spec fn text_of(self) -> Seq<char> {
        self.text@
    }

    /// The attributes as (name, value) pairs, in the order they were added.
    pub closed spec fn attributes_of(self) -> Seq<(Seq<char>, Seq<char>)> {
        self.attributes@.map_values(|a: (String, String)| (a.0@, a.1@))
    }

    /// The child elements, in the order they were added.
    pub closed spec fn children_of(self) -> Seq<XMLElement> {
        self.children@
    }

    /// The element as XML text (without the declaration and the special text).
    pub open spec fn render(self) -> Seq<char>
        decreases self,
    {
        let head = seq!['<'] + self.title_of() + attributes_text(self.attributes_of());
        if self.text_of().len() == 0 && self.children_of().len() == 0 {
            head + seq!['/', '>']
        } else {
            proof {
                self.lemma_children_smaller();
            }
            head + seq!['>'] + self.text_of() + render_all(self.children_of()) + seq!['<', '/']
                + self.title_of() + seq!['>']
        }
    }

    /// The children of an element are smaller than it (for termination).
    pub proof fn lemma_children_smaller(self)
        ensures
            decreases_to!(self => self.children_of()),
    {
        assert(decreases_to!(self => self.children));
        assert(decreases_to!(self.children => self.children@));
    }

    /// An element renders from its tag name, attributes, text and children.
    pub proof fn lemma_render(self)
        ensures
            self.render() == element_text(
                self.title_of(),
                self.attributes_of(),
                self.text_of(),
                render_all(self.children_of()),
            ),
    {
        lemma_render_all_nonempty(self.children_of());
    }

    /// Adding a child renders it after the text and the earlier children, right
    /// before the closing tag.
    pub proof fn law_add_child(self, child: XMLElement, after: XMLElement)
        requires
            after.children_of() == self.children_of().push(child),
            after.title_of() == self.title_of(),
            after.attributes_of() == self.attributes_of(),
            after.text_of() == self.text_of(),
        ensures
            after.render() == seq!['<'] + self.title_of() + attributes_text(self.attributes_of())
                + seq!['>'] + self.text_of() + render_all(self.children_of()) + child.render()
                + seq!['<', '/'] + self.title_of() + seq!['>'],
    {
        lemma_render_all_push(self.children_of(), child);
        after.lemma_render();
        assert(after.children_of().len() > 0);
        lemma_render_all_nonempty(after.children_of());
    }

    /// A new element with the given tag name and nothing else.
    pub fn new(title: &str) -> (e: Self)
        ensures
            e.title_of() == title@,
            e.special_of() == Seq::<char>::empty(),
            e.text_of() == Seq::<char>::empty(),
            e.attributes_of() == Seq::<(Seq<char>, Seq<char>)>::empty(),
            e.children_of() == Seq::<XMLElement>::empty(),
    {
        let e = XMLElement {
            special: String::new(),
            children: Vec::new(),
            text: String::new(),
            title: owned(title),
            attributes: Vec::new(),
        };
        assert(e.attributes_of() =~= Seq::<(Seq<char>, Seq<char>)>::empty());
        e
    }

    /// Adds the attribute `name="value"` after the existing ones.
    pub fn add_attribute(&mut self, name: &str, value: &str)
        ensures
            final(self).attributes_of() == old(self).attributes_of().push((name@, value@)),
            final(self).title_of() == old(self).title_of(),
            final(self).text_of() == old(self).text_of(),
            final(self).special_of() == old(self).special_of(),
            final(self).children_of() == old(self).children_of(),
    {
        self.attributes.push((owned(name), owned(value)));
        assert(self.attributes_of() =~= old(self).attributes_of().push((name@, value@)));
    }

    /// Sets the text, replacing any earlier text.
    pub fn add_text(&mut self, text: &str)
        ensures
            final(self).text_of() == text@,
            final(self).title_of() == old(self).title_of(),
            final(self).special_of() == old(self).special_of(),
            final(self).attributes_of() == old(self).attributes_of(),
            final(self).children_of() == old(self).children_of(),
    {
        self.text = owned(text);
    }

    /// Sets the special text, replacing any earlier one.
    pub fn add_special(&mut self, special: &str)
        ensures
            final(self).special_of() == special@,
            final(self).title_of() == old(self).title_of(),
            final(self).text_of() == old(self).text_of(),
            final(self).attributes_of() == old(self).attributes_of(),
            final(self).children_of() == old(self).children_of(),
    {
        self.special = owned(special);
    }

    /// Adds `child` after the existing children.
    pub fn add_child(&mut self, child: XMLElement)
        ensures
            final(self).children_of() == old(self).children_of().push(child),
            final(self).title_of() == old(self).title_of(),
            final(self).text_of() == old(self).text_of(),
            final(self).special_of() == old(self).special_of(),
            final(self).attributes_of() == old(self).attributes_of(),
    {
        self.children.push(child);
    }

    /// The document: the XML declaration, the special text, then the element.
    pub fn to_string(&self) -> (s: String)
        ensures
            s@ == xml_declaration() + self.special_of() + self.render(),
    {
        let mut s = owned("<?xml version = \"1.0\" encoding = \"UTF-8\"?>");
        s.append(self.special.as_str());
        let attributes = self.format_attributes();
        let body = self.check_children_text(&attributes);
        s.append(body.as_str());
        s
    }

    /// The attributes as XML text; empty when there are none.
    fn format_attributes(&self) -> (s: String)
        ensures
            s@ == attributes_text(self.attributes_of()),
    {
        let mut s = String::new();
        let mut i: usize = 0;
        while i < self.attributes.len()
            invariant
                i <= self.attributes@.len(),
                s@ == attributes_text(self.attributes_of().take(i as int)),
            decreases self.attributes@.len() - i,
        {
            let ghost before = s@;
            let a = &self.attributes[i];
            s.append(" ");
            s.append(a.0.as_str());
            s.append("=\"");
            s.append(a.1.as_str());
            s.append("\"");
            proof {
                reveal_strlit(" ");
                reveal_strlit("=\"");
                reveal_strlit("\"");
                let attrs = self.attributes_of();
                assert(attrs.take(i + 1).drop_last() =~= attrs.take(i as int));
                assert(s@ =~= attributes_text(attrs.take(i + 1)));
            }
            i += 1;
        }
        assert(self.attributes_of().take(i as int) =~= self.attributes_of());
        s
    }

    /// The element as XML text, given its attributes already formatted.
    fn check_children_text(&self, attributes: &String) -> (s: String)
        requires
            attributes@ == attributes_text(self.attributes_of()),
        ensures
            s@ == self.render(),
        decreases self, 1nat,
    {
        let mut s = owned("<");
        s.append(self.title.as_str());
        s.append(attributes.as_str());
        if self.text.as_str().is_empty() && self.children.len() == 0 {
            s.append("/>");
            proof {
                reveal_strlit("<");
                reveal_strlit("/>");
                assert(s@ =~= self.render());
            }
        } else {
            s.append(">");
            s.append(self.text.as_str());
            let children = self.make_children();
            s.append(children.as_str());
            s.append("</");
            s.append(self.title.as_str());
            s.append(">");
            proof {
                reveal_strlit("<");
                reveal_strlit(">");
                reveal_strlit("</");
                assert(s@ =~= self.render());
            }
        }
        s
    }

    /// The children as XML text, one after the other; empty when there are none.
    fn make_children(&self) -> (s: String)
        ensures
            s@ == render_all(self.children_of()),
        decreases self, 0nat,
    {
        let mut s = String::new();
        let mut i: usize = 0;
        while i < self.children.len()
            invariant
                i <= self.children@.len(),
                s@ == render_all(self.children_of().take(i as int)),
            decreases self.children@.len() - i,
        {
            let child = &self.children[i];
            proof {
                assert(decreases_to!(self => self.children));
                assert(decreases_to!(self.children => self.children@));
                assert(decreases_to!(self.children@ => self.children@[i as int]));
            }
            let attributes = child.format_attributes();
            let body = child.check_children_text(&attributes);
            s.append(body.as_str());
            proof {
                let cs = self.children_of();
                assert(cs.take(i + 1).drop_last() =~= cs.take(i as int));
                assert(cs.take(i + 1).last() == cs[i as int]);
            }
            i += 1;
        }
        assert(self.children_of().take(i as int) =~= self.children_of());
        s
    }
}

} // verus!
