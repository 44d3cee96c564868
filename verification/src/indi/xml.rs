//! XML messages as plain values.

use crate::text::{chars_of, find, lemma_find, occurs_at, position_of, same_text, stands_at};
use roxmltree::Document;
use vstd::prelude::*;
use vstd::slice::slice_subrange;
use vstd::utf8::encode_utf8;

verus! {

/// An attribute, with the address of its namespace where it has one.
#[derive(Debug)]
pub struct XmlAttribute {
    pub namespace: Option<String>,
    pub name: String,
    pub value: String,
}

/// A child node of the root element.
#[derive(Debug)]
pub struct XmlChild {
    pub is_element: bool,
    pub attributes: Vec<XmlAttribute>,
    /// The text that the node begins with.
    pub text: Option<String>,
}

/// The root element of a message.
#[derive(Debug)]
pub struct XmlMessage {
    pub tag: String,
    pub attributes: Vec<XmlAttribute>,
    pub children: Vec<XmlChild>,
}

/// The texts of an attribute.
pub struct AttributeView {
    pub namespace: Option<Seq<char>>,
    pub name: Seq<char>,
    pub value: Seq<char>,
}

/// The texts of a child node.
pub struct ChildView {
    pub is_element: bool,
    pub attributes: Seq<AttributeView>,
    pub text: Option<Seq<char>>,
}

/// The texts of a message.
pub struct XmlView {
    pub tag: Seq<char>,
    pub attributes: Seq<AttributeView>,
    pub children: Seq<ChildView>,
}

impl View for XmlAttribute {
    type V = AttributeView;

    open spec fn view(&self) -> AttributeView {
        AttributeView {
            namespace: match self.namespace {
                Some(n) => Some(n@),
                None => None,
            },
            name: self.name@,
            value: self.value@,
        }
    }
}

/// The texts of attributes.
pub open spec fn attribute_views(a: Seq<XmlAttribute>) -> Seq<AttributeView> {
    Seq::new(a.len(), |i: int| a[i]@)
}

impl View for XmlChild {
    type V = ChildView;

    open spec fn view(&self) -> ChildView {
        ChildView {
            is_element: self.is_element,
            attributes: attribute_views(self.attributes@),
            text: match self.text {
                Some(t) => Some(t@),
                None => None,
            },
        }
    }
}

/// The texts of child nodes.
pub open spec fn child_views(c: Seq<XmlChild>) -> Seq<ChildView> {
    Seq::new(c.len(), |i: int| c[i]@)
}

impl View for XmlMessage {
    type V = XmlView;

    open spec fn view(&self) -> XmlView {
        XmlView {
            tag: self.tag@,
            attributes: attribute_views(self.attributes@),
            children: child_views(self.children@),
        }
    }
}

/// How many elements of a message may stand one within another. The parser
/// calls itself once for each of them, and the two megabytes of stack that a
/// thread has hold little more of these calls.
pub const MAX_NESTING: u64 = 256;

/// Where the tag that goes on at `i` ends: behind the first `>` that does not
/// stand in quotes. `quote` is the quote that is open at `i`.
pub open spec fn tag_end(s: Seq<char>, i: int, quote: Option<char>) -> int
    decreases s.len() - i,
{
    if i < 0 || i >= s.len() {
        s.len() as int
    } else {
        match quote {
            Some(q) => tag_end(
                s,
                i + 1,
                if s[i] == q {
                    None
                } else {
                    quote
                },
            ),
            None => if s[i] == '>' {
                i + 1
            } else if s[i] == '"' || s[i] == '\'' {
                tag_end(s, i + 1, Some(s[i]))
            } else {
                tag_end(s, i + 1, None)
            },
        }
    }
}

/// Where what goes on at `i` and is closed by `mark` ends.
pub open spec fn closed_at(s: Seq<char>, i: int, mark: Seq<char>) -> int {
    match find(s.skip(i), mark) {
        Some(k) => i + k + mark.len(),
        None => s.len() as int,
    }
}

/// Where the comment, the section of plain characters or the instruction that
/// begins at `i` ends.
pub open spec fn aside_end(s: Seq<char>, i: int) -> Option<int> {
    if occurs_at(s, "<!--"@, i) {
        Some(closed_at(s, i + "<!--"@.len(), "-->"@))
    } else if occurs_at(s, "<![CDATA["@, i) {
        Some(closed_at(s, i + "<![CDATA["@.len(), "]]>"@))
    } else if occurs_at(s, "<?"@, i) {
        Some(closed_at(s, i + "<?"@.len(), "?>"@))
    } else {
        None
    }
}

pub proof fn lemma_tag_end(s: Seq<char>, i: int, quote: Option<char>)
    requires
        0 <= i <= s.len(),
    ensures
        i <= tag_end(s, i, quote) <= s.len(),
    decreases s.len() - i,
{
    if i < s.len() {
        match quote {
            Some(q) => {
                lemma_tag_end(
                    s,
                    i + 1,
                    if s[i] == q {
                        None
                    } else {
                        quote
                    },
                );
            },
            None => {
                if s[i] == '"' || s[i] == '\'' {
                    lemma_tag_end(s, i + 1, Some(s[i]));
                } else if s[i] != '>' {
                    lemma_tag_end(s, i + 1, None);
                }
            },
        }
    }
}

pub proof fn lemma_aside_end(s: Seq<char>, i: int)
    ensures
        aside_end(s, i) matches Some(e) ==> 0 <= i < e <= s.len(),
{
    reveal_strlit("<!--");
    reveal_strlit("<![CDATA[");
    reveal_strlit("<?");
    lemma_find(s.skip(i + "<!--"@.len()), "-->"@);
    lemma_find(s.skip(i + "<![CDATA["@.len()), "]]>"@);
    lemma_find(s.skip(i + "<?"@.len()), "?>"@);
}

/// From `i` on, where `depth` elements are open, never more than `limit`
/// elements are open at once.
pub open spec fn nests_within(s: Seq<char>, i: int, depth: int, limit: int) -> bool
    decreases s.len() - i,
{
    proof {
        lemma_aside_end(s, i);
        if 0 <= i < s.len() {
            lemma_tag_end(s, i + 1, None);
        }
    }
    if i < 0 || i >= s.len() {
        true
    } else if s[i] != '<' {
        nests_within(s, i + 1, depth, limit)
    } else {
        match aside_end(s, i) {
            Some(e) => nests_within(s, e, depth, limit),
            None => if i + 1 < s.len() && s[i + 1] == '/' {
                nests_within(s, i + 1, depth - 1, limit)
            } else {
                let e = tag_end(s, i + 1, None);
                depth < limit && nests_within(
                    s,
                    e,
                    if e >= 2 && s[e - 2] == '/' {
                        depth
                    } else {
                        depth + 1
                    },
                    limit,
                )
            },
        }
    }
}

/// The elements of the text do not stand too deep one within another.
pub open spec fn nests_flat(s: Seq<char>) -> bool {
    nests_within(s, 0, 0, MAX_NESTING as int)
}

fn find_tag_end(s: &Vec<char>, from: usize) -> (r: usize)
    requires
        from <= s@.len(),
    ensures
        r == tag_end(s@, from as int, None),
        from <= r <= s@.len(),
{
    let n = s.len();
    let mut i: usize = from;
    let mut quote: Option<char> = None;
    while i < n
        invariant
            from <= i <= n == s@.len(),
            tag_end(s@, from as int, None) == tag_end(s@, i as int, quote),
        decreases n - i,
    {
        match quote {
            Some(q) => {
                if s[i] == q {
                    quote = None;
                }
            },
            None => {
                if s[i] == '>' {
                    return i + 1;
                }
                if s[i] == '"' || s[i] == '\'' {
                    quote = Some(s[i]);
                }
            },
        }
        i = i + 1;
    }
    n
}

fn find_close(s: &Vec<char>, from: usize, mark: &str) -> (r: usize)
    requires
        from <= s@.len(),
    ensures
        r == closed_at(s@, from as int, mark@),
        from <= r <= s@.len(),
{
    let n = s.len();
    let rest = slice_subrange(s.as_slice(), from, n);
    assert(rest@ =~= s@.skip(from as int));
    let m = chars_of(mark);
    match position_of(rest, m.as_slice()) {
        Some(k) => {
            proof {
                lemma_find(rest@, m@);
            }
            from + k + m.len()
        },
        None => n,
    }
}

fn find_aside_end(s: &Vec<char>, i: usize) -> (r: Option<usize>)
    ensures
        match r {
            Some(e) => aside_end(s@, i as int) == Some(e as int) && i < e <= s@.len(),
            None => aside_end(s@, i as int) is None,
        },
{
    let n = s.len();
    proof {
        lemma_aside_end(s@, i as int);
        assert(n == s@.len());
    }
    let comment = chars_of("<!--");
    if stands_at(s.as_slice(), comment.as_slice(), i) {
        return Some(find_close(s, i + comment.len(), "-->"));
    }
    let section = chars_of("<![CDATA[");
    if stands_at(s.as_slice(), section.as_slice(), i) {
        return Some(find_close(s, i + section.len(), "]]>"));
    }
    let instruction = chars_of("<?");
    if stands_at(s.as_slice(), instruction.as_slice(), i) {
        return Some(find_close(s, i + instruction.len(), "?>"));
    }
    None
}

/// The parser can be handed the text: it counts in 32 bits, and its stack is
/// limited.
pub open spec fn parseable(text: Seq<char>) -> bool {
    encode_utf8(text).len() <= u32::MAX && nests_flat(text)
}

/// Whether the parser can be handed the text.
pub fn can_parse(text: &str) -> (r: bool)
    ensures
        r == parseable(text@),
{
    text.as_bytes().len() as u64 <= 0xffff_ffff && is_flat(text)
}

/// Whether the elements of the text do not stand too deep one within another.
pub fn is_flat(text: &str) -> (r: bool)
    ensures
        r == nests_flat(text@),
{
    let s = chars_of(text);
    let n = s.len();
    let mut i: usize = 0;
    let mut depth: i128 = 0;
    while i < n
        invariant
            i <= n == s@.len(),
            s@ == text@,
            -i <= depth <= MAX_NESTING,
            nests_within(s@, 0, 0, MAX_NESTING as int) == nests_within(
                s@,
                i as int,
                depth as int,
                MAX_NESTING as int,
            ),
        decreases n - i,
    {
        if s[i] != '<' {
            i = i + 1;
        } else {
            match find_aside_end(&s, i) {
                Some(e) => {
                    i = e;
                },
                None => {
                    if i + 1 < n && s[i + 1] == '/' {
                        i = i + 1;
                        depth = depth - 1;
                    } else {
                        if depth >= MAX_NESTING as i128 {
                            return false;
                        }
                        let e = find_tag_end(&s, i + 1);
                        if e < 2 || s[e - 2] != '/' {
                            depth = depth + 1;
                        }
                        i = e;
                    }
                },
            }
        }
    }
    true
}

/// The root element of an XML document, or why the text is no document: what
/// `roxmltree::Document::parse` finds.
pub uninterp spec fn xml_of(text: Seq<char>) -> Result<XmlView, Seq<char>>;

/// `roxmltree::Document::parse`: the root element of the document with its
/// attributes, its child nodes and their attributes, or the text of the error.
/// What the parser makes of a text is a function of the text; which texts are
/// documents, and what their root element is, is left to the parser. The parser
/// counts in 32 bits, and it calls itself for each element within another, so
/// that the length and the nesting of a text are bounded.
#[verifier::external_body]
pub(crate) fn parse_xml(text: &str) -> (r: Result<XmlMessage, String>)
    requires
        parseable(text@),
    ensures
        match r {
            Ok(m) => xml_of(text@) == Ok::<XmlView, Seq<char>>(m@),
            Err(e) => xml_of(text@) == Err::<XmlView, Seq<char>>(e@),
        },
{
    let doc = Document::parse(text).map_err(|e| e.to_string())?;
    let attribute = |a: roxmltree::Attribute| XmlAttribute {
        namespace: a.namespace().map(str::to_owned),
        name: a.name().to_owned(),
        value: a.value().to_owned(),
    };
    let child = |c: roxmltree::Node| XmlChild {
        is_element: c.is_element(),
        attributes: c.attributes().map(attribute).collect(),
        text: c.text().map(str::to_owned),
    };
    let root = doc.root_element();
    let tag = root.tag_name().name().to_owned();
    let children = root.children().map(child).collect();
    Ok(XmlMessage { tag, attributes: root.attributes().map(attribute).collect(), children })
}

/// The value of the attribute with this name and without a namespace.
pub open spec fn attribute(attributes: Seq<AttributeView>, name: Seq<char>) -> Option<Seq<char>>
    decreases attributes.len(),
{
    if attributes.len() == 0 {
        None
    } else if attributes[0].namespace is None && attributes[0].name == name {
        Some(attributes[0].value)
    } else {
        attribute(attributes.skip(1), name)
    }
}

/// The value of the attribute, or a default.
pub open spec fn attribute_or(
    attributes: Seq<AttributeView>,
    name: Seq<char>,
    default: Seq<char>,
) -> Seq<char> {
    match attribute(attributes, name) {
        Some(v) => v,
        None => default,
    }
}

/// The value of the attribute with this name and without a namespace.
pub fn attribute_value(attributes: &Vec<XmlAttribute>, name: &str) -> (r: Option<String>)
    ensures
        match r {
            Some(v) => attribute(attribute_views(attributes@), name@) == Some(v@),
            None => attribute(attribute_views(attributes@), name@) is None,
        },
{
    let ghost all = attribute_views(attributes@);
    let n = attributes.len();
    let mut i: usize = 0;
    assert(all.skip(0) =~= all);
    while i < n
        invariant
            i <= n == attributes@.len() == all.len(),
            all == attribute_views(attributes@),
            attribute(all, name@) == attribute(all.skip(i as int), name@),
        decreases n - i,
    {
        let ghost rest = all.skip(i as int);
        assert(rest[0] == attributes@[i as int]@);
        assert(rest.skip(1) =~= all.skip(i + 1));
        if attributes[i].namespace.is_none() && same_text(attributes[i].name.as_str(), name) {
            return Some(attributes[i].value.clone());
        }
        i = i + 1;
    }
    None
}

/// The value of the attribute, or a default.
pub fn attribute_value_or(attributes: &Vec<XmlAttribute>, name: &str, default: &str) -> (r: String)
    ensures
        r@ == attribute_or(attribute_views(attributes@), name@, default@),
{
    match attribute_value(attributes, name) {
        Some(v) => v,
        None => default.to_owned(),
    }
}

/// The value of an attribute is that of the first one that has the name and no
/// namespace; where none has, there is no value.
pub proof fn law_first_attribute_counts(attributes: Seq<AttributeView>, name: Seq<char>)
    ensures
        match attribute(attributes, name) {
            Some(value) => exists|i: int|
                {
                    &&& 0 <= i < attributes.len()
                    &&& #[trigger] attributes[i].value == value
                    &&& attributes[i].namespace is None
                    &&& attributes[i].name == name
                    &&& forall|k: int|
                        0 <= k < i ==> #[trigger] attributes[k].namespace is Some
                            || attributes[k].name != name
                },
            None => forall|k: int|
                0 <= k < attributes.len() ==> #[trigger] attributes[k].namespace is Some
                    || attributes[k].name != name,
        },
    decreases attributes.len(),
{
    if attributes.len() > 0 {
        let rest = attributes.skip(1);
        if attributes[0].namespace is None && attributes[0].name == name {
            assert(attributes[0].value == attribute(attributes, name)->0);
        } else {
            law_first_attribute_counts(rest, name);
            match attribute(rest, name) {
                Some(value) => {
                    let i = choose|i: int|
                        {
                            &&& 0 <= i < rest.len()
                            &&& #[trigger] rest[i].value == value
                            &&& rest[i].namespace is None
                            &&& rest[i].name == name
                            &&& forall|k: int|
                                0 <= k < i ==> #[trigger] rest[k].namespace is Some
                                    || rest[k].name != name
                        };
                    assert(attributes[i + 1].value == value);
                    assert forall|k: int| 0 <= k < i + 1 implies #[trigger] attributes[k].namespace
                        is Some || attributes[k].name != name by {
                        if k > 0 {
                            assert(rest[k - 1].namespace is Some || rest[k - 1].name != name);
                        }
                    }
                },
                None => {
                    assert forall|k: int| 0 <= k < attributes.len() implies #[trigger]
                    attributes[k].namespace is Some || attributes[k].name != name by {
                        if k > 0 {
                            assert(rest[k - 1].namespace is Some || rest[k - 1].name != name);
                        }
                    }
                },
            }
        }
    }
}

/// How often a `<` stands in the text from `i` on.
pub open spec fn marks_from(s: Seq<char>, i: int) -> nat
    decreases s.len() - i,
{
    if i < 0 || i >= s.len() {
        0
    } else {
        marks_from(s, i + 1) + if s[i] == '<' {
            1nat
        } else {
            0nat
        }
    }
}

proof fn lemma_marks_shrink(s: Seq<char>, i: int, e: int)
    requires
        0 <= i <= e <= s.len(),
    ensures
        marks_from(s, e) <= marks_from(s, i),
    decreases e - i,
{
    if i < e {
        lemma_marks_shrink(s, i + 1, e);
    }
}

proof fn lemma_few_marks(s: Seq<char>, i: int, depth: int, limit: int)
    requires
        0 <= i <= s.len(),
        depth + marks_from(s, i) <= limit,
    ensures
        nests_within(s, i, depth, limit),
    decreases s.len() - i,
{
    if i < s.len() {
        lemma_aside_end(s, i);
        lemma_tag_end(s, i + 1, None);
        if s[i] != '<' {
            lemma_few_marks(s, i + 1, depth, limit);
        } else {
            match aside_end(s, i) {
                Some(e) => {
                    lemma_marks_shrink(s, i, e);
                    lemma_few_marks(s, e, depth, limit);
                },
                None => if i + 1 < s.len() && s[i + 1] == '/' {
                    lemma_few_marks(s, i + 1, depth - 1, limit);
                } else {
                    let e = tag_end(s, i + 1, None);
                    lemma_marks_shrink(s, i + 1, e);
                    lemma_few_marks(
                        s,
                        e,
                        if e >= 2 && s[e - 2] == '/' {
                            depth
                        } else {
                            depth + 1
                        },
                        limit,
                    );
                },
            }
        }
    }
}

/// A text in which `<` stands at most 256 times is never too deep.
pub proof fn law_short_messages_are_flat(s: Seq<char>)
    requires
        marks_from(s, 0) <= 256,
    ensures
        nests_flat(s),
{
    lemma_few_marks(s, 0, 0, 256);
}

/// `n` elements that are opened one within another.
pub open spec fn opened(n: nat) -> Seq<char> {
    Seq::new(
        3 * n,
        |i: int|
            if i % 3 == 0 {
                '<'
            } else if i % 3 == 1 {
                'a'
            } else {
                '>'
            },
    )
}

proof fn lemma_opened(n: nat, k: nat)
    requires
        k <= n,
        k <= 256,
    ensures
        nests_within(opened(n), 3 * (k as int), k as int, 256) <==> n <= 256,
    decreases n - k,
{
    let s = opened(n);
    let i = 3 * (k as int);
    if k < n {
        assert(s[i] == '<' && s[i + 1] == 'a' && s[i + 2] == '>');
        assert(aside_end(s, i) is None) by {
            reveal_strlit("<!--");
            reveal_strlit("<![CDATA[");
            reveal_strlit("<?");
            if occurs_at(s, "<!--"@, i) {
                crate::text::law_occurrence(s, "<!--"@, i);
                assert("<!--"@[1] == s[i + 1]);
            }
            if occurs_at(s, "<![CDATA["@, i) {
                crate::text::law_occurrence(s, "<![CDATA["@, i);
                assert("<![CDATA["@[1] == s[i + 1]);
            }
            if occurs_at(s, "<?"@, i) {
                crate::text::law_occurrence(s, "<?"@, i);
                assert("<?"@[1] == s[i + 1]);
            }
        }
        assert(tag_end(s, i + 2, None) == i + 3);
        assert(tag_end(s, i + 1, None) == i + 3);
        if k < 256 {
            lemma_opened(n, k + 1);
        }
    }
}

/// Elements that stand one within another are not too deep up to 256 of them,
/// and are too deep from there on.
pub proof fn law_deepest_message(n: nat)
    ensures
        nests_flat(opened(n)) <==> n <= 256,
{
    lemma_opened(n, 0);
}

} // verus!
