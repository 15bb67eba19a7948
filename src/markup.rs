//! XML documents as trees of namespaced elements with their text.
use vstd::prelude::*;

verus! {

/// The namespace of the service's listing documents.
pub const S3_NAMESPACE: &'static str = "http://s3.amazonaws.com/doc/2006-03-01/";

/// An element: its name, namespace, text content (the character data of it
/// and of all its descendants, in document order) and child nodes.
pub struct XmlNode {
    pub name: String,
    pub namespace: Option<String>,
    pub text: String,
    pub children: Vec<XmlChild>,
}

/// A node under an element.
pub enum XmlChild {
    Element(XmlNode),
    Character(String),
    CData(String),
    Comment(String),
    Processing(String),
}

/// Why a text is not a well-formed document. Line and column are 0 where the
/// failure has no position (improper nesting, no element at all).
pub struct MarkupError {
    pub line: u32,
    pub column: u32,
    pub message: String,
}

/// RustyXML's parsed element, carried opaquely into the conversion below.
#[verifier::external_type_specification]
#[verifier::external_body]
pub struct ExElement(xml::Element);

/// The root element that a text parses to, or why it does not.
pub uninterp spec fn markup_of(text: Seq<char>) -> Result<XmlNode, MarkupError>;

/// Relies on RustyXML's `FromStr for Element` (a parser fed the whole text,
/// giving the first complete root element), and on `Element::content_str` for
/// each element's text: the outcome depends on the text alone.
#[verifier::external_body]
pub(crate) fn parse_markup(text: &str) -> (r: Result<XmlNode, MarkupError>)
    ensures
        r == markup_of(text@),
{
    match text.parse::<xml::Element>() {
        Ok(e) => Ok(node_of(&e)),
        Err(xml::BuilderError::Parser(p)) => Err(
            MarkupError { line: p.line, column: p.col, message: p.msg.to_owned() },
        ),
        Err(other) => Err(MarkupError { line: 0, column: 0, message: other.to_string() }),
    }
}

/// Relies on RustyXML's `Element` fields and `Element::content_str`: the
/// element copied field for field, each child node in order.
#[verifier::external_body]
fn node_of(e: &xml::Element) -> XmlNode {
    let children = e.children.iter().map(|c| match c {
        xml::Xml::ElementNode(child) => XmlChild::Element(node_of(child)),
        xml::Xml::CharacterNode(t) => XmlChild::Character(t.clone()),
        xml::Xml::CDATANode(t) => XmlChild::CData(t.clone()),
        xml::Xml::CommentNode(t) => XmlChild::Comment(t.clone()),
        xml::Xml::PINode(t) => XmlChild::Processing(t.clone()),
    }).collect();
    XmlNode { name: e.name.clone(), namespace: e.ns.clone(), text: e.content_str(), children }
}

/// `n` is named `name` in the service's namespace.
pub open spec fn is_s3(n: XmlNode, name: Seq<char>) -> bool {
    &&& n.name@ == name
    &&& n.namespace is Some
    &&& n.namespace->0@ == S3_NAMESPACE@
}

/// `c` is an element named `name` in the service's namespace.
pub open spec fn is_s3_child(c: XmlChild, name: Seq<char>) -> bool {
    c is Element && is_s3(c->Element_0, name)
}

/// `i` is the first child of `n` named `name` in the service's namespace.
pub open spec fn first_child_at(n: XmlNode, name: Seq<char>, i: int) -> bool {
    &&& 0 <= i < n.children@.len()
    &&& is_s3_child(n.children@[i], name)
    &&& forall|j: int| 0 <= j < i ==> !is_s3_child(#[trigger] n.children@[j], name)
}

/// The first child of `n` named `name` in the service's namespace.
pub open spec fn child(n: XmlNode, name: Seq<char>) -> Option<XmlNode> {
    if exists|i: int| first_child_at(n, name, i) {
        Some(n.children@[choose|i: int| first_child_at(n, name, i)]->Element_0)
    } else {
        None
    }
}

/// The text of that child.
pub open spec fn child_text(n: XmlNode, name: Seq<char>) -> Option<String> {
    match child(n, name) {
        Some(c) => Some(c.text),
        None => None,
    }
}

/// `n` is named `name` in the service's namespace.
pub fn is_s3_element(n: &XmlNode, name: &str) -> (r: bool)
    ensures
        r == is_s3(*n, name@),
{
    let wanted = name.to_owned();
    if n.name != wanted {
        return false;
    }
    match &n.namespace {
        Some(ns) => {
            let s3 = S3_NAMESPACE.to_owned();
            *ns == s3
        },
        None => false,
    }
}

/// `c` is an element named `name` in the service's namespace.
pub fn is_s3_child_element(c: &XmlChild, name: &str) -> (r: bool)
    ensures
        r == is_s3_child(*c, name@),
{
    match c {
        XmlChild::Element(e) => is_s3_element(e, name),
        _ => false,
    }
}

/// The first child of `n` named `name` in the service's namespace.
pub fn find_child<'a>(n: &'a XmlNode, name: &str) -> (r: Option<&'a XmlNode>)
    ensures
        match r {
            Some(c) => child(*n, name@) == Some(*c),
            None => child(*n, name@) is None,
        },
{
    let mut i: usize = 0;
    while i < n.children.len()
        invariant
            i <= n.children@.len(),
            forall|j: int| 0 <= j < i ==> !is_s3_child(#[trigger] n.children@[j], name@),
        decreases n.children@.len() - i,
    {
        if let XmlChild::Element(e) = &n.children[i] {
            if is_s3_element(e, name) {
                proof {
                    assert(first_child_at(*n, name@, i as int));
                    assert forall|k: int| first_child_at(*n, name@, k) implies k == i by {
                        if k < i {
                            assert(!is_s3_child(n.children@[k], name@));
                        } else if k > i {
                            assert(!is_s3_child(n.children@[i as int], name@));
                        }
                    }
                }
                return Some(e);
            }
        }
        i = i + 1;
    }
    proof {
        assert forall|k: int| !first_child_at(*n, name@, k) by {
            if 0 <= k < n.children@.len() {
                assert(!is_s3_child(n.children@[k], name@));
            }
        }
    }
    None
}

/// The text of the first child named `name`, copied.
pub fn find_child_text(n: &XmlNode, name: &str) -> (r: Option<String>)
    ensures
        r == child_text(*n, name@),
{
    match find_child(n, name) {
        Some(c) => Some(c.text.clone()),
        None => None,
    }
}

} // verus!
