//! The SVG elements that the chart is made of.
//!
//! Elements are built and serialised by the `svg` crate. Verus does not look
//! inside an element, so what one holds is given by three names: its tag
//! name, its attributes and its children. The crate's calls are reached
//! through five functions whose contracts are taken on trust; each says
//! what the call does to those three. The text that the crate writes for a
//! text node is spelled out. The text that it writes for an element is
//! named, not spelled out: the contracts say of what it is the text, and
//! nothing of its characters.

use vstd::prelude::*;
use svg::node::element::Element;
use svg::node::Node;

verus! {

/// `svg::node::element::Element`, the crate's generic element: a tag name, a
/// map of attributes and a list of child nodes.
#[verifier::external_type_specification]
#[verifier::external_body]
pub struct ExElement(svg::node::element::Element);

/// The tag name that an element was created with.
pub uninterp spec fn element_name(e: Element) -> Seq<char>;

/// The attributes assigned to an element, by name.
pub uninterp spec fn element_attributes(e: Element) -> Map<Seq<char>, Seq<char>>;

/// The serialised children of an element, in the order they were appended.
/// The flag is set for a text node, which the crate writes inline.
pub uninterp spec fn element_children(e: Element) -> Seq<(Seq<char>, bool)>;

/// The text that the crate writes for an element with this tag name, these
/// attributes and these serialised children. The crate writes the
/// attributes in the order of their names and the children in the order in
/// which they were appended, so the text depends on nothing else.
pub uninterp spec fn element_markup(
    name: Seq<char>,
    attributes: Map<Seq<char>, Seq<char>>,
    children: Seq<(Seq<char>, bool)>,
) -> Seq<char>;

/// What the crate writes for one character of a text node: an entity for
/// an ampersand and for each of the two angle brackets, and any other
/// character as it is.
pub open spec fn escaped_char(c: char) -> Seq<char> {
    if c == '&' {
        "&amp;"@
    } else if c == '<' {
        "&lt;"@
    } else if c == '>' {
        "&gt;"@
    } else {
        seq![c]
    }
}

/// The text that the crate writes for a text node with this content: the
/// content, character by character, with the three markup characters
/// escaped.
pub open spec fn text_markup(content: Seq<char>) -> Seq<char>
    decreases content.len(),
{
    if content.len() == 0 {
        Seq::<char>::empty()
    } else {
        text_markup(content.drop_last()) + escaped_char(content.last())
    }
}

/// The attributes of a new element: none.
pub open spec fn no_attributes() -> Map<Seq<char>, Seq<char>> {
    Map::empty()
}

/// The children of a new element: none.
pub open spec fn no_children() -> Seq<(Seq<char>, bool)> {
    Seq::empty()
}

/// Calls `svg::node::element::Element::new`. Trusted: the new element has
/// the given tag name, no attribute and no child.
#[verifier::external_body]
pub(crate) fn element_new(name: &str) -> (e: Element)
    ensures
        element_name(e) == name@,
        element_attributes(e) == no_attributes(),
        element_children(e) == no_children(),
{
    Element::new(name)
}

/// Calls `svg::node::Node::assign` on an element. Trusted: the attribute
/// `name` is set to `value`, in place of an earlier value of that name;
/// the other attributes, the tag name and the children stay.
#[verifier::external_body]
pub(crate) fn element_assign(e: &mut Element, name: &str, value: &str)
    ensures
        element_name(*final(e)) == element_name(*old(e)),
        element_attributes(*final(e)) == element_attributes(*old(e)).insert(name@, value@),
        element_children(*final(e)) == element_children(*old(e)),
{
    e.assign(name, value);
}

/// Calls `svg::node::Node::append` on an element, with an element as the
/// child. Trusted: the child is put behind the children already there, and
/// will be written as it would be written alone; the tag name and the
/// attributes stay.
#[verifier::external_body]
pub(crate) fn element_append(e: &mut Element, child: Element)
    ensures
        element_name(*final(e)) == element_name(*old(e)),
        element_attributes(*final(e)) == element_attributes(*old(e)),
        element_children(*final(e)) == element_children(*old(e)).push(
            (
                element_markup(
                    element_name(child),
                    element_attributes(child),
                    element_children(child),
                ),
                false,
            ),
        ),
{
    e.append(child);
}

/// Calls `svg::node::Node::append` on an element, with the content turned
/// into a text node by `svg::node::Text::new`. Trusted: the text node is
/// put behind the children already there, and will be written as its
/// content with `&`, `<` and `>` replaced by their entities; the tag name
/// and the attributes stay.
#[verifier::external_body]
pub(crate) fn element_append_text(e: &mut Element, content: &str)
    ensures
        element_name(*final(e)) == element_name(*old(e)),
        element_attributes(*final(e)) == element_attributes(*old(e)),
        element_children(*final(e)) == element_children(*old(e)).push(
            (text_markup(content@), true),
        ),
{
    e.append(svg::node::Text::new(content));
}

/// Calls `to_string` on an element, which goes through the element's
/// `Display`. Trusted: the result is the text that the crate writes for the
/// tag name, attributes and children that the element holds.
#[verifier::external_body]
pub(crate) fn element_to_string(e: &Element) -> (s: String)
    ensures
        s@ == element_markup(element_name(*e), element_attributes(*e), element_children(*e)),
{
    e.to_string()
}

/// What an element holds: its tag name, its attributes, and its serialised
/// children with the flag that marks a text node.
pub struct ElementModel {
    pub name: Seq<char>,
    pub attributes: Map<Seq<char>, Seq<char>>,
    pub children: Seq<(Seq<char>, bool)>,
}

impl ElementModel {
    /// An element of this tag name without attributes and children.
    pub open spec fn new(name: Seq<char>) -> ElementModel {
        ElementModel { name, attributes: no_attributes(), children: no_children() }
    }

    /// This element with the attribute `name` set to `value`.
    pub open spec fn with_attribute(self, name: Seq<char>, value: Seq<char>) -> ElementModel {
        ElementModel { attributes: self.attributes.insert(name, value), ..self }
    }

    /// This element with one more child element at the end.
    pub open spec fn with_child(self, child: ElementModel) -> ElementModel {
        ElementModel { children: self.children.push((child.markup(), false)), ..self }
    }

    /// This element with one more text node at the end.
    pub open spec fn with_text(self, content: Seq<char>) -> ElementModel {
        ElementModel { children: self.children.push((text_markup(content), true)), ..self }
    }

    /// The serialised form of this element.
    pub open spec fn markup(self) -> Seq<char> {
        element_markup(self.name, self.attributes, self.children)
    }
}

/// What the element `e` holds.
pub open spec fn model_of(e: Element) -> ElementModel {
    ElementModel {
        name: element_name(e),
        attributes: element_attributes(e),
        children: element_children(e),
    }
}

/// A new element of the given tag name.
pub fn new_element(name: &str) -> (e: Element)
    ensures
        model_of(e) == ElementModel::new(name@),
{
    element_new(name)
}

/// The element with the attribute `name` set to `value`.
pub fn with_attribute(e: Element, name: &str, value: &str) -> (r: Element)
    ensures
        model_of(r) == model_of(e).with_attribute(name@, value@),
{
    let mut e = e;
    element_assign(&mut e, name, value);
    e
}

/// The element with `child` as its last child.
pub fn with_child(e: Element, child: Element) -> (r: Element)
    ensures
        model_of(r) == model_of(e).with_child(model_of(child)),
{
    let mut e = e;
    element_append(&mut e, child);
    e
}

/// The element with a text node of the given content as its last child.
pub fn with_text(e: Element, content: &str) -> (r: Element)
    ensures
        model_of(r) == model_of(e).with_text(content@),
{
    let mut e = e;
    element_append_text(&mut e, content);
    e
}

/// The serialised form of an element.
pub fn to_markup(e: &Element) -> (s: String)
    ensures
        s@ == model_of(*e).markup(),
{
    element_to_string(e)
}

} // verus!
