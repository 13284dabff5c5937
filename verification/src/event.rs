//! The structural events that a walk over an XML document delivers, in
//! document order.

use vstd::prelude::*;

verus! {

/// One attribute of a start tag, with its key as written: a prefix is part
/// of the key.
#[derive(Clone, Debug, PartialEq, Eq)]
pub struct Attribute {
    pub key: String,
    pub value: String,
}

/// The mathematical model of an attribute.
pub struct AttributeView {
    pub key: Seq<char>,
    pub value: Seq<char>,
}

impl View for Attribute {
    type V = AttributeView;

    open spec fn view(&self) -> AttributeView {
        AttributeView { key: self.key@, value: self.value@ }
    }
}

/// The models of a sequence of attributes.
pub open spec fn attribute_views(attributes: Seq<Attribute>) -> Seq<AttributeView> {
    attributes.map_values(|attribute: Attribute| attribute@)
}

/// A structural event of a document.
#[derive(Clone, Debug, PartialEq, Eq)]
pub enum XmlEvent {
    /// An element starts. The name is as written, prefix included. The
    /// attributes stand in the order of the tag.
    ElementStart { name: String, attributes: Vec<Attribute> },
    /// The innermost open element ends.
    ElementEnd,
    /// Character data between tags.
    Text { content: String },
    /// The document is over.
    EndOfDocument,
    /// Markup without bearing on the element tree: a comment, a CDATA
    /// section, a declaration, a processing instruction or a document type.
    Other,
}

/// The mathematical model of an event.
pub enum XmlEventView {
    ElementStart { name: Seq<char>, attributes: Seq<AttributeView> },
    ElementEnd,
    Text { content: Seq<char> },
    EndOfDocument,
    Other,
}

impl View for XmlEvent {
    type V = XmlEventView;

    open spec fn view(&self) -> XmlEventView {
        match *self {
            XmlEvent::ElementStart { name, attributes } => XmlEventView::ElementStart {
                name: name@,
                attributes: attribute_views(attributes@),
            },
            XmlEvent::ElementEnd => XmlEventView::ElementEnd,
            XmlEvent::Text { content } => XmlEventView::Text { content: content@ },
            XmlEvent::EndOfDocument => XmlEventView::EndOfDocument,
            XmlEvent::Other => XmlEventView::Other,
        }
    }
}

/// The models of a sequence of events.
pub open spec fn event_views(events: Seq<XmlEvent>) -> Seq<XmlEventView> {
    events.map_values(|event: XmlEvent| event@)
}

impl Attribute {
    /// The attribute with the given key and value.
    pub fn new(key: &str, value: &str) -> (attribute: Attribute)
        ensures
            attribute@ == (AttributeView { key: key@, value: value@ }),
    {
        Attribute { key: String::from_str(key), value: String::from_str(value) }
    }
}

impl XmlEvent {
    /// The start of an element with the given name and attributes.
    pub fn start(name: &str, attributes: Vec<Attribute>) -> (event: XmlEvent)
        ensures
            event@ == (XmlEventView::ElementStart {
                name: name@,
                attributes: attribute_views(attributes@),
            }),
    {
        XmlEvent::ElementStart { name: String::from_str(name), attributes }
    }

    /// Character data with the given content.
    pub fn text(content: &str) -> (event: XmlEvent)
        ensures
            event@ == (XmlEventView::Text { content: content@ }),
    {
        XmlEvent::Text { content: String::from_str(content) }
    }
}

} // verus!
