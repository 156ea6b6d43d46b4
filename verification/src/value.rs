//! The values that a template is rendered against.

use vstd::prelude::*;
use crate::tag::Tag;
use crate::url::UrlBuf;

verus! {

/// A value for a template: nothing, a truth value, a text, a list of values,
/// or an object whose named fields hold values.
#[derive(Debug)]
pub enum Value {
    Nil,
    Bool(bool),
    String(String),
    Array(Vec<Value>),
    Object(Vec<(String, Value)>),
}

/// What a [`Value`] stands for.
pub ghost enum Node {
    Nil,
    Bool(bool),
    Text(Seq<char>),
    List(Seq<Node>),
    Record(Seq<(Seq<char>, Node)>),
}

impl View for Value {
    type V = Node;

    open spec fn view(&self) -> Node
        decreases self,
    {
        match self {
            Value::Nil => Node::Nil,
            Value::Bool(b) => Node::Bool(*b),
            Value::String(text) => Node::Text(text@),
            Value::Array(items) => Node::List(
                Seq::new(
                    items@.len(),
                    |i: int|
                        if 0 <= i < items@.len() {
                            items@[i].view()
                        } else {
                            Node::Nil
                        },
                ),
            ),
            Value::Object(fields) => Node::Record(
                Seq::new(
                    fields@.len(),
                    |i: int|
                        if 0 <= i < fields@.len() {
                            (fields@[i].0@, fields@[i].1.view())
                        } else {
                            (Seq::empty(), Node::Nil)
                        },
                ),
            ),
        }
    }
}

/// What a tag is for a template: its slug and the address of its index.
pub open spec fn tag_node(name: Seq<char>, url: Seq<char>) -> Node {
    Node::Record(seq![("tag"@, Node::Text(name)), ("url"@, Node::Text(url))])
}

/// What an address that may be missing is for a template.
pub open spec fn link_node(url: Option<Seq<char>>) -> Node {
    match url {
        Some(text) => Node::Text(text),
        None => Node::Nil,
    }
}

impl Value {
    /// The value that holds the text `text`.
    pub fn text(text: &str) -> (out: Value)
        ensures
            out@ == Node::Text(text@),
    {
        Value::String(text.to_owned())
    }

    /// The value that holds the truth value `b`.
    pub fn boolean(b: bool) -> (out: Value)
        ensures
            out@ == Node::Bool(b),
    {
        Value::Bool(b)
    }

    /// The value for a tag.
    pub fn from_tag(tag: &Tag) -> (out: Value)
        ensures
            out@ == tag_node(tag.name@, tag.url@),
    {
        let mut fields: Vec<(String, Value)> = Vec::new();
        fields.push(("tag".to_owned(), Value::text(tag.name.as_str())));
        fields.push(("url".to_owned(), Value::text(tag.url.as_str())));
        let out = Value::Object(fields);
        assert(out@->Record_0 =~= tag_node(tag.name@, tag.url@)->Record_0);
        out
    }

    /// The value for an address.
    pub fn from_url(url: &UrlBuf) -> (out: Value)
        ensures
            out@ == Node::Text(url@),
    {
        Value::text(url.as_str())
    }

    /// The value for an address that may be missing: `Nil` where it is.
    pub fn from_link(url: &Option<UrlBuf>) -> (out: Value)
        ensures
            out@ == link_node(
                match url {
                    Some(u) => Some(u@),
                    None => None,
                },
            ),
    {
        match url {
            Some(u) => Value::from_url(u),
            None => Value::Nil,
        }
    }
}

} // verus!
