//! Document trees: elements with attributes, text and comments.
use vstd::prelude::*;

verus! {

#[derive(Clone, Debug)]
pub struct ElementData {
    pub tag_name: String,
    pub attributes: Vec<(String, String)>,
}

#[derive(Debug)]
pub enum NodeType {
    Element(ElementData),
    Text(String),
    Comment(String),
}

#[derive(Debug)]
pub struct Node {
    pub node_type: NodeType,
    pub children: Vec<Box<Node>>,
}

impl Node {
    /// A text node.
    pub fn text(data: String) -> (r: Box<Node>)
        ensures
            r.node_type matches NodeType::Text(t) && t@ == data@,
            r.children@.len() == 0,
    {
        Box::new(Node { node_type: NodeType::Text(data), children: Vec::new() })
    }

    /// An element node with the given children.
    pub fn element(tag_name: String, attributes: Vec<(String, String)>, children: Vec<Box<Node>>) -> (r: Box<Node>)
        ensures
            r.node_type matches NodeType::Element(e) && e.tag_name@ == tag_name@ && e.attributes@ == attributes@,
            r.children@ == children@,
    {
        Box::new(Node { node_type: NodeType::Element(ElementData { tag_name, attributes }), children })
    }

    /// A comment node.
    pub fn comment(data: String) -> (r: Box<Node>)
        ensures
            r.node_type matches NodeType::Comment(t) && t@ == data@,
            r.children@.len() == 0,
    {
        Box::new(Node { node_type: NodeType::Comment(data), children: Vec::new() })
    }
}

} // verus!
