use vstd::prelude::*;

verus! {

/// One classified fragment of a decoded text block.
#[derive(Debug, Clone)]
pub enum TextNode {
    /// The beginning of a list of text nodes.
    Start,
    /// The end of a list of text nodes.
    End,
    /// A number indicating a certain stage within a quest.
    Stage(u32),
    /// A string indicating a topic or theme.
    Topic(String),
    /// A free-form text.
    Content(String),
}

/// Mathematical image of a text node.
pub enum TextNodeView {
    Start,
    End,
    Stage(u32),
    Topic(Seq<char>),
    Content(Seq<char>),
}

impl View for TextNode {
    type V = TextNodeView;

    open spec fn view(&self) -> TextNodeView {
        match self {
            TextNode::Start => TextNodeView::Start,
            TextNode::End => TextNodeView::End,
            TextNode::Stage(n) => TextNodeView::Stage(*n),
            TextNode::Topic(s) => TextNodeView::Topic(s@),
            TextNode::Content(s) => TextNodeView::Content(s@),
        }
    }
}

/// The views of a sequence of text nodes.
pub open spec fn node_views(v: Seq<TextNode>) -> Seq<TextNodeView> {
    v.map_values(|n: TextNode| n@)
}

/// The views of a sequence of text blocks.
pub open spec fn content_views(v: Seq<TextContent>) -> Seq<TextContentView> {
    v.map_values(|c: TextContent| c@)
}

/// One text block: its reference id strings and its classified fragments.
#[derive(Debug, Clone)]
pub struct TextContent {
    pub refs: Vec<String>,
    pub nodes: Vec<TextNode>,
}

/// Mathematical image of a text block.
pub struct TextContentView {
    pub refs: Seq<Seq<char>>,
    pub nodes: Seq<TextNodeView>,
}

impl View for TextContent {
    type V = TextContentView;

    open spec fn view(&self) -> TextContentView {
        TextContentView {
            refs: crate::strutil::str_views(self.refs@),
            nodes: node_views(self.nodes@),
        }
    }
}

} // verus!
