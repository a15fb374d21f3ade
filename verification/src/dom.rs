//! The document tree the renderer consumes: a read-only, caller-owned model
//! of a parsed HTML document. Tags the renderer distinguishes are interned;
//! every other element is a generic block container.
use vstd::prelude::*;

verus! {

/// Element names the renderer treats specially; anything else is `Other`.
#[derive(Debug, Clone, Copy, PartialEq, Eq, Structural)]
pub enum Tag {
    Script,
    Head,
    Noscript,
    Img,
    Picture,
    Audio,
    Video,
    Source,
    Span,
    Button,
    A,
    Strong,
    Em,
    Ul,
    Ol,
    H1,
    H2,
    H3,
    H4,
    H5,
    H6,
    Code,
    Pre,
    Other,
}

impl Tag {
    /// Tags whose whole subtree is skipped.
    pub open spec fn spec_is_ignored(self) -> bool {
        match self {
            Tag::Script | Tag::Head | Tag::Noscript | Tag::Img | Tag::Picture | Tag::Audio
                | Tag::Video | Tag::Source => true,
            _ => false,
        }
    }

    pub fn is_ignored(&self) -> (r: bool)
        ensures
            r == self.spec_is_ignored(),
    {
        match self {
            Tag::Script | Tag::Head | Tag::Noscript | Tag::Img | Tag::Picture | Tag::Audio
                | Tag::Video | Tag::Source => true,
            _ => false,
        }
    }

    /// The heading level of `h1` through `h6`, zero for every other tag.
    pub open spec fn spec_heading_level(self) -> u8 {
        match self {
            Tag::H1 => 1,
            Tag::H2 => 2,
            Tag::H3 => 3,
            Tag::H4 => 4,
            Tag::H5 => 5,
            Tag::H6 => 6,
            _ => 0,
        }
    }

    pub fn heading_level(&self) -> (r: u8)
        ensures
            r == self.spec_heading_level(),
    {
        match self {
            Tag::H1 => 1,
            Tag::H2 => 2,
            Tag::H3 => 3,
            Tag::H4 => 4,
            Tag::H5 => 5,
            Tag::H6 => 6,
            _ => 0,
        }
    }
}

/// One attribute of an element.
#[derive(Debug, Clone)]
pub struct Attr {
    pub name: Vec<char>,
    pub value: Vec<char>,
}

/// A node of the document tree.
#[derive(Debug)]
pub enum Node {
    Document { children: Vec<Node> },
    Fragment { children: Vec<Node> },
    Text { text: Vec<char> },
    Element { tag: Tag, attrs: Vec<Attr>, children: Vec<Node> },
    Comment,
    Doctype,
    ProcessingInstruction,
}

/// The attribute name `href`.
pub open spec fn href_name() -> Seq<char> {
    seq!['h', 'r', 'e', 'f']
}

/// The value of the first `href` attribute, if any.
pub open spec fn spec_find_href(attrs: Seq<Attr>) -> Option<Seq<char>>
    decreases attrs.len(),
{
    if attrs.len() == 0 {
        None
    } else if attrs[0].name@ == href_name() {
        Some(attrs[0].value@)
    } else {
        spec_find_href(attrs.drop_first())
    }
}

/// Look up the `href` attribute, first occurrence winning.
pub fn find_href(attrs: &Vec<Attr>) -> (r: Option<&Vec<char>>)
    ensures
        match r {
            Some(v) => spec_find_href(attrs@) == Some(v@),
            None => spec_find_href(attrs@) == None::<Seq<char>>,
        },
{
    let ghost s = attrs@;
    proof {
        assert(s.skip(0) =~= s);
    }
    let mut i: usize = 0;
    while i < attrs.len()
        invariant
            i <= attrs.len(),
            spec_find_href(s) == spec_find_href(s.skip(i as int)),
        decreases attrs.len() - i,
    {
        let name = &attrs[i].name;
        let is_href = name.len() == 4 && name[0] == 'h' && name[1] == 'r' && name[2] == 'e'
            && name[3] == 'f';
        proof {
            assert(s.skip(i as int)[0] == s[i as int]);
            if is_href {
                assert(name@ =~= href_name());
            } else {
                assert(name@ != href_name());
            }
        }
        if is_href {
            return Some(&attrs[i].value);
        }
        proof {
            assert(s.skip(i as int).drop_first() =~= s.skip(i + 1 as int));
        }
        i = i + 1;
    }
    proof {
        assert(s.skip(i as int) =~= Seq::<Attr>::empty());
    }
    None
}

/// The first character the subtree would contribute, looked up along first
/// children only: the lookahead that decides whether a separating space may
/// be dropped before punctuation.
pub open spec fn spec_first_char(n: Node) -> Option<char>
    decreases n,
{
    match n {
        Node::Document { children } => {
            if children@.len() == 0 {
                None
            } else {
                spec_first_char(children@[0])
            }
        },
        Node::Fragment { children } => {
            if children@.len() == 0 {
                None
            } else {
                spec_first_char(children@[0])
            }
        },
        Node::Text { text } => {
            if text@.len() == 0 {
                None
            } else {
                Some(text@[0])
            }
        },
        Node::Element { tag, children, .. } => {
            if tag == Tag::Script || tag == Tag::Head || tag == Tag::Noscript {
                None
            } else if tag == Tag::A {
                Some('[')
            } else if children@.len() == 0 {
                None
            } else {
                spec_first_char(children@[0])
            }
        },
        _ => None,
    }
}

pub fn first_char(n: &Node) -> (r: Option<char>)
    ensures
        r == spec_first_char(*n),
    decreases *n,
{
    match n {
        Node::Document { children } => {
            if children.len() == 0 {
                None
            } else {
                first_char(&children[0])
            }
        },
        Node::Fragment { children } => {
            if children.len() == 0 {
                None
            } else {
                first_char(&children[0])
            }
        },
        Node::Text { text } => {
            if text.len() == 0 {
                None
            } else {
                Some(text[0])
            }
        },
        Node::Element { tag, children, .. } => {
            if *tag == Tag::Script || *tag == Tag::Head || *tag == Tag::Noscript {
                None
            } else if *tag == Tag::A {
                Some('[')
            } else if children.len() == 0 {
                None
            } else {
                first_char(&children[0])
            }
        },
        _ => None,
    }
}

} // verus!
