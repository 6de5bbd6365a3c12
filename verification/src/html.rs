//! Turning the tree of a parsed document into the tree of records that a
//! host is shown.

use vstd::prelude::*;

verus! {

/// A node of a parsed document.
#[derive(Debug, PartialEq, Eq)]
pub enum HtmlNode {
    /// An element, with what it holds.
    Element(HtmlElement),
    /// A run of text.
    Text(String),
    /// Anything else: a comment, a doctype, a processing instruction.
    Other,
}

/// An element of a parsed document.
#[derive(Debug, PartialEq, Eq)]
pub struct HtmlElement {
    /// The element's name.
    pub tag: String,
    /// The element's attributes, each with its value, in their order.
    pub attrs: Vec<(String, String)>,
    /// The nodes that the element holds, in their order.
    pub children: Vec<HtmlNode>,
}

/// What a host is shown of a node.
#[derive(Debug, PartialEq, Eq)]
pub enum HtmlValue {
    /// The text of a text node.
    Text(String),
    /// The record of an element.
    Record(HtmlRecord),
}

/// What a host is shown of an element.
#[derive(Debug, PartialEq, Eq)]
pub struct HtmlRecord {
    /// The element's attributes, each with its value, in their order.
    pub attrs: Vec<(String, String)>,
    /// What is shown of the nodes that the element holds.
    pub children: Vec<HtmlValue>,
    /// The element's name.
    pub tag: String,
}

/// What a host is shown of a node, as mathematical values.
pub ghost enum ValueView {
    Text(Seq<char>),
    Record { attrs: Seq<(Seq<char>, Seq<char>)>, children: Seq<ValueView>, tag: Seq<char> },
}

/// A text without the white space at its two ends (`str::trim`).
pub uninterp spec fn trimmed_text(text: Seq<char>) -> Seq<char>;

/// Calls `str::trim`.
#[verifier::external_body]
fn trimmed(text: &str) -> (rest: &str)
    ensures
        rest@ == trimmed_text(text@),
{
    text.trim()
}

/// The texts of a list of pairs of strings.
pub open spec fn pairs_view(pairs: Seq<(String, String)>) -> Seq<(Seq<char>, Seq<char>)> {
    Seq::new(pairs.len(), |i: int| (pairs[i].0@, pairs[i].1@))
}

/// What is shown of the first `n` values of a record's children.
pub open spec fn shown_upto(record: HtmlRecord, n: nat) -> Seq<ValueView>
    decreases record, n,
{
    if n == 0 || n > record.children@.len() {
        Seq::empty()
    } else {
        shown_upto(record, (n - 1) as nat).push(shown(record.children@[n - 1]))
    }
}

/// What is shown of a value.
pub open spec fn shown(value: HtmlValue) -> ValueView
    decreases value, 0nat,
{
    match value {
        HtmlValue::Text(text) => ValueView::Text(text@),
        HtmlValue::Record(record) => ValueView::Record {
            attrs: pairs_view(record.attrs@),
            children: shown_upto(record, record.children@.len()),
            tag: record.tag@,
        },
    }
}

/// What a host is shown of the first `n` children of an element: the record
/// of each element among them and each text that is more than white space,
/// in their order, and nothing of the other nodes.
pub open spec fn children_upto(element: HtmlElement, n: nat) -> Seq<ValueView>
    decreases element, n,
{
    if n == 0 || n > element.children@.len() {
        Seq::empty()
    } else {
        let before = children_upto(element, (n - 1) as nat);
        match element.children@[n - 1] {
            HtmlNode::Element(child) => before.push(record_of(child)),
            HtmlNode::Text(text) => if trimmed_text(text@).len() == 0 {
                before
            } else {
                before.push(ValueView::Text(text@))
            },
            HtmlNode::Other => before,
        }
    }
}

/// What a host is shown of an element: its attributes, what is shown of its
/// children, and its name.
pub open spec fn record_of(element: HtmlElement) -> ValueView
    decreases element, element.children@.len() + 1,
{
    ValueView::Record {
        attrs: pairs_view(element.attrs@),
        children: children_upto(element, element.children@.len()),
        tag: element.tag@,
    }
}

/// Copies a list of attributes.
pub fn copy_attrs(attrs: &Vec<(String, String)>) -> (copy: Vec<(String, String)>)
    ensures
        pairs_view(copy@) == pairs_view(attrs@),
{
    let mut copy: Vec<(String, String)> = Vec::new();
    let mut index: usize = 0;
    while index < attrs.len()
        invariant
            index <= attrs@.len(),
            copy@.len() == index,
            forall|i: int|
                0 <= i < index ==> (#[trigger] copy@[i]).0@ == attrs@[i].0@ && copy@[i].1@
                    == attrs@[i].1@,
        decreases attrs@.len() - index,
    {
        let pair = &attrs[index];
        copy.push((pair.0.clone(), pair.1.clone()));
        index += 1;
    }
    assert(pairs_view(copy@) =~= pairs_view(attrs@));
    copy
}

/// Turns an element into the record that a host is shown: the element's
/// attributes, then what is shown of its children, then its name. Of the
/// children, each element gives its own record and each text that is more
/// than white space gives itself; the other nodes give nothing.
pub fn html_to_record(element: &HtmlElement) -> (value: HtmlValue)
    ensures
        shown(value) == record_of(*element),
    decreases element,
{
    let mut children: Vec<HtmlValue> = Vec::new();
    let mut index: usize = 0;
    while index < element.children.len()
        invariant
            index <= element.children@.len(),
            Seq::new(children@.len(), |i: int| shown(children@[i])) == children_upto(
                *element,
                index as nat,
            ),
        decreases element.children@.len() - index,
    {
        let ghost before = Seq::new(children@.len(), |i: int| shown(children@[i]));
        match &element.children[index] {
            HtmlNode::Element(child) => {
                let value = html_to_record(child);
                children.push(value);
                assert(Seq::new(children@.len(), |i: int| shown(children@[i])) =~= before.push(
                    record_of(*child),
                ));
            },
            HtmlNode::Text(text) => {
                if !trimmed(text.as_str()).is_empty() {
                    children.push(HtmlValue::Text(text.clone()));
                    assert(Seq::new(children@.len(), |i: int| shown(children@[i]))
                        =~= before.push(ValueView::Text(text@)));
                }
            },
            HtmlNode::Other => {},
        }
        index += 1;
    }
    let record = HtmlRecord {
        attrs: copy_attrs(&element.attrs),
        children,
        tag: element.tag.clone(),
    };
    proof {
        lemma_shown_upto(record, record.children@.len() as nat);
    }
    HtmlValue::Record(record)
}

/// What is shown of a record's first children is what is shown of each.
pub proof fn lemma_shown_upto(record: HtmlRecord, n: nat)
    requires
        n <= record.children@.len(),
    ensures
        shown_upto(record, n) == Seq::new(n, |i: int| shown(record.children@[i])),
    decreases n,
{
    if n > 0 {
        lemma_shown_upto(record, (n - 1) as nat);
        assert(shown_upto(record, n) =~= Seq::new(n, |i: int| shown(record.children@[i])));
    } else {
        assert(shown_upto(record, n) =~= Seq::new(n, |i: int| shown(record.children@[i])));
    }
}

} // verus!
