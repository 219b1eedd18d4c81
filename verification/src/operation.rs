//! What the direct tier has the document do: each covered use of a member as an
//! operation, with the texts that it is given.

use crate::direct::{arg_text, covered, Access, Member, MemberView};
use crate::hot::Hot;
use vstd::prelude::*;

verus! {

/// An operation of the document on a receiver. What it takes besides texts, the
/// task has found: another native, or the object behind a handle.
pub enum Operation<S> {
    /// a new URL parsed from a text, without a base
    NewUrl(S),
    /// a new event of a type, which neither bubbles nor can be cancelled
    NewEvent(S),
    /// the path of a URL
    Pathname,
    /// the query of a URL
    Search,
    /// the text of a node, where it has one
    TextContent,
    /// the class list of an element
    ClassList,
    /// the style of an element
    Style,
    /// how many nodes a list has
    Length,
    /// the node at a position of a list, where there is one
    Item(u32),
    /// a node is given a text
    SetTextContent(S),
    /// an element is given a class name
    SetClassName(S),
    /// a new element with a tag name, without options
    CreateElement(S),
    /// the other node becomes the last child
    AppendChild,
    /// the event is dispatched: whether it was not cancelled
    DispatchEvent,
    /// whether a class list holds a token
    Contains(S),
    /// a style property is set: its name and its value, without a priority
    SetProperty(S, S),
    /// the value of a style property
    GetPropertyValue(S),
    /// the elements that match a selector
    QuerySelectorAll(S),
    /// the buffer is filled with random bytes
    GetRandomValues,
    /// the bytes of a text
    Encode(S),
    /// the text that the bytes encode, without options
    Decode,
    /// the value under a key of a storage, where there is one
    GetItem(S),
    /// a key of a storage is given a value: the key and the value
    SetItem(S, S),
    /// a key of a storage is removed
    RemoveItem(S),
}

impl View for Operation<String> {
    type V = Operation<Seq<char>>;

    open spec fn view(&self) -> Operation<Seq<char>> {
        match self {
            Operation::NewUrl(a) => Operation::NewUrl(a@),
            Operation::NewEvent(a) => Operation::NewEvent(a@),
            Operation::Pathname => Operation::Pathname,
            Operation::Search => Operation::Search,
            Operation::TextContent => Operation::TextContent,
            Operation::ClassList => Operation::ClassList,
            Operation::Style => Operation::Style,
            Operation::Length => Operation::Length,
            Operation::Item(i) => Operation::Item(*i),
            Operation::SetTextContent(a) => Operation::SetTextContent(a@),
            Operation::SetClassName(a) => Operation::SetClassName(a@),
            Operation::CreateElement(a) => Operation::CreateElement(a@),
            Operation::AppendChild => Operation::AppendChild,
            Operation::DispatchEvent => Operation::DispatchEvent,
            Operation::Contains(a) => Operation::Contains(a@),
            Operation::SetProperty(a, b) => Operation::SetProperty(a@, b@),
            Operation::GetPropertyValue(a) => Operation::GetPropertyValue(a@),
            Operation::QuerySelectorAll(a) => Operation::QuerySelectorAll(a@),
            Operation::GetRandomValues => Operation::GetRandomValues,
            Operation::Encode(a) => Operation::Encode(a@),
            Operation::Decode => Operation::Decode,
            Operation::GetItem(a) => Operation::GetItem(a@),
            Operation::SetItem(a, b) => Operation::SetItem(a@, b@),
            Operation::RemoveItem(a) => Operation::RemoveItem(a@),
        }
    }
}

/// The operation that a use of a member stands for on the direct tier.
pub open spec fn operation(m: MemberView) -> Option<Operation<Seq<char>>> {
    let first = arg_text(m.args, 0);
    let second = arg_text(m.args, 1);
    match m.access {
        Access::Read => match m.hot {
            Hot::Pathname => Some(Operation::Pathname),
            Hot::Search => Some(Operation::Search),
            Hot::TextContent => Some(Operation::TextContent),
            Hot::ClassList => Some(Operation::ClassList),
            Hot::Style => Some(Operation::Style),
            Hot::Length => Some(Operation::Length),
            Hot::Index(i) => Some(Operation::Item(i)),
            _ => None,
        },
        Access::Write => match m.hot {
            Hot::TextContent => Some(Operation::SetTextContent(first)),
            Hot::ClassName => Some(Operation::SetClassName(first)),
            _ => None,
        },
        Access::Invoke => match m.hot {
            Hot::CreateElement => Some(Operation::CreateElement(first)),
            Hot::AppendChild => Some(Operation::AppendChild),
            Hot::DispatchEvent => Some(Operation::DispatchEvent),
            Hot::Contains => Some(Operation::Contains(first)),
            Hot::SetProperty => Some(Operation::SetProperty(first, second)),
            Hot::GetPropertyValue => Some(Operation::GetPropertyValue(first)),
            Hot::QuerySelectorAll => Some(Operation::QuerySelectorAll(first)),
            Hot::GetRandomValues => Some(Operation::GetRandomValues),
            Hot::Encode => Some(Operation::Encode(first)),
            Hot::Decode => Some(Operation::Decode),
            Hot::GetItem => Some(Operation::GetItem(first)),
            Hot::SetItem => Some(Operation::SetItem(first, second)),
            Hot::RemoveItem => Some(Operation::RemoveItem(first)),
            _ => None,
        },
        Access::Construct => match m.hot {
            Hot::CtorUrl => Some(Operation::NewUrl(first)),
            Hot::CtorEvent => Some(Operation::NewEvent(first)),
            _ => None,
        },
    }
}

impl Member {
    /// The operation that the use stands for on the direct tier.
    pub fn operation(&self) -> (op: Option<Operation<String>>)
        ensures
            op is Some <==> operation(self@) is Some,
            op matches Some(o) ==> Some(o@) == operation(self@),
    {
        match self.access {
            Access::Read => match self.hot {
                Hot::Pathname => Some(Operation::Pathname),
                Hot::Search => Some(Operation::Search),
                Hot::TextContent => Some(Operation::TextContent),
                Hot::ClassList => Some(Operation::ClassList),
                Hot::Style => Some(Operation::Style),
                Hot::Length => Some(Operation::Length),
                Hot::Index(i) => Some(Operation::Item(i)),
                _ => None,
            },
            Access::Write => match self.hot {
                Hot::TextContent => Some(Operation::SetTextContent(self.arg_text(0))),
                Hot::ClassName => Some(Operation::SetClassName(self.arg_text(0))),
                _ => None,
            },
            Access::Invoke => match self.hot {
                Hot::CreateElement => Some(Operation::CreateElement(self.arg_text(0))),
                Hot::AppendChild => Some(Operation::AppendChild),
                Hot::DispatchEvent => Some(Operation::DispatchEvent),
                Hot::Contains => Some(Operation::Contains(self.arg_text(0))),
                Hot::SetProperty => Some(
                    Operation::SetProperty(self.arg_text(0), self.arg_text(1)),
                ),
                Hot::GetPropertyValue => Some(Operation::GetPropertyValue(self.arg_text(0))),
                Hot::QuerySelectorAll => Some(Operation::QuerySelectorAll(self.arg_text(0))),
                Hot::GetRandomValues => Some(Operation::GetRandomValues),
                Hot::Encode => Some(Operation::Encode(self.arg_text(0))),
                Hot::Decode => Some(Operation::Decode),
                Hot::GetItem => Some(Operation::GetItem(self.arg_text(0))),
                Hot::SetItem => Some(Operation::SetItem(self.arg_text(0), self.arg_text(1))),
                Hot::RemoveItem => Some(Operation::RemoveItem(self.arg_text(0))),
                _ => None,
            },
            Access::Construct => match self.hot {
                Hot::CtorUrl => Some(Operation::NewUrl(self.arg_text(0))),
                Hot::CtorEvent => Some(Operation::NewEvent(self.arg_text(0))),
                _ => None,
            },
        }
    }
}

/// Exactly the uses that the direct tier covers stand for an operation.
pub proof fn law_covered_uses_are_operations(m: MemberView)
    ensures
        operation(m) is Some <==> covered(m.access, m.hot),
{
}

}
