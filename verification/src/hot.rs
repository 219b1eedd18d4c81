//! The members that have a direct path to their implementation.
//!
//! A member name is classified once, when the engine interns it; from then on
//! the wide hooks choose the direct path by the name's id alone.

use crate::text::{digits, digits_value, is_digit, is_index, law_index_round_trip, same, to_index};
use vstd::prelude::*;

verus! {

/// What a member name means to the direct tier.
#[derive(Clone, Copy, Debug, PartialEq, Eq, Structural)]
pub enum Hot {
    /// No direct path: the reflective bridge serves the member.
    Cold,
    /// `new URL(text)`
    CtorUrl,
    /// `url.pathname`
    Pathname,
    /// `url.search`
    Search,
    /// `document.createElement(tag)`
    CreateElement,
    /// `node.appendChild(child)`
    AppendChild,
    /// `node.textContent`, read or written
    TextContent,
    /// `new Event(type)`
    CtorEvent,
    /// `target.dispatchEvent(event)`
    DispatchEvent,
    /// `element.className = text`
    ClassName,
    /// `element.classList`
    ClassList,
    /// `tokens.contains(token)`
    Contains,
    /// `element.style`
    Style,
    /// `style.setProperty(name, value)`
    SetProperty,
    /// `style.getPropertyValue(name)`
    GetPropertyValue,
    /// `document.querySelectorAll(selector)`
    QuerySelectorAll,
    /// `nodes.length`
    Length,
    /// `nodes[i]`, an indexed access, which crosses as a name made of digits
    Index(u32),
    /// `crypto.getRandomValues(buffer)`
    GetRandomValues,
    /// `encoder.encode(text)`
    Encode,
    /// `decoder.decode(bytes)`
    Decode,
    /// `storage.getItem(key)`
    GetItem,
    /// `storage.setItem(key, value)`
    SetItem,
    /// `storage.removeItem(key)`
    RemoveItem,
}

/// The member name of each hot member. An indexed access has as many names as
/// there are indices, and no member at all has none.
pub open spec fn hot_name(hot: Hot) -> Option<Seq<char>> {
    match hot {
        Hot::CtorUrl => Some("URL"@),
        Hot::Pathname => Some("pathname"@),
        Hot::Search => Some("search"@),
        Hot::CreateElement => Some("createElement"@),
        Hot::AppendChild => Some("appendChild"@),
        Hot::TextContent => Some("textContent"@),
        Hot::CtorEvent => Some("Event"@),
        Hot::DispatchEvent => Some("dispatchEvent"@),
        Hot::ClassName => Some("className"@),
        Hot::ClassList => Some("classList"@),
        Hot::Contains => Some("contains"@),
        Hot::Style => Some("style"@),
        Hot::SetProperty => Some("setProperty"@),
        Hot::GetPropertyValue => Some("getPropertyValue"@),
        Hot::QuerySelectorAll => Some("querySelectorAll"@),
        Hot::Length => Some("length"@),
        Hot::GetRandomValues => Some("getRandomValues"@),
        Hot::Encode => Some("encode"@),
        Hot::Decode => Some("decode"@),
        Hot::GetItem => Some("getItem"@),
        Hot::SetItem => Some("setItem"@),
        Hot::RemoveItem => Some("removeItem"@),
        Hot::Index(_) => None,
        Hot::Cold => None,
    }
}

/// The classification of a member name.
pub open spec fn classify(name: Seq<char>) -> Hot {
    if name == "URL"@ {
        Hot::CtorUrl
    } else if name == "pathname"@ {
        Hot::Pathname
    } else if name == "search"@ {
        Hot::Search
    } else if name == "createElement"@ {
        Hot::CreateElement
    } else if name == "appendChild"@ {
        Hot::AppendChild
    } else if name == "textContent"@ {
        Hot::TextContent
    } else if name == "Event"@ {
        Hot::CtorEvent
    } else if name == "dispatchEvent"@ {
        Hot::DispatchEvent
    } else if name == "className"@ {
        Hot::ClassName
    } else if name == "classList"@ {
        Hot::ClassList
    } else if name == "contains"@ {
        Hot::Contains
    } else if name == "style"@ {
        Hot::Style
    } else if name == "setProperty"@ {
        Hot::SetProperty
    } else if name == "getPropertyValue"@ {
        Hot::GetPropertyValue
    } else if name == "querySelectorAll"@ {
        Hot::QuerySelectorAll
    } else if name == "length"@ {
        Hot::Length
    } else if name == "getRandomValues"@ {
        Hot::GetRandomValues
    } else if name == "encode"@ {
        Hot::Encode
    } else if name == "decode"@ {
        Hot::Decode
    } else if name == "getItem"@ {
        Hot::GetItem
    } else if name == "setItem"@ {
        Hot::SetItem
    } else if name == "removeItem"@ {
        Hot::RemoveItem
    } else if is_index(name) {
        Hot::Index(digits_value(name) as u32)
    } else {
        Hot::Cold
    }
}

/// Classifies a member name.
pub fn classify_name(name: &str) -> (hot: Hot)
    ensures
        hot == classify(name@),
{
    if same(name, "URL") {
        Hot::CtorUrl
    } else if same(name, "pathname") {
        Hot::Pathname
    } else if same(name, "search") {
        Hot::Search
    } else if same(name, "createElement") {
        Hot::CreateElement
    } else if same(name, "appendChild") {
        Hot::AppendChild
    } else if same(name, "textContent") {
        Hot::TextContent
    } else if same(name, "Event") {
        Hot::CtorEvent
    } else if same(name, "dispatchEvent") {
        Hot::DispatchEvent
    } else if same(name, "className") {
        Hot::ClassName
    } else if same(name, "classList") {
        Hot::ClassList
    } else if same(name, "contains") {
        Hot::Contains
    } else if same(name, "style") {
        Hot::Style
    } else if same(name, "setProperty") {
        Hot::SetProperty
    } else if same(name, "getPropertyValue") {
        Hot::GetPropertyValue
    } else if same(name, "querySelectorAll") {
        Hot::QuerySelectorAll
    } else if same(name, "length") {
        Hot::Length
    } else if same(name, "getRandomValues") {
        Hot::GetRandomValues
    } else if same(name, "encode") {
        Hot::Encode
    } else if same(name, "decode") {
        Hot::Decode
    } else if same(name, "getItem") {
        Hot::GetItem
    } else if same(name, "setItem") {
        Hot::SetItem
    } else if same(name, "removeItem") {
        Hot::RemoveItem
    } else {
        match to_index(name) {
            Some(index) => Hot::Index(index),
            None => Hot::Cold,
        }
    }
}

/// The member names differ from one another, and none of them reads as an index.
proof fn lemma_names_differ()
    ensures
        forall|h: Hot|
            #![trigger hot_name(h)]
            hot_name(h) is Some ==> classify(hot_name(h)->0) == h && !is_index(hot_name(h)->0),
{
    reveal_strlit("URL");
    assert("URL"@.len() == 3 && "URL"@[0] == 'U');
    reveal_strlit("pathname");
    assert("pathname"@.len() == 8 && "pathname"@[0] == 'p');
    reveal_strlit("search");
    assert("search"@.len() == 6 && "search"@[0] == 's');
    reveal_strlit("createElement");
    assert("createElement"@.len() == 13 && "createElement"@[0] == 'c');
    reveal_strlit("appendChild");
    assert("appendChild"@.len() == 11 && "appendChild"@[0] == 'a');
    reveal_strlit("textContent");
    assert("textContent"@.len() == 11 && "textContent"@[0] == 't');
    reveal_strlit("Event");
    assert("Event"@.len() == 5 && "Event"@[0] == 'E');
    reveal_strlit("dispatchEvent");
    assert("dispatchEvent"@.len() == 13 && "dispatchEvent"@[0] == 'd');
    reveal_strlit("className");
    assert("className"@.len() == 9 && "className"@[0] == 'c' && "className"@[5] == 'N');
    reveal_strlit("classList");
    assert("classList"@.len() == 9 && "classList"@[0] == 'c' && "classList"@[5] == 'L');
    reveal_strlit("contains");
    assert("contains"@.len() == 8 && "contains"@[0] == 'c');
    reveal_strlit("style");
    assert("style"@.len() == 5 && "style"@[0] == 's');
    reveal_strlit("setProperty");
    assert("setProperty"@.len() == 11 && "setProperty"@[0] == 's');
    reveal_strlit("getPropertyValue");
    assert("getPropertyValue"@.len() == 16 && "getPropertyValue"@[0] == 'g');
    reveal_strlit("querySelectorAll");
    assert("querySelectorAll"@.len() == 16 && "querySelectorAll"@[0] == 'q');
    reveal_strlit("length");
    assert("length"@.len() == 6 && "length"@[0] == 'l');
    reveal_strlit("getRandomValues");
    assert("getRandomValues"@.len() == 15 && "getRandomValues"@[0] == 'g');
    reveal_strlit("encode");
    assert("encode"@.len() == 6 && "encode"@[0] == 'e');
    reveal_strlit("decode");
    assert("decode"@.len() == 6 && "decode"@[0] == 'd');
    reveal_strlit("getItem");
    assert("getItem"@.len() == 7 && "getItem"@[0] == 'g');
    reveal_strlit("setItem");
    assert("setItem"@.len() == 7 && "setItem"@[0] == 's');
    reveal_strlit("removeItem");
    assert("removeItem"@.len() == 10 && "removeItem"@[0] == 'r');
    assert forall|h: Hot|
        #![trigger hot_name(h)]
        hot_name(h) is Some implies classify(hot_name(h)->0) == h && !is_index(hot_name(h)->0) by {
        let name = hot_name(h)->0;
        assert(!is_digit(name[0]));
    }
}

/// Each hot member has exactly one name: a name is classified as the member if
/// and only if it is the member's name.
pub proof fn law_one_name_per_member(name: Seq<char>, hot: Hot)
    requires
        hot_name(hot) is Some,
    ensures
        classify(name) == hot <==> hot_name(hot) == Some(name),
{
    lemma_names_differ();
    assert(hot_name(hot) is Some);
}

/// A name made of one to nine digits, and no other, is classified as an indexed
/// access, at the number that the digits stand for.
pub proof fn law_digits_are_an_index(name: Seq<char>)
    ensures
        is_index(name) <==> classify(name) is Index,
        is_index(name) ==> classify(name) == Hot::Index(digits_value(name) as u32),
{
    lemma_names_differ();
    assert(hot_name(Hot::CtorUrl) == Some("URL"@));
    assert(hot_name(Hot::Pathname) == Some("pathname"@));
    assert(hot_name(Hot::Search) == Some("search"@));
    assert(hot_name(Hot::CreateElement) == Some("createElement"@));
    assert(hot_name(Hot::AppendChild) == Some("appendChild"@));
    assert(hot_name(Hot::TextContent) == Some("textContent"@));
    assert(hot_name(Hot::CtorEvent) == Some("Event"@));
    assert(hot_name(Hot::DispatchEvent) == Some("dispatchEvent"@));
    assert(hot_name(Hot::ClassName) == Some("className"@));
    assert(hot_name(Hot::ClassList) == Some("classList"@));
    assert(hot_name(Hot::Contains) == Some("contains"@));
    assert(hot_name(Hot::Style) == Some("style"@));
    assert(hot_name(Hot::SetProperty) == Some("setProperty"@));
    assert(hot_name(Hot::GetPropertyValue) == Some("getPropertyValue"@));
    assert(hot_name(Hot::QuerySelectorAll) == Some("querySelectorAll"@));
    assert(hot_name(Hot::Length) == Some("length"@));
    assert(hot_name(Hot::GetRandomValues) == Some("getRandomValues"@));
    assert(hot_name(Hot::Encode) == Some("encode"@));
    assert(hot_name(Hot::Decode) == Some("decode"@));
    assert(hot_name(Hot::GetItem) == Some("getItem"@));
    assert(hot_name(Hot::SetItem) == Some("setItem"@));
    assert(hot_name(Hot::RemoveItem) == Some("removeItem"@));
}

/// An index below a thousand million crosses as its decimal digits and comes out
/// as the access to that index.
pub proof fn law_index_crosses(index: nat)
    requires
        index < 1_000_000_000,
    ensures
        classify(digits(index)) == Hot::Index(index as u32),
{
    law_index_round_trip(index);
    law_digits_are_an_index(digits(index));
}

}
