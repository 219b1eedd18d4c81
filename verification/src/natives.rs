//! The natives found behind a bridge handle.
//!
//! A handle names an object of the realm. Finding the native implementation
//! behind the object takes a call into the realm, so what was found is kept, one
//! slot per role the object can play, until the handle is released. A native is
//! known here by its address alone; it never moves while its handle lives.

use vstd::prelude::*;

verus! {

/// The role in which an object is used.
#[derive(Clone, Copy, Debug, PartialEq, Eq, Structural)]
pub enum Role {
    /// as a `URL`
    Url,
    /// as a `Document`
    Document,
    /// as an `Element`
    Element,
    /// as an `HTMLElement`
    Html,
    /// as a `Node`
    Node,
    /// as a `NodeList`
    NodeList,
    /// as a `DOMTokenList`
    TokenList,
    /// as a `CSSStyleDeclaration`
    Style,
    /// as an `Event`
    Event,
    /// as an `EventTarget`
    Target,
    /// as a `Storage`
    Storage,
    /// as a `Crypto`
    Crypto,
    /// as a `TextEncoder`
    Encoder,
    /// as a `TextDecoder`
    Decoder,
    /// as a `CanvasRenderingContext2D`
    Canvas2d,
}

/// The addresses of the natives behind one handle, one slot per role; 0 where
/// the handle was not resolved in that role yet.
#[derive(Clone, Copy, Debug, PartialEq, Eq, Structural)]
pub struct Natives {
    pub url: usize,
    pub document: usize,
    pub element: usize,
    pub html: usize,
    pub node: usize,
    pub node_list: usize,
    pub token_list: usize,
    pub style: usize,
    pub event: usize,
    pub target: usize,
    pub storage: usize,
    pub crypto: usize,
    pub encoder: usize,
    pub decoder: usize,
    pub canvas2d: usize,
}

/// No role resolved.
pub open spec fn unresolved() -> Natives {
    Natives {
        url: 0,
        document: 0,
        element: 0,
        html: 0,
        node: 0,
        node_list: 0,
        token_list: 0,
        style: 0,
        event: 0,
        target: 0,
        storage: 0,
        crypto: 0,
        encoder: 0,
        decoder: 0,
        canvas2d: 0,
    }
}

impl Default for Natives {
    fn default() -> (natives: Self)
        ensures
            natives == unresolved(),
    {
        Natives {
            url: 0,
            document: 0,
            element: 0,
            html: 0,
            node: 0,
            node_list: 0,
            token_list: 0,
            style: 0,
            event: 0,
            target: 0,
            storage: 0,
            crypto: 0,
            encoder: 0,
            decoder: 0,
            canvas2d: 0,
        }
    }
}

impl Natives {
    /// The address held for a role.
    pub open spec fn slot(self, role: Role) -> usize {
        match role {
            Role::Url => self.url,
            Role::Document => self.document,
            Role::Element => self.element,
            Role::Html => self.html,
            Role::Node => self.node,
            Role::NodeList => self.node_list,
            Role::TokenList => self.token_list,
            Role::Style => self.style,
            Role::Event => self.event,
            Role::Target => self.target,
            Role::Storage => self.storage,
            Role::Crypto => self.crypto,
            Role::Encoder => self.encoder,
            Role::Decoder => self.decoder,
            Role::Canvas2d => self.canvas2d,
        }
    }

    /// The same natives with another address for one role.
    pub open spec fn with_slot(self, role: Role, address: usize) -> Natives {
        match role {
            Role::Url => Natives { url: address, ..self },
            Role::Document => Natives { document: address, ..self },
            Role::Element => Natives { element: address, ..self },
            Role::Html => Natives { html: address, ..self },
            Role::Node => Natives { node: address, ..self },
            Role::NodeList => Natives { node_list: address, ..self },
            Role::TokenList => Natives { token_list: address, ..self },
            Role::Style => Natives { style: address, ..self },
            Role::Event => Natives { event: address, ..self },
            Role::Target => Natives { target: address, ..self },
            Role::Storage => Natives { storage: address, ..self },
            Role::Crypto => Natives { crypto: address, ..self },
            Role::Encoder => Natives { encoder: address, ..self },
            Role::Decoder => Natives { decoder: address, ..self },
            Role::Canvas2d => Natives { canvas2d: address, ..self },
        }
    }

    /// Reads the address held for a role.
    pub fn get(&self, role: Role) -> (address: usize)
        ensures
            address == self.slot(role),
    {
        match role {
            Role::Url => self.url,
            Role::Document => self.document,
            Role::Element => self.element,
            Role::Html => self.html,
            Role::Node => self.node,
            Role::NodeList => self.node_list,
            Role::TokenList => self.token_list,
            Role::Style => self.style,
            Role::Event => self.event,
            Role::Target => self.target,
            Role::Storage => self.storage,
            Role::Crypto => self.crypto,
            Role::Encoder => self.encoder,
            Role::Decoder => self.decoder,
            Role::Canvas2d => self.canvas2d,
        }
    }

    /// Holds an address for a role.
    pub fn set(&mut self, role: Role, address: usize)
        ensures
            *final(self) == old(self).with_slot(role, address),
    {
        match role {
            Role::Url => self.url = address,
            Role::Document => self.document = address,
            Role::Element => self.element = address,
            Role::Html => self.html = address,
            Role::Node => self.node = address,
            Role::NodeList => self.node_list = address,
            Role::TokenList => self.token_list = address,
            Role::Style => self.style = address,
            Role::Event => self.event = address,
            Role::Target => self.target = address,
            Role::Storage => self.storage = address,
            Role::Crypto => self.crypto = address,
            Role::Encoder => self.encoder = address,
            Role::Decoder => self.decoder = address,
            Role::Canvas2d => self.canvas2d = address,
        }
    }
}

/// The slots are independent: a role gives back what was last held for it,
/// whatever was held for the other roles, and no role is resolved at first.
pub proof fn law_slots_are_independent(natives: Natives, role: Role, other: Role, address: usize)
    ensures
        natives.with_slot(role, address).slot(role) == address,
        role != other ==> natives.with_slot(role, address).slot(other) == natives.slot(other),
        unresolved().slot(role) == 0,
{
}

}
