//! The direct tier: which uses of a hot member it covers, what it asks of the
//! arguments, and which natives it needs. Whatever it does not take goes to the
//! reflective bridge with the same target, member and arguments.

use crate::bridge::{cb_mask, kind_mask, put_wide, refs_mask, wide_args, BridgeCall, CallView};
use crate::host::{resolved, Host, RunnerView};
use crate::hot::Hot;
use crate::natives::Role;
use crate::number::{as_double, as_i64, from_i64, to_i64};
use crate::protocol::{args16, Arg16, Method, Reply, KIND_CALLBACK, KIND_REF, KIND_STRING};
use crate::text::{decode16, from_utf16};
use vstd::prelude::*;

verus! {

/// How a member is used.
#[derive(Clone, Copy, Debug, PartialEq, Eq, Structural)]
pub enum Access {
    /// read as a property
    Read,
    /// written as a property
    Write,
    /// called as a method
    Invoke,
    /// called as a constructor
    Construct,
}

/// A use of a member through the wide hooks.
pub struct Member {
    pub access: Access,
    /// The handle of the object; 0 for a constructor, which has none.
    pub target: i64,
    /// The interned id of the member.
    pub id: u32,
    /// What the id was classified as.
    pub hot: Hot,
    pub args: Vec<Arg16<Vec<u16>>>,
    /// The address of the receiver's native, once found.
    pub receiver: usize,
    /// The address of the operand's native, once found.
    pub operand: usize,
}

/// What a use of a member consists of.
#[verifier::ext_equal]
pub struct MemberView {
    pub access: Access,
    pub target: i64,
    pub id: u32,
    pub hot: Hot,
    pub args: Seq<Arg16<Seq<u16>>>,
    pub receiver: usize,
    pub operand: usize,
}

impl View for Member {
    type V = MemberView;

    open spec fn view(&self) -> MemberView {
        MemberView {
            access: self.access,
            target: self.target,
            id: self.id,
            hot: self.hot,
            args: args16(self.args@),
            receiver: self.receiver,
            operand: self.operand,
        }
    }
}

/// What an operation takes besides its receiver and its texts.
#[derive(Clone, Copy, Debug, PartialEq, Eq, Structural)]
pub enum Operand {
    /// nothing
    Absent,
    /// the native behind the first argument's handle
    Native(Role),
    /// the object behind the first argument's handle
    Object,
}

/// Whether the direct tier is tried at all.
pub open spec fn attempted(access: Access, hot: Hot, args: Seq<Arg16<Seq<u16>>>) -> bool {
    match access {
        Access::Write => args.len() > 0 && (hot == Hot::TextContent || hot == Hot::ClassName),
        _ => hot != Hot::Cold,
    }
}

/// The uses of hot members that the direct tier covers.
pub open spec fn covered(access: Access, hot: Hot) -> bool {
    match access {
        Access::Read => match hot {
            Hot::Pathname => true,
            Hot::Search => true,
            Hot::TextContent => true,
            Hot::ClassList => true,
            Hot::Style => true,
            Hot::Length => true,
            Hot::Index(_) => true,
            _ => false,
        },
        Access::Write => match hot {
            Hot::TextContent => true,
            Hot::ClassName => true,
            _ => false,
        },
        Access::Invoke => match hot {
            Hot::CreateElement => true,
            Hot::AppendChild => true,
            Hot::DispatchEvent => true,
            Hot::Contains => true,
            Hot::SetProperty => true,
            Hot::GetPropertyValue => true,
            Hot::QuerySelectorAll => true,
            Hot::GetRandomValues => true,
            Hot::Encode => true,
            Hot::Decode => true,
            Hot::GetItem => true,
            Hot::SetItem => true,
            Hot::RemoveItem => true,
            _ => false,
        },
        Access::Construct => match hot {
            Hot::CtorUrl => true,
            Hot::CtorEvent => true,
            _ => false,
        },
    }
}

/// Whether there is an argument at a position and it is of a kind.
pub open spec fn arg_is(args: Seq<Arg16<Seq<u16>>>, i: int, kind: i32) -> bool {
    i < args.len() && args[i].kind == kind
}

/// How many arguments a covered use makes use of.
pub open spec fn arity(access: Access, hot: Hot) -> nat {
    match access {
        Access::Read => 0,
        _ => match hot {
            Hot::SetProperty => 2,
            Hot::SetItem => 2,
            _ => 1,
        },
    }
}

/// Whether the page reads further arguments of a use than its operation makes use
/// of: the base of a URL, the options of an event, of an element and of a decoder,
/// and the priority of a style property. Of every other use the page ignores
/// further arguments too.
pub open spec fn reads_more(access: Access, hot: Hot) -> bool {
    match access {
        Access::Construct => true,
        Access::Invoke => hot == Hot::SetProperty || hot == Hot::CreateElement || hot
            == Hot::Decode,
        _ => false,
    }
}

/// What a covered use asks of its arguments before any native is looked for. There
/// is none that the page reads and the operation does not. A read asks for nothing
/// more; a written value is a string; an operation on another object takes its
/// handle, and every other one takes strings.
pub open spec fn fitting(access: Access, hot: Hot, args: Seq<Arg16<Seq<u16>>>) -> bool {
    &&& reads_more(access, hot) ==> args.len() <= arity(access, hot)
    &&& match access {
        Access::Read => true,
        _ => match hot {
            Hot::AppendChild => arg_is(args, 0, KIND_REF),
            Hot::DispatchEvent => arg_is(args, 0, KIND_REF),
            Hot::GetRandomValues => arg_is(args, 0, KIND_REF),
            Hot::Decode => arg_is(args, 0, KIND_REF),
            Hot::SetItem => arg_is(args, 0, KIND_STRING) && arg_is(args, 1, KIND_STRING),
            _ => arg_is(args, 0, KIND_STRING),
        },
    }
}

/// What an operation asks of its arguments once its receiver was found: a style
/// property is set to a string.
pub open spec fn fitting_late(hot: Hot, args: Seq<Arg16<Seq<u16>>>) -> bool {
    hot == Hot::SetProperty ==> arg_is(args, 1, KIND_STRING)
}

/// The role in which the receiver is used; a constructor has no receiver.
pub open spec fn receiver_role(hot: Hot) -> Option<Role> {
    match hot {
        Hot::Pathname => Some(Role::Url),
        Hot::Search => Some(Role::Url),
        Hot::CreateElement => Some(Role::Document),
        Hot::QuerySelectorAll => Some(Role::Document),
        Hot::AppendChild => Some(Role::Node),
        Hot::TextContent => Some(Role::Node),
        Hot::DispatchEvent => Some(Role::Target),
        Hot::ClassName => Some(Role::Element),
        Hot::ClassList => Some(Role::Element),
        Hot::Contains => Some(Role::TokenList),
        Hot::Style => Some(Role::Html),
        Hot::SetProperty => Some(Role::Style),
        Hot::GetPropertyValue => Some(Role::Style),
        Hot::Length => Some(Role::NodeList),
        Hot::Index(_) => Some(Role::NodeList),
        Hot::GetRandomValues => Some(Role::Crypto),
        Hot::Encode => Some(Role::Encoder),
        Hot::Decode => Some(Role::Decoder),
        Hot::GetItem => Some(Role::Storage),
        Hot::SetItem => Some(Role::Storage),
        Hot::RemoveItem => Some(Role::Storage),
        Hot::CtorUrl => None,
        Hot::CtorEvent => None,
        Hot::Cold => None,
    }
}

/// What an operation takes besides its receiver and its texts.
pub open spec fn operand_of(hot: Hot) -> Operand {
    match hot {
        Hot::AppendChild => Operand::Native(Role::Node),
        Hot::DispatchEvent => Operand::Native(Role::Event),
        Hot::GetRandomValues => Operand::Object,
        Hot::Decode => Operand::Object,
        _ => Operand::Absent,
    }
}

/// The handle that the first argument carries.
pub open spec fn operand_handle(args: Seq<Arg16<Seq<u16>>>) -> i64 {
    if args.len() > 0 {
        as_i64(args[0].num)
    } else {
        0
    }
}

/// The reply to an operation that went through and has no result of its own: a
/// method that gives its first argument back is replied with that argument's
/// handle, and everything else with nothing.
pub open spec fn done_reply(m: MemberView) -> Reply {
    if m.access == Access::Invoke && m.args.len() > 0 && (m.hot == Hot::AppendChild || m.hot
        == Hot::GetRandomValues) {
        Reply::Ref(m.args[0].num)
    } else {
        Reply::Nothing
    }
}

/// The text of an argument; empty where there is no such argument.
pub open spec fn arg_text(args: Seq<Arg16<Seq<u16>>>, i: int) -> Seq<char> {
    if i < args.len() {
        decode16(args[i].str16)
    } else {
        Seq::empty()
    }
}

/// The host after an object that a member created was registered under a handle:
/// its native is kept in the role it was created in, an element also as a node,
/// and encoded bytes in none.
pub open spec fn created(
    host: Option<RunnerView>,
    hot: Hot,
    handle: i64,
    native: usize,
    node: usize,
) -> Option<RunnerView> {
    match hot {
        Hot::CtorUrl => resolved(host, handle, Role::Url, native),
        Hot::CtorEvent => resolved(host, handle, Role::Event, native),
        Hot::CreateElement => resolved(
            resolved(host, handle, Role::Element, native),
            handle,
            Role::Node,
            node,
        ),
        Hot::ClassList => resolved(host, handle, Role::TokenList, native),
        Hot::Style => resolved(host, handle, Role::Style, native),
        Hot::QuerySelectorAll => resolved(host, handle, Role::NodeList, native),
        Hot::Index(_) => resolved(host, handle, Role::Node, native),
        _ => host,
    }
}

/// The reflective call that a use of a member falls back to: the wide method for
/// the access, called with the target, the member's id, the masks of handles and
/// of callbacks, and the arguments. A read has no arguments and no masks, and a
/// constructor has no target.
pub open spec fn reflective(m: MemberView) -> CallView {
    let target = as_double(m.target as int);
    let id = as_double(m.id as int);
    let refs = as_double(kind_mask(m.args, KIND_REF) as int);
    let callbacks = as_double(kind_mask(m.args, KIND_CALLBACK) as int);
    match m.access {
        Access::Read => CallView {
            method: Method::GetWide,
            args: wide_args(seq![target, id], Seq::empty()),
        },
        Access::Write => CallView {
            method: Method::SetWide,
            args: wide_args(seq![target, id, refs, callbacks], m.args),
        },
        Access::Invoke => CallView {
            method: Method::CallWide,
            args: wide_args(seq![target, id, refs, callbacks], m.args),
        },
        Access::Construct => CallView {
            method: Method::NewWide,
            args: wide_args(seq![id, refs, callbacks], m.args),
        },
    }
}

impl Member {
    /// Whether the direct tier is tried at all.
    pub fn attempted(&self) -> (r: bool)
        ensures
            r == attempted(self@.access, self@.hot, self@.args),
    {
        match self.access {
            Access::Write => self.args.len() > 0 && (self.hot == Hot::TextContent || self.hot
                == Hot::ClassName),
            _ => self.hot != Hot::Cold,
        }
    }

    /// Whether the direct tier covers the use.
    pub fn covered(&self) -> (r: bool)
        ensures
            r == covered(self@.access, self@.hot),
    {
        match self.access {
            Access::Read => match self.hot {
                Hot::Pathname | Hot::Search | Hot::TextContent | Hot::ClassList | Hot::Style
                | Hot::Length | Hot::Index(_) => true,
                _ => false,
            },
            Access::Write => match self.hot {
                Hot::TextContent | Hot::ClassName => true,
                _ => false,
            },
            Access::Invoke => match self.hot {
                Hot::CreateElement | Hot::AppendChild | Hot::DispatchEvent | Hot::Contains
                | Hot::SetProperty | Hot::GetPropertyValue | Hot::QuerySelectorAll
                | Hot::GetRandomValues | Hot::Encode | Hot::Decode | Hot::GetItem | Hot::SetItem
                | Hot::RemoveItem => true,
                _ => false,
            },
            Access::Construct => match self.hot {
                Hot::CtorUrl | Hot::CtorEvent => true,
                _ => false,
            },
        }
    }

    fn arg_is(&self, i: usize, kind: i32) -> (r: bool)
        ensures
            r == arg_is(self@.args, i as int, kind),
    {
        i < self.args.len() && self.args[i].kind == kind
    }

    /// How many arguments the use makes use of.
    fn arity(&self) -> (n: usize)
        ensures
            n == arity(self@.access, self@.hot),
    {
        match self.access {
            Access::Read => 0,
            _ => match self.hot {
                Hot::SetProperty | Hot::SetItem => 2,
                _ => 1,
            },
        }
    }

    /// Whether the page reads further arguments than the operation makes use of.
    fn reads_more(&self) -> (r: bool)
        ensures
            r == reads_more(self@.access, self@.hot),
    {
        match (self.access, self.hot) {
            (Access::Construct, _) => true,
            (Access::Invoke, Hot::SetProperty | Hot::CreateElement | Hot::Decode) => true,
            _ => false,
        }
    }

    /// Whether the arguments are what the use asks for before any native is
    /// looked for.
    pub fn fitting(&self) -> (r: bool)
        ensures
            r == fitting(self@.access, self@.hot, self@.args),
    {
        if self.reads_more() && self.args.len() > self.arity() {
            return false;
        }
        match self.access {
            Access::Read => true,
            _ => match self.hot {
                Hot::AppendChild | Hot::DispatchEvent | Hot::GetRandomValues | Hot::Decode =>
                    self.arg_is(0, KIND_REF),
                Hot::SetItem => self.arg_is(0, KIND_STRING) && self.arg_is(1, KIND_STRING),
                _ => self.arg_is(0, KIND_STRING),
            },
        }
    }

    /// Whether the arguments are what the operation asks for once its receiver
    /// was found.
    pub fn fitting_late(&self) -> (r: bool)
        ensures
            r == fitting_late(self@.hot, self@.args),
    {
        match self.hot {
            Hot::SetProperty => self.arg_is(1, KIND_STRING),
            _ => true,
        }
    }

    /// The handle that the first argument carries.
    pub fn operand_handle(&self) -> (handle: i64)
        ensures
            handle == operand_handle(self@.args),
    {
        if self.args.len() > 0 {
            to_i64(self.args[0].num)
        } else {
            0
        }
    }

    /// The reply to the operation where it went through and has no result of its
    /// own.
    pub fn done_reply(&self) -> (reply: Reply)
        ensures
            reply == done_reply(self@),
    {
        match (self.access, self.hot) {
            (Access::Invoke, Hot::AppendChild | Hot::GetRandomValues) => if self.args.len() > 0 {
                Reply::Ref(self.args[0].num)
            } else {
                Reply::Nothing
            },
            _ => Reply::Nothing,
        }
    }

    /// The text of an argument; empty where there is no such argument.
    pub fn arg_text(&self, i: usize) -> (text: String)
        ensures
            text@ == arg_text(self@.args, i as int),
    {
        if i < self.args.len() {
            from_utf16(&self.args[i].str16)
        } else {
            String::new()
        }
    }

    /// The reflective call that the use falls back to.
    pub fn reflective(&self) -> (call: BridgeCall)
        ensures
            call@ == reflective(self@),
    {
        let target: u64 = from_i64(self.target);
        let id: u64 = from_i64(self.id as i64);
        let refs: u64 = from_i64(refs_mask(&self.args) as i64);
        let callbacks: u64 = from_i64(cb_mask(&self.args) as i64);
        match self.access {
            Access::Read => {
                let lead: Vec<u64> = vec![target, id];
                let none: Vec<Arg16<Vec<u16>>> = Vec::new();
                assert(lead@ =~= seq![target, id]);
                assert(args16(none@) =~= Seq::empty());
                BridgeCall { method: Method::GetWide, args: put_wide(&lead, &none) }
            },
            Access::Write => {
                let lead: Vec<u64> = vec![target, id, refs, callbacks];
                assert(lead@ =~= seq![target, id, refs, callbacks]);
                BridgeCall { method: Method::SetWide, args: put_wide(&lead, &self.args) }
            },
            Access::Invoke => {
                let lead: Vec<u64> = vec![target, id, refs, callbacks];
                assert(lead@ =~= seq![target, id, refs, callbacks]);
                BridgeCall { method: Method::CallWide, args: put_wide(&lead, &self.args) }
            },
            Access::Construct => {
                let lead: Vec<u64> = vec![id, refs, callbacks];
                assert(lead@ =~= seq![id, refs, callbacks]);
                BridgeCall { method: Method::NewWide, args: put_wide(&lead, &self.args) }
            },
        }
    }
}

/// The role in which a receiver is used.
pub fn role_of_receiver(hot: Hot) -> (role: Option<Role>)
    ensures
        role == receiver_role(hot),
{
    match hot {
        Hot::Pathname | Hot::Search => Some(Role::Url),
        Hot::CreateElement | Hot::QuerySelectorAll => Some(Role::Document),
        Hot::AppendChild | Hot::TextContent => Some(Role::Node),
        Hot::DispatchEvent => Some(Role::Target),
        Hot::ClassName | Hot::ClassList => Some(Role::Element),
        Hot::Contains => Some(Role::TokenList),
        Hot::Style => Some(Role::Html),
        Hot::SetProperty | Hot::GetPropertyValue => Some(Role::Style),
        Hot::Length | Hot::Index(_) => Some(Role::NodeList),
        Hot::GetRandomValues => Some(Role::Crypto),
        Hot::Encode => Some(Role::Encoder),
        Hot::Decode => Some(Role::Decoder),
        Hot::GetItem | Hot::SetItem | Hot::RemoveItem => Some(Role::Storage),
        Hot::CtorUrl | Hot::CtorEvent | Hot::Cold => None,
    }
}

/// What an operation takes besides its receiver and its texts.
pub fn operand_for(hot: Hot) -> (operand: Operand)
    ensures
        operand == operand_of(hot),
{
    match hot {
        Hot::AppendChild => Operand::Native(Role::Node),
        Hot::DispatchEvent => Operand::Native(Role::Event),
        Hot::GetRandomValues | Hot::Decode => Operand::Object,
        _ => Operand::Absent,
    }
}

/// Keeps the native of an object that a member created.
pub fn keep_created(host: &mut Host, hot: Hot, handle: i64, native: usize, node: usize)
    ensures
        final(host)@ == created(old(host)@, hot, handle, native, node),
{
    match hot {
        Hot::CtorUrl => host.resolve(handle, Role::Url, native),
        Hot::CtorEvent => host.resolve(handle, Role::Event, native),
        Hot::CreateElement => {
            host.resolve(handle, Role::Element, native);
            host.resolve(handle, Role::Node, node);
        },
        Hot::ClassList => host.resolve(handle, Role::TokenList, native),
        Hot::Style => host.resolve(handle, Role::Style, native),
        Hot::QuerySelectorAll => host.resolve(handle, Role::NodeList, native),
        Hot::Index(_) => host.resolve(handle, Role::Node, native),
        _ => {},
    }
}

}
