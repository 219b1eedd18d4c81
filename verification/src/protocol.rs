//! The words of the host protocol: what the engine hands over, what the host
//! asks of the realm and of the document, what it is told, and what it answers.
//!
//! The types that carry text are generic in the text: `String` where they are
//! held, a sequence of characters where contracts speak of them.

use crate::number::{as_double, from_i64};
use vstd::prelude::*;

verus! {

/// The argument is a string.
pub const KIND_STRING: i32 = 0;

/// The argument is the handle of a host object.
pub const KIND_REF: i32 = 2;

/// The argument is a truth value.
pub const KIND_BOOL: i32 = 3;

/// The argument is null.
pub const KIND_NULL: i32 = 4;

/// The argument is the id of a callback.
pub const KIND_CALLBACK: i32 = 5;

/// An argument of a wide call as the engine hands it over: what it is, its
/// number as a double's pattern, and its UTF-16 where it is a string.
pub struct Arg16<W> {
    pub kind: i32,
    pub num: u64,
    pub str16: W,
}

impl View for Arg16<Vec<u16>> {
    type V = Arg16<Seq<u16>>;

    open spec fn view(&self) -> Arg16<Seq<u16>> {
        Arg16 { kind: self.kind, num: self.num, str16: self.str16@ }
    }
}

/// The arguments held in a list.
pub open spec fn args16(args: Seq<Arg16<Vec<u16>>>) -> Seq<Arg16<Seq<u16>>> {
    Seq::new(args.len(), |i: int| args[i]@)
}

/// A scalar argument as the engine hands it over: a number or some UTF-8.
pub struct Scalar<B> {
    pub is_num: i32,
    pub num: u64,
    pub bytes: B,
}

impl View for Scalar<Vec<u8>> {
    type V = Scalar<Seq<u8>>;

    open spec fn view(&self) -> Scalar<Seq<u8>> {
        Scalar { is_num: self.is_num, num: self.num, bytes: self.bytes@ }
    }
}

/// The scalars held in a list.
pub open spec fn scalars(args: Seq<Scalar<Vec<u8>>>) -> Seq<Scalar<Seq<u8>>> {
    Seq::new(args.len(), |i: int| args[i]@)
}

/// A value to pass to a method of the bridge.
pub enum JsArg<S> {
    /// a number
    Number(u64),
    /// a string
    Text(S),
    /// a truth value
    Bool(bool),
    /// null
    Null,
    /// the object that the last document operation created
    Object,
}

impl View for JsArg<String> {
    type V = JsArg<Seq<char>>;

    open spec fn view(&self) -> JsArg<Seq<char>> {
        match self {
            JsArg::Number(bits) => JsArg::Number(*bits),
            JsArg::Text(text) => JsArg::Text(text@),
            JsArg::Bool(b) => JsArg::Bool(*b),
            JsArg::Null => JsArg::Null,
            JsArg::Object => JsArg::Object,
        }
    }
}

/// The values held in a list.
pub open spec fn js_args(args: Seq<JsArg<String>>) -> Seq<JsArg<Seq<char>>> {
    Seq::new(args.len(), |i: int| args[i]@)
}

/// A value that came back from the realm, as far as the protocol tells values
/// apart. The object itself stays with the caller.
pub enum JsValue<S> {
    /// null
    Null,
    /// undefined
    Undefined,
    /// a truth value
    Bool(bool),
    /// a number
    Number(u64),
    /// a string
    Text(S),
    /// an object
    Object,
    /// anything else
    Other,
}

impl View for JsValue<String> {
    type V = JsValue<Seq<char>>;

    open spec fn view(&self) -> JsValue<Seq<char>> {
        match self {
            JsValue::Null => JsValue::Null,
            JsValue::Undefined => JsValue::Undefined,
            JsValue::Bool(b) => JsValue::Bool(*b),
            JsValue::Number(bits) => JsValue::Number(*bits),
            JsValue::Text(text) => JsValue::Text(text@),
            JsValue::Object => JsValue::Object,
            JsValue::Other => JsValue::Other,
        }
    }
}

/// What a document operation came to.
pub enum DomResult<S> {
    /// It did not go through.
    Failed,
    /// It went through and has nothing to give.
    Done,
    /// It gave a truth value.
    Flag(bool),
    /// It gave a text.
    Text(S),
    /// It gave a count.
    Count(u32),
    /// It gave an object, whose native is at the first address; the second is
    /// its address as a node, where it was created as an element.
    Created(usize, usize),
}

impl View for DomResult<String> {
    type V = DomResult<Seq<char>>;

    open spec fn view(&self) -> DomResult<Seq<char>> {
        match self {
            DomResult::Failed => DomResult::Failed,
            DomResult::Done => DomResult::Done,
            DomResult::Flag(b) => DomResult::Flag(*b),
            DomResult::Text(text) => DomResult::Text(text@),
            DomResult::Count(n) => DomResult::Count(*n),
            DomResult::Created(native, node) => DomResult::Created(*native, *node),
        }
    }
}

/// A method of the bridge.
#[derive(Clone, Copy, Debug, PartialEq, Eq, Structural)]
pub enum Method {
    Intern,
    GetId,
    CallStr,
    CallScalars,
    NewScalars,
    Global,
    GetMember,
    SetMember,
    CallMember,
    Construct,
    Iterate,
    InstanceOf,
    Release,
    GetWide,
    SetWide,
    CallWide,
    NewWide,
    HandleObj,
    Register,
}

/// The name of a bridge method in the realm.
pub open spec fn method_text(method: Method) -> Seq<char> {
    match method {
        Method::Intern => "intern"@,
        Method::GetId => "getId"@,
        Method::CallStr => "callStr"@,
        Method::CallScalars => "callScalars"@,
        Method::NewScalars => "newScalars"@,
        Method::Global => "global"@,
        Method::GetMember => "get"@,
        Method::SetMember => "set"@,
        Method::CallMember => "call"@,
        Method::Construct => "construct"@,
        Method::Iterate => "iterate"@,
        Method::InstanceOf => "instanceOf"@,
        Method::Release => "release"@,
        Method::GetWide => "getWide"@,
        Method::SetWide => "setWide"@,
        Method::CallWide => "callWide"@,
        Method::NewWide => "newWide"@,
        Method::HandleObj => "handleObj"@,
        Method::Register => "register"@,
    }
}

/// Names a bridge method.
pub fn method_name(method: Method) -> (name: &'static str)
    ensures
        name@ == method_text(method),
{
    match method {
        Method::Intern => "intern",
        Method::GetId => "getId",
        Method::CallStr => "callStr",
        Method::CallScalars => "callScalars",
        Method::NewScalars => "newScalars",
        Method::Global => "global",
        Method::GetMember => "get",
        Method::SetMember => "set",
        Method::CallMember => "call",
        Method::Construct => "construct",
        Method::Iterate => "iterate",
        Method::InstanceOf => "instanceOf",
        Method::Release => "release",
        Method::GetWide => "getWide",
        Method::SetWide => "setWide",
        Method::CallWide => "callWide",
        Method::NewWide => "newWide",
        Method::HandleObj => "handleObj",
        Method::Register => "register",
    }
}

/// The two properties that a wide reply object may have.
#[derive(Clone, Copy, Debug, PartialEq, Eq, Structural)]
pub enum Field {
    /// `r`, the handle of a host object
    Handle,
    /// `j`, some JSON
    Json,
}

/// The name of a property of a wide reply object.
pub open spec fn field_text(field: Field) -> Seq<char> {
    match field {
        Field::Handle => "r"@,
        Field::Json => "j"@,
    }
}

/// The name of a property of a wide reply object.
pub fn field_name(field: Field) -> (name: &'static str)
    ensures
        name@ == field_text(field),
{
    match field {
        Field::Handle => "r",
        Field::Json => "j",
    }
}

/// The typed reply to a wide call.
#[derive(Clone, Copy, Debug, PartialEq, Eq, Structural)]
pub enum Reply {
    /// The reply stays as the engine's default.
    Untouched,
    /// no value
    Nothing,
    /// a number
    Number(u64),
    /// the UTF-16 text that the runner holds
    Text,
    /// the handle of a host object
    Ref(u64),
    /// a truth value
    Bool(bool),
    /// the call threw
    Failed,
    /// the UTF-16 JSON that the runner holds
    Json,
}

impl Reply {
    /// The tag under which the engine reads the reply, where there is one.
    pub open spec fn tagged(self) -> Option<i32> {
        match self {
            Reply::Untouched => None,
            Reply::Nothing => Some(0),
            Reply::Number(_) => Some(1),
            Reply::Text => Some(2),
            Reply::Ref(_) => Some(3),
            Reply::Bool(_) => Some(4),
            Reply::Failed => Some(5),
            Reply::Json => Some(7),
        }
    }

    /// The number that the reply carries, where there is one; a truth value
    /// crosses as 1 or 0.
    pub open spec fn numbered(self) -> Option<u64> {
        match self {
            Reply::Number(bits) => Some(bits),
            Reply::Ref(bits) => Some(bits),
            Reply::Bool(b) => Some(
                if b {
                    as_double(1)
                } else {
                    as_double(0)
                },
            ),
            _ => None,
        }
    }

    /// Gives the tag of the reply.
    pub fn tag(self) -> (tag: Option<i32>)
        ensures
            tag == self.tagged(),
    {
        match self {
            Reply::Untouched => None,
            Reply::Nothing => Some(0),
            Reply::Number(_) => Some(1),
            Reply::Text => Some(2),
            Reply::Ref(_) => Some(3),
            Reply::Bool(_) => Some(4),
            Reply::Failed => Some(5),
            Reply::Json => Some(7),
        }
    }

    /// Gives the number that the reply carries.
    pub fn num(self) -> (num: Option<u64>)
        ensures
            num == self.numbered(),
    {
        match self {
            Reply::Number(bits) => Some(bits),
            Reply::Ref(bits) => Some(bits),
            Reply::Bool(b) => if b {
                Some(from_i64(1))
            } else {
                Some(from_i64(0))
            },
            _ => None,
        }
    }

    /// Whether the reply carries the runner's UTF-16 buffer.
    pub fn has_text(self) -> (r: bool)
        ensures
            r == (self is Text || self is Json),
    {
        match self {
            Reply::Text => true,
            Reply::Json => true,
            _ => false,
        }
    }
}

}
