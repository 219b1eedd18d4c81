//! Calls of the reflective bridge: how arguments are put to a bridge method and
//! what is made of the value that comes back.

use crate::number::{as_i64, is_nonzero, nonzero, to_i64};
use crate::protocol::{args16, js_args, scalars, Arg16, JsArg, JsValue, Method, Scalar, KIND_BOOL, KIND_CALLBACK, KIND_NULL, KIND_REF, KIND_STRING};
use crate::text::{decode16, from_utf16, name_text, str_from};
use vstd::prelude::*;

verus! {

/// A call of a bridge method: the method and the values to pass to it.
pub struct BridgeCall {
    pub method: Method,
    pub args: Vec<JsArg<String>>,
}

/// What a call of a bridge method passes.
#[verifier::ext_equal]
pub struct CallView {
    pub method: Method,
    pub args: Seq<JsArg<Seq<char>>>,
}

impl View for BridgeCall {
    type V = CallView;

    open spec fn view(&self) -> CallView {
        CallView { method: self.method, args: js_args(self.args@) }
    }
}

/// What became of a call of a bridge method.
pub enum CallResult<S> {
    /// The method was never called: there was no context, no bridge, or no
    /// memory for an argument.
    Unreached,
    /// The method threw.
    Threw,
    /// The method returned a value.
    Value(JsValue<S>),
}

impl View for CallResult<String> {
    type V = CallResult<Seq<char>>;

    open spec fn view(&self) -> CallResult<Seq<char>> {
        match self {
            CallResult::Unreached => CallResult::Unreached,
            CallResult::Threw => CallResult::Threw,
            CallResult::Value(value) => CallResult::Value(value@),
        }
    }
}

/// The reply of a method that returns a string; empty for any other result.
pub open spec fn text_result(result: CallResult<Seq<char>>) -> Seq<char> {
    match result {
        CallResult::Value(JsValue::Text(text)) => text,
        _ => Seq::empty(),
    }
}

/// The reply of a method that returns a number; -1 for any other result.
pub open spec fn int_result(result: CallResult<Seq<char>>) -> i64 {
    match result {
        CallResult::Value(JsValue::Number(bits)) => as_i64(bits),
        _ => (-1) as i64,
    }
}

/// Takes the reply of a method that returns a string.
pub fn take_text(result: CallResult<String>) -> (text: String)
    ensures
        text@ == text_result(result@),
{
    match result {
        CallResult::Value(JsValue::Text(text)) => text,
        _ => String::new(),
    }
}

/// Reads the reply of a method that returns a number.
pub fn take_int(result: &CallResult<String>) -> (n: i64)
    ensures
        n == int_result(result@),
{
    match result {
        CallResult::Value(JsValue::Number(bits)) => to_i64(*bits),
        _ => -1,
    }
}

/// Some texts as values to pass.
pub open spec fn text_args(texts: Seq<Seq<char>>) -> Seq<JsArg<Seq<char>>> {
    Seq::new(texts.len(), |i: int| JsArg::Text(texts[i]))
}

/// Puts some texts as values to pass.
pub fn put_texts(texts: Vec<String>) -> (values: Vec<JsArg<String>>)
    ensures
        js_args(values@) == text_args(crate::text::texts(texts@)),
{
    let mut values: Vec<JsArg<String>> = Vec::new();
    for i in 0..texts.len()
        invariant
            values@.len() == i,
            forall|j: int| 0 <= j < i ==> (#[trigger] values@[j])@ == JsArg::Text(texts@[j]@),
    {
        values.push(JsArg::Text(texts[i].clone()));
    }
    assert(js_args(values@) =~= text_args(crate::text::texts(texts@)));
    values
}

/// A scalar argument as a value to pass.
pub open spec fn scalar_arg(scalar: Scalar<Seq<u8>>) -> JsArg<Seq<char>> {
    if scalar.is_num != 0 {
        JsArg::Number(scalar.num)
    } else {
        JsArg::Text(name_text(scalar.bytes))
    }
}

/// Leading numbers and then scalar arguments as values to pass.
pub open spec fn scalar_args(lead: Seq<u64>, args: Seq<Scalar<Seq<u8>>>) -> Seq<JsArg<Seq<char>>> {
    Seq::new(
        lead.len() + args.len(),
        |i: int|
            if i < lead.len() {
                JsArg::Number(lead[i])
            } else {
                scalar_arg(args[i - lead.len()])
            },
    )
}

/// A wide argument as a value to pass: strings, truth values and null as
/// themselves, and everything else, handles and callback ids among them, as its
/// number.
pub open spec fn wide_arg(arg: Arg16<Seq<u16>>) -> JsArg<Seq<char>> {
    if arg.kind == KIND_STRING {
        JsArg::Text(decode16(arg.str16))
    } else if arg.kind == KIND_BOOL {
        JsArg::Bool(nonzero(arg.num))
    } else if arg.kind == KIND_NULL {
        JsArg::Null
    } else {
        JsArg::Number(arg.num)
    }
}

/// Leading numbers and then wide arguments as values to pass.
pub open spec fn wide_args(lead: Seq<u64>, args: Seq<Arg16<Seq<u16>>>) -> Seq<JsArg<Seq<char>>> {
    Seq::new(
        lead.len() + args.len(),
        |i: int|
            if i < lead.len() {
                JsArg::Number(lead[i])
            } else {
                wide_arg(args[i - lead.len()])
            },
    )
}

/// Puts leading numbers as values to pass.
fn put_lead(lead: &Vec<u64>) -> (values: Vec<JsArg<String>>)
    ensures
        values@.len() == lead@.len(),
        forall|j: int| 0 <= j < lead@.len() ==> (#[trigger] values@[j])@ == JsArg::<Seq<char>>::Number(lead@[j]),
{
    let mut values: Vec<JsArg<String>> = Vec::new();
    for i in 0..lead.len()
        invariant
            values@.len() == i,
            forall|j: int| 0 <= j < i ==> (#[trigger] values@[j])@ == JsArg::<Seq<char>>::Number(lead@[j]),
    {
        values.push(JsArg::Number(lead[i]));
    }
    values
}

/// Puts leading numbers and then scalar arguments as values to pass.
pub fn put_scalars(lead: &Vec<u64>, args: &Vec<Scalar<Vec<u8>>>) -> (values: Vec<JsArg<String>>)
    ensures
        js_args(values@) == scalar_args(lead@, scalars(args@)),
{
    let mut values = put_lead(lead);
    for i in 0..args.len()
        invariant
            values@.len() == lead@.len() + i,
            forall|j: int| 0 <= j < lead@.len() ==> (#[trigger] values@[j])@ == JsArg::<Seq<char>>::Number(lead@[j]),
            forall|j: int|
                lead@.len() <= j < lead@.len() + i ==> (#[trigger] values@[j])@ == scalar_arg(
                    args@[j - lead@.len()]@,
                ),
    {
        if args[i].is_num != 0 {
            values.push(JsArg::Number(args[i].num));
        } else {
            values.push(JsArg::Text(str_from(args[i].bytes.as_slice())));
        }
    }
    assert(js_args(values@) =~= scalar_args(lead@, scalars(args@)));
    values
}

/// Puts leading numbers and then wide arguments as values to pass.
pub fn put_wide(lead: &Vec<u64>, args: &Vec<Arg16<Vec<u16>>>) -> (values: Vec<JsArg<String>>)
    ensures
        js_args(values@) == wide_args(lead@, args16(args@)),
{
    let mut values = put_lead(lead);
    for i in 0..args.len()
        invariant
            values@.len() == lead@.len() + i,
            forall|j: int| 0 <= j < lead@.len() ==> (#[trigger] values@[j])@ == JsArg::<Seq<char>>::Number(lead@[j]),
            forall|j: int|
                lead@.len() <= j < lead@.len() + i ==> (#[trigger] values@[j])@ == wide_arg(
                    args@[j - lead@.len()]@,
                ),
    {
        let a = &args[i];
        if a.kind == KIND_STRING {
            values.push(JsArg::Text(from_utf16(&a.str16)));
        } else if a.kind == KIND_BOOL {
            values.push(JsArg::Bool(is_nonzero(a.num)));
        } else if a.kind == KIND_NULL {
            values.push(JsArg::Null);
        } else {
            values.push(JsArg::Number(a.num));
        }
    }
    assert(js_args(values@) =~= wide_args(lead@, args16(args@)));
    values
}

/// The bits of the first `n` arguments that are of a kind.
pub open spec fn kind_bits(args: Seq<Arg16<Seq<u16>>>, kind: i32, n: nat) -> u32
    decreases n,
{
    if n == 0 {
        0
    } else {
        let low = kind_bits(args, kind, (n - 1) as nat);
        if args[n - 1].kind == kind {
            low | (1u32 << ((n - 1) as u32))
        } else {
            low
        }
    }
}

/// The mask of the arguments that are of a kind. It has room for the first 32
/// arguments; those beyond are not marked.
pub open spec fn kind_mask(args: Seq<Arg16<Seq<u16>>>, kind: i32) -> u32 {
    kind_bits(
        args,
        kind,
        if args.len() < 32 {
            args.len()
        } else {
            32
        },
    )
}

/// Whether a bit of a mask is set.
pub open spec fn marked(mask: u32, i: u32) -> bool {
    mask & (1u32 << i) != 0
}

/// Marks the arguments that are of a kind.
fn mask_kind(args: &Vec<Arg16<Vec<u16>>>, kind: i32) -> (mask: u32)
    ensures
        mask == kind_mask(args16(args@), kind),
{
    let n: usize = if args.len() < 32 {
        args.len()
    } else {
        32
    };
    let mut mask: u32 = 0;
    for i in 0..n
        invariant
            n <= 32,
            n <= args@.len(),
            mask == kind_bits(args16(args@), kind, i as nat),
    {
        if args[i].kind == kind {
            mask = mask | (1u32 << (i as u32));
        }
    }
    mask
}

/// Marks the arguments that are handles of host objects.
pub fn refs_mask(args: &Vec<Arg16<Vec<u16>>>) -> (mask: u32)
    ensures
        mask == kind_mask(args16(args@), KIND_REF),
{
    mask_kind(args, KIND_REF)
}

/// Marks the arguments that are ids of callbacks.
pub fn cb_mask(args: &Vec<Arg16<Vec<u16>>>) -> (mask: u32)
    ensures
        mask == kind_mask(args16(args@), KIND_CALLBACK),
{
    mask_kind(args, KIND_CALLBACK)
}

proof fn lemma_kind_bits(args: Seq<Arg16<Seq<u16>>>, kind: i32, n: nat, i: u32)
    requires
        n <= 32,
        n <= args.len(),
        i < 32,
    ensures
        marked(kind_bits(args, kind, n), i) <==> i < n && args[i as int].kind == kind,
    decreases n,
{
    if n == 0 {
        assert(0u32 & (1u32 << i) == 0) by (bit_vector);
    } else {
        let low = kind_bits(args, kind, (n - 1) as nat);
        let k = (n - 1) as u32;
        lemma_kind_bits(args, kind, (n - 1) as nat, i);
        assert(i < 32 && k < 32 ==> ((low | (1u32 << k)) & (1u32 << i) != 0 <==> (low & (1u32 << i)
            != 0 || i == k))) by (bit_vector);
    }
}

/// A mask marks exactly the arguments that are of the kind, among the first 32.
pub proof fn law_mask_marks_kind(args: Seq<Arg16<Seq<u16>>>, kind: i32, i: u32)
    requires
        i < 32,
    ensures
        marked(kind_mask(args, kind), i) <==> i < args.len() && args[i as int].kind == kind,
{
    lemma_kind_bits(
        args,
        kind,
        if args.len() < 32 {
            args.len()
        } else {
            32
        },
        i,
    );
}

proof fn lemma_disjoint(args: Seq<Arg16<Seq<u16>>>, n: nat)
    requires
        n <= 32,
        n <= args.len(),
    ensures
        kind_bits(args, KIND_REF, n) & kind_bits(args, KIND_CALLBACK, n) == 0,
    decreases n,
{
    if n == 0 {
        assert(0u32 & 0u32 == 0) by (bit_vector);
    } else {
        let x = kind_bits(args, KIND_REF, (n - 1) as nat);
        let y = kind_bits(args, KIND_CALLBACK, (n - 1) as nat);
        let k = (n - 1) as u32;
        lemma_disjoint(args, (n - 1) as nat);
        lemma_kind_bits(args, KIND_REF, (n - 1) as nat, k);
        lemma_kind_bits(args, KIND_CALLBACK, (n - 1) as nat, k);
        assert(x & y == 0 && y & (1u32 << k) == 0 ==> (x | (1u32 << k)) & y == 0) by (bit_vector);
        assert(x & y == 0 && x & (1u32 << k) == 0 ==> x & (y | (1u32 << k)) == 0) by (bit_vector);
    }
}

/// No argument is marked both as a handle and as a callback.
pub proof fn law_masks_are_disjoint(args: Seq<Arg16<Seq<u16>>>)
    ensures
        kind_mask(args, KIND_REF) & kind_mask(args, KIND_CALLBACK) == 0,
{
    lemma_disjoint(
        args,
        if args.len() < 32 {
            args.len()
        } else {
            32
        },
    );
}

}
