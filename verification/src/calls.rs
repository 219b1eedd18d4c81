//! The hooks that the engine calls: each starts a task.

use crate::bridge::{put_scalars, put_texts, scalar_args, text_args, BridgeCall, CallView};
use crate::canvas::{BindCall, BindView};
use crate::direct::{attempted, Access, Member, MemberView};
use crate::host::{hot_of, released, Host, RunnerView};
use crate::hot::Hot;
use crate::number::{as_double, from_i64};
use crate::protocol::{args16, js_args, scalars, Arg16, JsArg, Method, Scalar};
use crate::task::{call_bridge, fall_back, finish, Action, After, Outcome, Pos, Stage, Task, TaskView, Turn};
use crate::text::{decimal, name_text, str_from, texts, to_decimal};
use vstd::prelude::*;

verus! {

/// A use of no member.
pub open spec fn no_member() -> MemberView {
    MemberView {
        access: Access::Read,
        target: 0,
        id: 0,
        hot: Hot::Cold,
        args: Seq::empty(),
        receiver: 0,
        operand: 0,
    }
}

/// A drawing call of nothing.
pub open spec fn no_drawing() -> BindView {
    BindView { target: 0, id: 0, args: None, argc: 0, written: Seq::empty() }
}

/// A task about nothing.
pub open spec fn blank() -> TaskView {
    TaskView {
        stage: Stage::Finished,
        call: CallView { method: Method::Intern, args: Seq::empty() },
        member: no_member(),
        bind: no_drawing(),
        name: Seq::empty(),
        text: Seq::empty(),
    }
}

/// The start of a host call that calls a bridge method and replies with what it
/// returns. Without a runner the call ends at once.
pub open spec fn start_call(
    host: Option<RunnerView>,
    call: CallView,
    after: After,
    absent: Outcome,
) -> Turn {
    if host is Some {
        call_bridge(host, blank(), call, after)
    } else {
        finish(host, blank(), absent)
    }
}

/// The start of a host call that passes texts to a bridge method and replies with
/// the string it returns.
pub open spec fn start_text(
    host: Option<RunnerView>,
    method: Method,
    args: Seq<Seq<char>>,
) -> Turn {
    start_call(host, CallView { method, args: text_args(args) }, After::Text, Outcome::NoText)
}

/// The start of interning a name.
pub open spec fn start_intern(host: Option<RunnerView>, name: Seq<char>) -> Turn {
    let t = TaskView { name, ..blank() };
    if host is Some {
        call_bridge(
            host,
            t,
            CallView { method: Method::Intern, args: text_args(seq![name]) },
            After::Intern,
        )
    } else {
        finish(host, t, Outcome::Id(u32::MAX))
    }
}

/// A use of a member, classified by what its id was interned as.
pub open spec fn member_use(
    host: Option<RunnerView>,
    access: Access,
    target: i64,
    id: u32,
    args: Seq<Arg16<Seq<u16>>>,
) -> MemberView {
    MemberView { access, target, id, hot: hot_of(host, id), args, receiver: 0, operand: 0 }
}

/// The start of a use of a member: a hot one is tried on the direct tier, and any
/// other goes to the reflective bridge.
pub open spec fn start_member(host: Option<RunnerView>, member: MemberView) -> Turn {
    let t = TaskView { member, ..blank() };
    if attempted(member.access, member.hot, member.args) {
        Turn { host, task: TaskView { stage: Stage::Enter, ..t }, action: Action::Context }
    } else {
        fall_back(host, t)
    }
}

/// The start of a drawing call.
pub open spec fn start_bind(
    host: Option<RunnerView>,
    target: i64,
    id: u32,
    args: Option<Seq<u64>>,
    argc: usize,
) -> Turn {
    Turn {
        host,
        task: TaskView {
            stage: Stage::EnterCanvas,
            bind: BindView { target, id, args, argc, written: Seq::empty() },
            ..blank()
        },
        action: Action::Context,
    }
}

/// `web_get_id`: the bridge is passed the target and the id.
pub open spec fn start_get_id(host: Option<RunnerView>, target: i64, name_id: u32) -> Turn {
    start_call(
        host,
        CallView {
            method: Method::GetId,
            args: seq![
                JsArg::Number(as_double(target as int)),
                JsArg::Number(as_double(name_id as int)),
            ],
        },
        After::Scalar,
        Outcome::NoText,
    )
}

/// `web_call_str`: the bridge is passed the target, the id and the string.
pub open spec fn start_call_str(
    host: Option<RunnerView>,
    target: i64,
    name_id: u32,
    arg: Seq<u8>,
) -> Turn {
    start_call(
        host,
        CallView {
            method: Method::CallStr,
            args: seq![
                JsArg::Number(as_double(target as int)),
                JsArg::Number(as_double(name_id as int)),
                JsArg::Text(name_text(arg)),
            ],
        },
        After::Scalar,
        Outcome::NoText,
    )
}

/// `web_call_scalars`: the bridge is passed the target, the id and the scalars.
pub open spec fn start_call_scalars(
    host: Option<RunnerView>,
    target: i64,
    name_id: u32,
    args: Seq<Scalar<Seq<u8>>>,
) -> Turn {
    start_call(
        host,
        CallView {
            method: Method::CallScalars,
            args: scalar_args(
                seq![as_double(target as int), as_double(name_id as int)],
                args,
            ),
        },
        After::Scalar,
        Outcome::NoText,
    )
}

/// `web_new_scalars`: the bridge is passed the id and the scalars.
pub open spec fn start_new_scalars(
    host: Option<RunnerView>,
    ctor_id: u32,
    args: Seq<Scalar<Seq<u8>>>,
) -> Turn {
    start_call(
        host,
        CallView {
            method: Method::NewScalars,
            args: scalar_args(seq![as_double(ctor_id as int)], args),
        },
        After::Scalar,
        Outcome::NoText,
    )
}

/// `web_global`: the bridge is passed the name.
pub open spec fn start_global(host: Option<RunnerView>, name: Seq<u8>) -> Turn {
    start_call(
        host,
        CallView { method: Method::Global, args: text_args(seq![name_text(name)]) },
        After::Integer,
        Outcome::Integer((-1) as i64),
    )
}

/// `web_get`: the bridge is passed the target and the name.
pub open spec fn start_get(host: Option<RunnerView>, target: i64, prop: Seq<u8>) -> Turn {
    start_text(host, Method::GetMember, seq![decimal(target as int), name_text(prop)])
}

/// `web_set`: the bridge is passed the target, the name and the value.
pub open spec fn start_set(
    host: Option<RunnerView>,
    target: i64,
    prop: Seq<u8>,
    value_json: Seq<u8>,
) -> Turn {
    start_text(
        host,
        Method::SetMember,
        seq![decimal(target as int), name_text(prop), name_text(value_json)],
    )
}

/// `web_call`: the bridge is passed the target, the name and the arguments.
pub open spec fn start_call_named(
    host: Option<RunnerView>,
    target: i64,
    method: Seq<u8>,
    args_json: Seq<u8>,
) -> Turn {
    start_text(
        host,
        Method::CallMember,
        seq![decimal(target as int), name_text(method), name_text(args_json)],
    )
}

/// `web_new`: the bridge is passed the name and the arguments.
pub open spec fn start_new(host: Option<RunnerView>, ctor: Seq<u8>, args_json: Seq<u8>) -> Turn {
    start_text(host, Method::Construct, seq![name_text(ctor), name_text(args_json)])
}

/// `web_iterate`: the bridge is passed the target.
pub open spec fn start_iterate(host: Option<RunnerView>, target: i64) -> Turn {
    start_text(host, Method::Iterate, seq![decimal(target as int)])
}

/// `web_instanceof`: the bridge is passed the object and the constructor.
pub open spec fn start_instanceof(host: Option<RunnerView>, target: i64, ctor: i64) -> Turn {
    start_call(
        host,
        CallView {
            method: Method::InstanceOf,
            args: text_args(seq![decimal(target as int), decimal(ctor as int)]),
        },
        After::Narrow,
        Outcome::Narrow((-1) as i32),
    )
}

/// `web_release`: the natives are forgotten, and the bridge is passed the target.
pub open spec fn start_release(host: Option<RunnerView>, target: i64) -> Turn {
    start_text(released(host, target), Method::Release, seq![decimal(target as int)])
}

/// `web_get_u16`: a read of a member.
pub open spec fn start_get_u16(host: Option<RunnerView>, target: i64, id: u32) -> Turn {
    start_member(host, member_use(host, Access::Read, target, id, Seq::empty()))
}

/// `web_set_u16`: a write of a member, with the value as its argument.
pub open spec fn start_set_u16(
    host: Option<RunnerView>,
    target: i64,
    id: u32,
    args: Seq<Arg16<Seq<u16>>>,
) -> Turn {
    start_member(host, member_use(host, Access::Write, target, id, args))
}

/// `web_call_u16`: a call of a member.
pub open spec fn start_call_u16(
    host: Option<RunnerView>,
    target: i64,
    id: u32,
    args: Seq<Arg16<Seq<u16>>>,
) -> Turn {
    start_member(host, member_use(host, Access::Invoke, target, id, args))
}

/// `web_new_u16`: a call of a constructor, which has no target.
pub open spec fn start_new_u16(
    host: Option<RunnerView>,
    id: u32,
    args: Seq<Arg16<Seq<u16>>>,
) -> Turn {
    start_member(host, member_use(host, Access::Construct, 0, id, args))
}

impl Task {
    /// A task about nothing.
    fn blank() -> (task: Task)
        ensures
            task@ == blank(),
    {
        let task = Task {
            stage: Stage::Finished,
            call: BridgeCall { method: Method::Intern, args: Vec::new() },
            member: Member {
                access: Access::Read,
                target: 0,
                id: 0,
                hot: Hot::Cold,
                args: Vec::new(),
                receiver: 0,
                operand: 0,
            },
            bind: BindCall { target: 0, id: 0, args: None, argc: 0, written: Vec::new() },
            name: String::new(),
            text: String::new(),
        };
        assert(task@ =~= blank());
        task
    }
}

/// Starts a host call that calls a bridge method and replies with what it
/// returns.
fn begin_call(host: &Host, call: BridgeCall, after: After, absent: Outcome) -> (r: (Task, Action))
    ensures
        (Turn { host: host@, task: r.0@, action: r.1 }) == start_call(host@, call@, after, absent),
{
    let mut task = Task::blank();
    if host.running() {
        task.stage = Stage::Bridge(Pos::Context, after);
        task.call = call;
        (task, Action::Context)
    } else {
        (task, Action::Finish(absent))
    }
}

/// Starts a host call that passes texts to a bridge method.
fn begin_text(host: &Host, method: Method, args: Vec<String>) -> (r: (Task, Action))
    ensures
        (Turn { host: host@, task: r.0@, action: r.1 }) == start_text(
            host@,
            method,
            texts(args@),
        ),
{
    begin_call(host, BridgeCall { method, args: put_texts(args) }, After::Text, Outcome::NoText)
}

/// `web_intern`: gives a name an id, and classifies it.
pub fn host_web_intern(host: &Host, name: &[u8]) -> (r: (Task, Action))
    ensures
        (Turn { host: host@, task: r.0@, action: r.1 }) == start_intern(host@, name_text(name@)),
{
    let text = str_from(name);
    let mut task = Task::blank();
    let list: Vec<String> = vec![text.clone()];
    assert(texts(list@) =~= seq![text@]);
    task.name = text;
    if host.running() {
        task.stage = Stage::Bridge(Pos::Context, After::Intern);
        task.call = BridgeCall { method: Method::Intern, args: put_texts(list) };
        (task, Action::Context)
    } else {
        (task, Action::Finish(Outcome::Id(u32::MAX)))
    }
}

/// `web_get_id`: reads a property by its interned id.
pub fn host_web_get_id(host: &Host, target: i64, name_id: u32) -> (r: (Task, Action))
    ensures
        (Turn { host: host@, task: r.0@, action: r.1 }) == start_get_id(host@, target, name_id),
{
    let mut args: Vec<JsArg<String>> = Vec::new();
    args.push(JsArg::Number(from_i64(target)));
    args.push(JsArg::Number(from_i64(name_id as i64)));
    assert(js_args(args@) =~= seq![
        JsArg::Number(as_double(target as int)),
        JsArg::Number(as_double(name_id as int)),
    ]);
    begin_call(host, BridgeCall { method: Method::GetId, args }, After::Scalar, Outcome::NoText)
}

/// `web_call_str`: calls a method by its interned id with one string.
pub fn host_web_call_str(host: &Host, target: i64, name_id: u32, arg: &[u8]) -> (r: (Task, Action))
    ensures
        (Turn { host: host@, task: r.0@, action: r.1 }) == start_call_str(
            host@,
            target,
            name_id,
            arg@,
        ),
{
    let mut args: Vec<JsArg<String>> = Vec::new();
    args.push(JsArg::Number(from_i64(target)));
    args.push(JsArg::Number(from_i64(name_id as i64)));
    args.push(JsArg::Text(str_from(arg)));
    assert(js_args(args@) =~= seq![
        JsArg::Number(as_double(target as int)),
        JsArg::Number(as_double(name_id as int)),
        JsArg::Text(name_text(arg@)),
    ]);
    begin_call(host, BridgeCall { method: Method::CallStr, args }, After::Scalar, Outcome::NoText)
}

/// `web_call_scalars`: calls a method by its interned id with scalars.
pub fn host_web_call_scalars(
    host: &Host,
    target: i64,
    name_id: u32,
    args: &Vec<Scalar<Vec<u8>>>,
) -> (r: (Task, Action))
    ensures
        (Turn { host: host@, task: r.0@, action: r.1 }) == start_call_scalars(
            host@,
            target,
            name_id,
            scalars(args@),
        ),
{
    let lead: Vec<u64> = vec![from_i64(target), from_i64(name_id as i64)];
    assert(lead@ =~= seq![as_double(target as int), as_double(name_id as int)]);
    let values = put_scalars(&lead, args);
    begin_call(
        host,
        BridgeCall { method: Method::CallScalars, args: values },
        After::Scalar,
        Outcome::NoText,
    )
}

/// `web_new_scalars`: calls a constructor by its interned id with scalars.
pub fn host_web_new_scalars(host: &Host, ctor_id: u32, args: &Vec<Scalar<Vec<u8>>>) -> (r: (
    Task,
    Action,
))
    ensures
        (Turn { host: host@, task: r.0@, action: r.1 }) == start_new_scalars(
            host@,
            ctor_id,
            scalars(args@),
        ),
{
    let lead: Vec<u64> = vec![from_i64(ctor_id as i64)];
    assert(lead@ =~= seq![as_double(ctor_id as int)]);
    let values = put_scalars(&lead, args);
    begin_call(
        host,
        BridgeCall { method: Method::NewScalars, args: values },
        After::Scalar,
        Outcome::NoText,
    )
}

/// `web_global`: gives the handle of a global object.
pub fn host_web_global(host: &Host, name: &[u8]) -> (r: (Task, Action))
    ensures
        (Turn { host: host@, task: r.0@, action: r.1 }) == start_global(host@, name@),
{
    let list: Vec<String> = vec![str_from(name)];
    assert(texts(list@) =~= seq![name_text(name@)]);
    begin_call(
        host,
        BridgeCall { method: Method::Global, args: put_texts(list) },
        After::Integer,
        Outcome::Integer(-1),
    )
}

/// `web_get`: reads a property by its name.
pub fn host_web_get(host: &Host, target: i64, prop: &[u8]) -> (r: (Task, Action))
    ensures
        (Turn { host: host@, task: r.0@, action: r.1 }) == start_get(host@, target, prop@),
{
    let list: Vec<String> = vec![to_decimal(target), str_from(prop)];
    assert(texts(list@) =~= seq![decimal(target as int), name_text(prop@)]);
    begin_text(host, Method::GetMember, list)
}

/// `web_set`: writes a property by its name.
pub fn host_web_set(host: &Host, target: i64, prop: &[u8], value_json: &[u8]) -> (r: (Task, Action))
    ensures
        (Turn { host: host@, task: r.0@, action: r.1 }) == start_set(
            host@,
            target,
            prop@,
            value_json@,
        ),
{
    let list: Vec<String> = vec![to_decimal(target), str_from(prop), str_from(value_json)];
    assert(texts(list@) =~= seq![
        decimal(target as int),
        name_text(prop@),
        name_text(value_json@),
    ]);
    begin_text(host, Method::SetMember, list)
}

/// `web_call`: calls a method by its name.
pub fn host_web_call(host: &Host, target: i64, method: &[u8], args_json: &[u8]) -> (r: (
    Task,
    Action,
))
    ensures
        (Turn { host: host@, task: r.0@, action: r.1 }) == start_call_named(
            host@,
            target,
            method@,
            args_json@,
        ),
{
    let list: Vec<String> = vec![to_decimal(target), str_from(method), str_from(args_json)];
    assert(texts(list@) =~= seq![
        decimal(target as int),
        name_text(method@),
        name_text(args_json@),
    ]);
    begin_text(host, Method::CallMember, list)
}

/// `web_new`: calls a constructor by its name.
pub fn host_web_new(host: &Host, ctor: &[u8], args_json: &[u8]) -> (r: (Task, Action))
    ensures
        (Turn { host: host@, task: r.0@, action: r.1 }) == start_new(
            host@,
            ctor@,
            args_json@,
        ),
{
    let list: Vec<String> = vec![str_from(ctor), str_from(args_json)];
    assert(texts(list@) =~= seq![name_text(ctor@), name_text(args_json@)]);
    begin_text(host, Method::Construct, list)
}

/// `web_iterate`: gives the items of an iterable.
pub fn host_web_iterate(host: &Host, target: i64) -> (r: (Task, Action))
    ensures
        (Turn { host: host@, task: r.0@, action: r.1 }) == start_iterate(host@, target),
{
    let list: Vec<String> = vec![to_decimal(target)];
    assert(texts(list@) =~= seq![decimal(target as int)]);
    begin_text(host, Method::Iterate, list)
}

/// `web_instanceof`: whether an object is an instance of a constructor.
pub fn host_web_instanceof(host: &Host, target: i64, ctor: i64) -> (r: (Task, Action))
    ensures
        (Turn { host: host@, task: r.0@, action: r.1 }) == start_instanceof(host@, target, ctor),
{
    let list: Vec<String> = vec![to_decimal(target), to_decimal(ctor)];
    assert(texts(list@) =~= seq![decimal(target as int), decimal(ctor as int)]);
    begin_call(
        host,
        BridgeCall { method: Method::InstanceOf, args: put_texts(list) },
        After::Narrow,
        Outcome::Narrow(-1),
    )
}

/// `web_release`: lets go of a handle. The natives behind it are forgotten before
/// the bridge is told.
pub fn host_web_release(host: &mut Host, target: i64) -> (r: (Task, Action))
    ensures
        (Turn { host: final(host)@, task: r.0@, action: r.1 }) == start_release(
            old(host)@,
            target,
        ),
{
    host.release(target);
    let list: Vec<String> = vec![to_decimal(target)];
    assert(texts(list@) =~= seq![decimal(target as int)]);
    begin_text(host, Method::Release, list)
}

/// Starts a use of a member.
fn begin_member(
    host: &Host,
    access: Access,
    target: i64,
    id: u32,
    args: Vec<Arg16<Vec<u16>>>,
) -> (r: (Task, Action))
    ensures
        (Turn { host: host@, task: r.0@, action: r.1 }) == start_member(
            host@,
            member_use(host@, access, target, id, args16(args@)),
        ),
{
    let mut task = Task::blank();
    let hot = host.hot_of(id);
    task.member = Member { access, target, id, hot, args, receiver: 0, operand: 0 };
    if task.member.attempted() {
        task.stage = Stage::Enter;
        (task, Action::Context)
    } else {
        let action = task.fall_back(host);
        (task, action)
    }
}

/// `web_get_u16`: reads a property.
pub fn host_web_get_u16(host: &Host, target: i64, name_id: u32) -> (r: (Task, Action))
    ensures
        (Turn { host: host@, task: r.0@, action: r.1 }) == start_get_u16(host@, target, name_id),
{
    let args: Vec<Arg16<Vec<u16>>> = Vec::new();
    assert(args16(args@) =~= Seq::empty());
    begin_member(host, Access::Read, target, name_id, args)
}

/// The value to write as a list of arguments: one, or none.
pub open spec fn written_value(value: Option<Arg16<Vec<u16>>>) -> Seq<Arg16<Seq<u16>>> {
    match value {
        Some(arg) => seq![arg@],
        None => Seq::empty(),
    }
}

/// `web_set_u16`: writes a property. Where there is no value, the bridge decides.
pub fn host_web_set_u16(host: &Host, target: i64, name_id: u32, value: Option<Arg16<Vec<u16>>>) -> (r: (
    Task,
    Action,
))
    ensures
        (Turn { host: host@, task: r.0@, action: r.1 }) == start_set_u16(
            host@,
            target,
            name_id,
            written_value(value),
        ),
{
    let mut args: Vec<Arg16<Vec<u16>>> = Vec::new();
    let ghost given = written_value(value);
    match value {
        Some(arg) => args.push(arg),
        None => {},
    }
    assert(args16(args@) =~= given);
    begin_member(host, Access::Write, target, name_id, args)
}

/// `web_call_u16`: calls a method.
pub fn host_web_call_u16(host: &Host, target: i64, name_id: u32, args: Vec<Arg16<Vec<u16>>>) -> (r: (
    Task,
    Action,
))
    ensures
        (Turn { host: host@, task: r.0@, action: r.1 }) == start_call_u16(
            host@,
            target,
            name_id,
            args16(args@),
        ),
{
    begin_member(host, Access::Invoke, target, name_id, args)
}

/// `web_new_u16`: calls a constructor.
pub fn host_web_new_u16(host: &Host, ctor_id: u32, args: Vec<Arg16<Vec<u16>>>) -> (r: (Task, Action))
    ensures
        (Turn { host: host@, task: r.0@, action: r.1 }) == start_new_u16(
            host@,
            ctor_id,
            args16(args@),
        ),
{
    begin_member(host, Access::Construct, 0, ctor_id, args)
}

/// `web_bind`: draws.
pub fn host_web_bind(
    host: &Host,
    target: i64,
    bind_id: u32,
    args: Option<Vec<u64>>,
    argc: usize,
) -> (r: (Task, Action))
    ensures
        (Turn { host: host@, task: r.0@, action: r.1 }) == start_bind(
            host@,
            target,
            bind_id,
            match args {
                Some(list) => Some(list@),
                None => None,
            },
            argc,
        ),
{
    let mut task = Task::blank();
    task.bind = BindCall { target, id: bind_id, args, argc, written: Vec::new() };
    task.stage = Stage::EnterCanvas;
    assert(task.bind@.written =~= Seq::empty());
    (task, Action::Context)
}

}
