//! Host calls as tasks.
//!
//! A host call alternates decisions, which are made here, and work in the realm
//! and in the document, which the embedder does. A task is a host call in
//! progress: it names the next piece of work as an `Action`, is told how that
//! went by an `Event`, and ends in an `Outcome`. The realm may call back into the
//! engine in the middle of an action, and the engine may make further host calls
//! from there; each call has its own task, and what they share is the host state
//! that every step is given anew.

use crate::bridge::{int_result, put_texts, take_int, take_text, text_args, text_result, BridgeCall, CallResult, CallView};
use crate::canvas::{bind_method_name, bind_name, bind_texts, coordinate, drawing, BindCall, BindView, Drawing};
use crate::direct::{covered, created, done_reply, fitting, fitting_late, keep_created, operand_for, operand_handle, operand_of, receiver_role, reflective, role_of_receiver, Access, Member, MemberView, Operand};
use crate::host::{interned, native_of, resolved, scratched, widened, Host, RunnerView};
use crate::hot::Hot;
use crate::natives::Role;
use crate::number::{as_double, as_u32, from_i64, to_u32};
use crate::protocol::{js_args, DomResult, Field, JsArg, JsValue, Method, Reply};
use vstd::prelude::*;

verus! {

/// How far a call of a bridge method has come.
#[derive(Clone, Copy, Debug, PartialEq, Eq, Structural)]
pub enum Pos {
    /// finding the thread's context
    Context,
    /// fetching the bridge from the global object
    Fetch,
    /// adding the argument at a position
    Push(usize),
    /// calling the method
    Invoke,
}

/// What a call of a bridge method is for.
#[derive(Clone, Copy, Debug, PartialEq, Eq, Structural)]
pub enum After {
    /// to reply with the string that it returns
    Text,
    /// to reply with the number that it returns
    Integer,
    /// to reply with the number that it returns, in 32 bits
    Narrow,
    /// to reply with the string or the number that it returns, as text
    Scalar,
    /// to intern a name
    Intern,
    /// to reply with the typed value that it returns
    Wide,
    /// to find the receiver of a member
    Receiver,
    /// to find the operand of a member
    Operand,
    /// to find a drawing context
    Canvas,
    /// to register an object that a member created, with its two addresses
    Register(usize, usize),
    /// to draw on something else than a drawing context
    Draw,
}

/// What a task waits for.
#[derive(Clone, Copy, Debug, PartialEq, Eq, Structural)]
pub enum Stage {
    /// a step of a call of a bridge method
    Bridge(Pos, After),
    /// a property of the object that a wide method returned
    ReadField(Field),
    /// the text of the number to reply with
    FormatScalar,
    /// the text of the number that a name was interned as
    FormatId,
    /// the number that a name was interned as
    ParseId,
    /// the context for the direct tier
    Enter,
    /// the receiver's native
    UnwrapReceiver,
    /// the operand's native
    UnwrapOperand,
    /// the document operation
    Operate,
    /// the context for a drawing call
    EnterCanvas,
    /// the drawing context's native
    UnwrapCanvas,
    /// the drawing operation
    Draw,
    /// the text of the next number of a drawing call
    FormatNext,
    /// nothing more
    Finished,
}

/// How a host call ends.
#[derive(Clone, Copy, Debug, PartialEq, Eq, Structural)]
pub enum Outcome {
    /// a typed reply
    Reply(Reply),
    /// the UTF-8 reply that the runner holds
    Scratch,
    /// no reply at all
    NoText,
    /// a number
    Integer(i64),
    /// a number in 32 bits
    Narrow(i32),
    /// the id that a name was interned as
    Id(u32),
    /// nothing: the task had ended before
    Spent,
}

/// The next piece of work of a task.
#[derive(Clone, Copy, Debug, PartialEq, Eq, Structural)]
pub enum Action {
    /// Find the thread's context. Answered by `Flag`.
    Context,
    /// Fetch the bridge from the global object. Answered by `Fetched`.
    FetchBridge,
    /// Add the task's current value to the arguments. Answered by `Flag`.
    Push,
    /// Call a method of the bridge with the arguments. Answered by `Returned`.
    Invoke(Method),
    /// Read a property of the object that came back. Answered by `Returned`.
    ReadField(Field),
    /// Find the native of the object that came back. Answered by `Native`.
    Unwrap(Role),
    /// Use a member on natives: the operation that the member stands for, with the
    /// addresses of its receiver and its operand. Answered by `Done`.
    Operate(Access, Hot, usize, usize),
    /// Draw on the native at an address. Answered by anything.
    Draw(usize, Drawing),
    /// Write out a number. Answered by `Formatted`.
    FormatNumber(u64),
    /// Read the task's text as a number. Answered by `Parsed`.
    ParseNumber,
    /// The host call is over.
    Finish(Outcome),
}

/// How a piece of work went.
pub enum Event<S> {
    /// whether it went through
    Flag(bool),
    /// whether the property could be read, and whether it is an object
    Fetched(bool, bool),
    /// whether it went through, and the value
    Returned(bool, JsValue<S>),
    /// the address of the native, where there is one
    Native(Option<usize>),
    /// what the document operation came to
    Done(DomResult<S>),
    /// the text of a number
    Formatted(S),
    /// the number, where the text reads as one
    Parsed(Option<u64>),
}

impl View for Event<String> {
    type V = Event<Seq<char>>;

    open spec fn view(&self) -> Event<Seq<char>> {
        match self {
            Event::Flag(b) => Event::Flag(*b),
            Event::Fetched(ok, object) => Event::Fetched(*ok, *object),
            Event::Returned(ok, value) => Event::Returned(*ok, value@),
            Event::Native(address) => Event::Native(*address),
            Event::Done(result) => Event::Done(result@),
            Event::Formatted(text) => Event::Formatted(text@),
            Event::Parsed(number) => Event::Parsed(*number),
        }
    }
}

/// A host call in progress.
pub struct Task {
    pub stage: Stage,
    /// The bridge call under way.
    pub call: BridgeCall,
    /// The use of a member that the call is about.
    pub member: Member,
    /// The drawing call that the call is about.
    pub bind: BindCall,
    /// The name to intern.
    pub name: String,
    /// The text to read as a number.
    pub text: String,
}

/// What a host call in progress consists of.
#[verifier::ext_equal]
pub struct TaskView {
    pub stage: Stage,
    pub call: CallView,
    pub member: MemberView,
    pub bind: BindView,
    pub name: Seq<char>,
    pub text: Seq<char>,
}

impl View for Task {
    type V = TaskView;

    open spec fn view(&self) -> TaskView {
        TaskView {
            stage: self.stage,
            call: self.call@,
            member: self.member@,
            bind: self.bind@,
            name: self.name@,
            text: self.text@,
        }
    }
}

/// Where a step leaves the host and the task, and the work that comes next.
#[verifier::ext_equal]
pub struct Turn {
    pub host: Option<RunnerView>,
    pub task: TaskView,
    pub action: Action,
}

// ---- what an event says ----------------------------------------------------

/// Whether the work went through.
pub open spec fn yes(event: Event<Seq<char>>) -> bool {
    match event {
        Event::Flag(b) => b,
        _ => false,
    }
}

/// Whether the bridge was fetched.
pub open spec fn fetched(event: Event<Seq<char>>) -> bool {
    match event {
        Event::Fetched(ok, object) => ok && object,
        _ => false,
    }
}

/// What became of the call of a method.
pub open spec fn call_result(event: Event<Seq<char>>) -> CallResult<Seq<char>> {
    match event {
        Event::Returned(true, value) => CallResult::Value(value),
        _ => CallResult::Threw,
    }
}

/// The text of a number.
pub open spec fn formatted(event: Event<Seq<char>>) -> Seq<char> {
    match event {
        Event::Formatted(text) => text,
        _ => Seq::empty(),
    }
}

/// The id that a name was interned as; the largest where there is none.
pub open spec fn parsed_id(event: Event<Seq<char>>) -> u32 {
    match event {
        Event::Parsed(Some(bits)) => as_u32(bits),
        _ => u32::MAX,
    }
}

/// The address of the native, where there is one.
pub open spec fn unwrapped(event: Event<Seq<char>>) -> Option<usize> {
    match event {
        Event::Native(address) => address,
        _ => None,
    }
}

/// What the document operation came to.
pub open spec fn operated(event: Event<Seq<char>>) -> DomResult<Seq<char>> {
    match event {
        Event::Done(result) => result,
        _ => DomResult::Failed,
    }
}

/// The low 32 bits of a number, as a signed number.
pub open spec fn low_bits(n: i64) -> int {
    let low = n as int % 0x1_0000_0000;
    if low >= 0x8000_0000 {
        low - 0x1_0000_0000
    } else {
        low
    }
}

// ---- turns -----------------------------------------------------------------

/// The host call ends.
pub open spec fn finish(host: Option<RunnerView>, t: TaskView, outcome: Outcome) -> Turn {
    Turn { host, task: TaskView { stage: Stage::Finished, ..t }, action: Action::Finish(outcome) }
}

/// A bridge method is to be called, from finding the context on.
pub open spec fn call_bridge(
    host: Option<RunnerView>,
    t: TaskView,
    call: CallView,
    after: After,
) -> Turn {
    Turn {
        host,
        task: TaskView { stage: Stage::Bridge(Pos::Context, after), call, ..t },
        action: Action::Context,
    }
}

/// A bridge method is to be called, in the context that was found before.
pub open spec fn call_bridge_here(
    host: Option<RunnerView>,
    t: TaskView,
    call: CallView,
    after: After,
) -> Turn {
    Turn {
        host,
        task: TaskView { stage: Stage::Bridge(Pos::Fetch, after), call, ..t },
        action: Action::FetchBridge,
    }
}

/// The arguments from a position on are to be added, and then the method called.
pub open spec fn push_from(host: Option<RunnerView>, t: TaskView, i: int, after: After) -> Turn {
    if i < t.call.args.len() {
        Turn {
            host,
            task: TaskView { stage: Stage::Bridge(Pos::Push(i as usize), after), ..t },
            action: Action::Push,
        }
    } else {
        Turn {
            host,
            task: TaskView { stage: Stage::Bridge(Pos::Invoke, after), ..t },
            action: Action::Invoke(t.call.method),
        }
    }
}

/// The call that gives the object behind a handle.
pub open spec fn handle_call(handle: i64) -> CallView {
    CallView { method: Method::HandleObj, args: seq![JsArg::Number(as_double(handle as int))] }
}

/// The call that registers the object that a member created.
pub open spec fn register_call() -> CallView {
    CallView { method: Method::Register, args: seq![JsArg::Object] }
}

/// The direct tier does not take the member: the reflective bridge serves it.
pub open spec fn fall_back(host: Option<RunnerView>, t: TaskView) -> Turn {
    if host is Some {
        call_bridge(host, t, reflective(t.member), After::Wide)
    } else {
        finish(host, t, Outcome::Reply(Reply::Untouched))
    }
}

/// The natives are found: the member is used on them.
pub open spec fn operate(host: Option<RunnerView>, t: TaskView) -> Turn {
    Turn {
        host,
        task: TaskView { stage: Stage::Operate, ..t },
        action: Action::Operate(t.member.access, t.member.hot, t.member.receiver, t.member.operand),
    }
}

/// The operand is found.
pub open spec fn found_operand(host: Option<RunnerView>, t: TaskView, address: usize) -> Turn {
    operate(host, TaskView { member: MemberView { operand: address, ..t.member }, ..t })
}

/// The operand is to be found: in the kept natives, or else in the realm.
#[verifier::opaque]
pub open spec fn find_operand(host: Option<RunnerView>, t: TaskView) -> Turn {
    let handle = operand_handle(t.member.args);
    match operand_of(t.member.hot) {
        Operand::Absent => operate(host, t),
        Operand::Native(role) => if host is None {
            fall_back(host, t)
        } else if native_of(host, handle, role) != 0 {
            found_operand(host, t, native_of(host, handle, role))
        } else {
            call_bridge_here(host, t, handle_call(handle), After::Operand)
        },
        Operand::Object => if host is None {
            fall_back(host, t)
        } else {
            call_bridge_here(host, t, handle_call(handle), After::Operand)
        },
    }
}

/// The receiver is found.
#[verifier::opaque]
pub open spec fn found_receiver(host: Option<RunnerView>, t: TaskView, address: usize) -> Turn {
    let next = TaskView { member: MemberView { receiver: address, ..t.member }, ..t };
    if fitting_late(t.member.hot, t.member.args) {
        find_operand(host, next)
    } else {
        fall_back(host, next)
    }
}

/// The direct tier is tried: a covered use with fitting arguments has its
/// receiver looked for, in the kept natives or else in the realm.
#[verifier::opaque]
pub open spec fn attempt(host: Option<RunnerView>, t: TaskView) -> Turn {
    let m = t.member;
    if !covered(m.access, m.hot) || !fitting(m.access, m.hot, m.args) {
        fall_back(host, t)
    } else {
        match receiver_role(m.hot) {
            None => operate(host, t),
            Some(role) => if host is None {
                fall_back(host, t)
            } else if native_of(host, m.target, role) != 0 {
                found_receiver(host, t, native_of(host, m.target, role))
            } else {
                call_bridge_here(host, t, handle_call(m.target), After::Receiver)
            },
        }
    }
}

/// The document operation came to something.
#[verifier::opaque]
pub open spec fn settle_operation(
    host: Option<RunnerView>,
    t: TaskView,
    result: DomResult<Seq<char>>,
) -> Turn {
    match result {
        DomResult::Failed => fall_back(host, t),
        DomResult::Done => finish(host, t, Outcome::Reply(done_reply(t.member))),
        DomResult::Flag(b) => finish(host, t, Outcome::Reply(Reply::Bool(b))),
        DomResult::Text(text) => finish(widened(host, text), t, Outcome::Reply(Reply::Text)),
        DomResult::Count(n) => finish(host, t, Outcome::Reply(Reply::Number(as_double(n as int)))),
        DomResult::Created(native, node) => if host is None {
            fall_back(host, t)
        } else {
            call_bridge_here(host, t, register_call(), After::Register(native, node))
        },
    }
}

/// The numbers of a drawing call are written out one by one, and then it goes to
/// the bridge under the method's name.
#[verifier::opaque]
pub open spec fn write_numbers(host: Option<RunnerView>, t: TaskView) -> Turn {
    if t.bind.written.len() < t.bind.argc {
        Turn {
            host,
            task: TaskView { stage: Stage::FormatNext, ..t },
            action: Action::FormatNumber(coordinate(t.bind, t.bind.written.len() as int)),
        }
    } else if host is None {
        finish(host, t, Outcome::Reply(Reply::Untouched))
    } else {
        call_bridge(
            host,
            t,
            CallView { method: Method::CallMember, args: text_args(bind_texts(t.bind)) },
            After::Draw,
        )
    }
}

/// A drawing call on something else than a drawing context, or of no known
/// operation.
#[verifier::opaque]
pub open spec fn draw_elsewhere(host: Option<RunnerView>, t: TaskView) -> Turn {
    if bind_name(t.bind.id).len() == 0 {
        finish(host, t, Outcome::Reply(Reply::Untouched))
    } else {
        write_numbers(host, t)
    }
}

/// The drawing context is found.
#[verifier::opaque]
pub open spec fn found_canvas(host: Option<RunnerView>, t: TaskView, address: usize) -> Turn {
    match drawing(t.bind) {
        Some(op) => Turn {
            host,
            task: TaskView { stage: Stage::Draw, ..t },
            action: Action::Draw(address, op),
        },
        None => draw_elsewhere(host, t),
    }
}

/// The drawing context is to be found: in the kept natives, or else in the realm.
#[verifier::opaque]
pub open spec fn find_canvas(host: Option<RunnerView>, t: TaskView) -> Turn {
    if host is None {
        draw_elsewhere(host, t)
    } else if native_of(host, t.bind.target, Role::Canvas2d) != 0 {
        found_canvas(host, t, native_of(host, t.bind.target, Role::Canvas2d))
    } else {
        call_bridge_here(host, t, handle_call(t.bind.target), After::Canvas)
    }
}

/// A number is to be written out.
pub open spec fn format(host: Option<RunnerView>, t: TaskView, bits: u64, stage: Stage) -> Turn {
    Turn { host, task: TaskView { stage, ..t }, action: Action::FormatNumber(bits) }
}

/// The reply to interning a name is to be read as a number.
pub open spec fn parse_id(host: Option<RunnerView>, t: TaskView, text: Seq<char>) -> Turn {
    Turn {
        host,
        task: TaskView { stage: Stage::ParseId, text, ..t },
        action: Action::ParseNumber,
    }
}

/// The name was interned, and its classification is kept.
pub open spec fn intern_as(host: Option<RunnerView>, t: TaskView, id: u32) -> Turn {
    finish(interned(host, t.name, id), t, Outcome::Id(id))
}

/// The reply to a wide call: typed by the value that came back. An object holds a
/// handle or some JSON.
#[verifier::opaque]
pub open spec fn settle_wide(
    host: Option<RunnerView>,
    t: TaskView,
    result: CallResult<Seq<char>>,
) -> Turn {
    match result {
        CallResult::Unreached => finish(host, t, Outcome::Reply(Reply::Untouched)),
        CallResult::Threw => finish(host, t, Outcome::Reply(Reply::Failed)),
        CallResult::Value(JsValue::Bool(b)) => finish(host, t, Outcome::Reply(Reply::Bool(b))),
        CallResult::Value(JsValue::Number(bits)) => finish(
            host,
            t,
            Outcome::Reply(Reply::Number(bits)),
        ),
        CallResult::Value(JsValue::Text(text)) => finish(
            widened(host, text),
            t,
            Outcome::Reply(Reply::Text),
        ),
        CallResult::Value(JsValue::Object) => Turn {
            host,
            task: TaskView { stage: Stage::ReadField(Field::Handle), ..t },
            action: Action::ReadField(Field::Handle),
        },
        CallResult::Value(_) => finish(host, t, Outcome::Reply(Reply::Nothing)),
    }
}

/// A call of a bridge method is over.
#[verifier::opaque]
pub open spec fn settle(
    host: Option<RunnerView>,
    t: TaskView,
    after: After,
    result: CallResult<Seq<char>>,
) -> Turn {
    match after {
        After::Text => finish(scratched(host, text_result(result)), t, Outcome::Scratch),
        After::Integer => finish(host, t, Outcome::Integer(int_result(result))),
        After::Narrow => finish(host, t, Outcome::Narrow(low_bits(int_result(result)) as i32)),
        After::Scalar => match result {
            CallResult::Value(JsValue::Number(bits)) => format(host, t, bits, Stage::FormatScalar),
            _ => finish(scratched(host, text_result(result)), t, Outcome::Scratch),
        },
        After::Intern => match result {
            CallResult::Value(JsValue::Number(bits)) => format(host, t, bits, Stage::FormatId),
            CallResult::Value(_) => parse_id(host, t, text_result(result)),
            _ => intern_as(host, t, u32::MAX),
        },
        After::Wide => settle_wide(host, t, result),
        After::Receiver => match (result, receiver_role(t.member.hot)) {
            (CallResult::Value(JsValue::Object), Some(role)) => Turn {
                host,
                task: TaskView { stage: Stage::UnwrapReceiver, ..t },
                action: Action::Unwrap(role),
            },
            _ => fall_back(host, t),
        },
        After::Operand => match (result, operand_of(t.member.hot)) {
            (CallResult::Value(JsValue::Object), Operand::Native(role)) => Turn {
                host,
                task: TaskView { stage: Stage::UnwrapOperand, ..t },
                action: Action::Unwrap(role),
            },
            (CallResult::Value(JsValue::Object), Operand::Object) => operate(host, t),
            _ => fall_back(host, t),
        },
        After::Canvas => match result {
            CallResult::Value(JsValue::Object) => Turn {
                host,
                task: TaskView { stage: Stage::UnwrapCanvas, ..t },
                action: Action::Unwrap(Role::Canvas2d),
            },
            _ => draw_elsewhere(host, t),
        },
        After::Register(native, node) => {
            let handle = int_result(result);
            if handle < 0 {
                fall_back(host, t)
            } else {
                finish(
                    created(host, t.member.hot, handle, native, node),
                    t,
                    Outcome::Reply(Reply::Ref(as_double(handle as int))),
                )
            }
        },
        After::Draw => finish(
            scratched(host, text_result(result)),
            t,
            Outcome::Reply(Reply::Untouched),
        ),
    }
}

/// A step of a call of a bridge method.
pub open spec fn step_bridge(
    host: Option<RunnerView>,
    t: TaskView,
    pos: Pos,
    after: After,
    event: Event<Seq<char>>,
) -> Turn {
    match pos {
        Pos::Context => if yes(event) {
            call_bridge_here(host, t, t.call, after)
        } else {
            settle(host, t, after, CallResult::Unreached)
        },
        Pos::Fetch => if fetched(event) {
            push_from(host, t, 0, after)
        } else {
            settle(host, t, after, CallResult::Unreached)
        },
        Pos::Push(i) => if yes(event) {
            push_from(host, t, i + 1, after)
        } else {
            settle(host, t, after, CallResult::Unreached)
        },
        Pos::Invoke => settle(host, t, after, call_result(event)),
    }
}

/// One step of a host call.
pub open spec fn step(host: Option<RunnerView>, t: TaskView, event: Event<Seq<char>>) -> Turn {
    match t.stage {
        Stage::Bridge(pos, after) => step_bridge(host, t, pos, after, event),
        Stage::ReadField(Field::Handle) => match event {
            Event::Returned(true, JsValue::Number(bits)) => finish(
                host,
                t,
                Outcome::Reply(Reply::Ref(bits)),
            ),
            _ => Turn {
                host,
                task: TaskView { stage: Stage::ReadField(Field::Json), ..t },
                action: Action::ReadField(Field::Json),
            },
        },
        Stage::ReadField(Field::Json) => match event {
            Event::Returned(true, JsValue::Text(text)) => finish(
                widened(host, text),
                t,
                Outcome::Reply(Reply::Json),
            ),
            _ => finish(host, t, Outcome::Reply(Reply::Nothing)),
        },
        Stage::FormatScalar => finish(scratched(host, formatted(event)), t, Outcome::Scratch),
        Stage::FormatId => parse_id(host, t, formatted(event)),
        Stage::ParseId => intern_as(host, t, parsed_id(event)),
        Stage::Enter => if yes(event) {
            attempt(host, t)
        } else {
            fall_back(host, t)
        },
        Stage::UnwrapReceiver => match (unwrapped(event), receiver_role(t.member.hot)) {
            (Some(address), Some(role)) => found_receiver(
                resolved(host, t.member.target, role, address),
                t,
                address,
            ),
            _ => fall_back(host, t),
        },
        Stage::UnwrapOperand => match (unwrapped(event), operand_of(t.member.hot)) {
            (Some(address), Operand::Native(role)) => found_operand(
                resolved(host, operand_handle(t.member.args), role, address),
                t,
                address,
            ),
            _ => fall_back(host, t),
        },
        Stage::Operate => settle_operation(host, t, operated(event)),
        Stage::EnterCanvas => if yes(event) {
            find_canvas(host, t)
        } else {
            draw_elsewhere(host, t)
        },
        Stage::UnwrapCanvas => match unwrapped(event) {
            Some(address) => found_canvas(
                resolved(host, t.bind.target, Role::Canvas2d, address),
                t,
                address,
            ),
            None => draw_elsewhere(host, t),
        },
        Stage::Draw => finish(host, t, Outcome::Reply(Reply::Untouched)),
        Stage::FormatNext => write_numbers(
            host,
            TaskView {
                bind: BindView { written: t.bind.written.push(formatted(event)), ..t.bind },
                ..t
            },
        ),
        Stage::Finished => finish(host, t, Outcome::Spent),
    }
}

// ---- the machine -----------------------------------------------------------

/// The low 32 bits of a number, as a signed number.
fn narrow(n: i64) -> (r: i32)
    ensures
        r == low_bits(n),
{
    let low: i64 = if n >= 0 {
        n % 0x1_0000_0000
    } else {
        0xffff_ffff - (-(n + 1)) % 0x1_0000_0000
    };
    if low >= 0x8000_0000 {
        (low - 0x1_0000_0000) as i32
    } else {
        low as i32
    }
}

impl Task {
    /// Ends the host call.
    fn finish(&mut self, outcome: Outcome) -> (action: Action)
        ensures
            forall|host: Option<RunnerView>| #[trigger]
                finish(host, old(self)@, outcome) == (Turn { host, task: final(self)@, action }),
    {
        self.stage = Stage::Finished;
        Action::Finish(outcome)
    }

    /// Ends the host call with a typed reply.
    fn reply(&mut self, reply: Reply) -> (action: Action)
        ensures
            forall|host: Option<RunnerView>| #[trigger]
                finish(host, old(self)@, Outcome::Reply(reply)) == (Turn {
                    host,
                    task: final(self)@,
                    action,
                }),
    {
        self.finish(Outcome::Reply(reply))
    }

    /// Calls a bridge method, from finding the context on.
    fn call_bridge(&mut self, call: BridgeCall, after: After) -> (action: Action)
        ensures
            forall|host: Option<RunnerView>| #[trigger]
                call_bridge(host, old(self)@, call@, after) == (Turn {
                    host,
                    task: final(self)@,
                    action,
                }),
    {
        self.stage = Stage::Bridge(Pos::Context, after);
        self.call = call;
        Action::Context
    }

    /// Calls a bridge method in the context that was found before.
    fn call_bridge_here(&mut self, call: BridgeCall, after: After) -> (action: Action)
        ensures
            forall|host: Option<RunnerView>| #[trigger]
                call_bridge_here(host, old(self)@, call@, after) == (Turn {
                    host,
                    task: final(self)@,
                    action,
                }),
    {
        self.stage = Stage::Bridge(Pos::Fetch, after);
        self.call = call;
        Action::FetchBridge
    }

    /// Adds the arguments from a position on, and then calls the method.
    fn push_from(&mut self, i: usize, after: After) -> (action: Action)
        ensures
            forall|host: Option<RunnerView>| #[trigger]
                push_from(host, old(self)@, i as int, after) == (Turn {
                    host,
                    task: final(self)@,
                    action,
                }),
    {
        if i < self.call.args.len() {
            self.stage = Stage::Bridge(Pos::Push(i), after);
            Action::Push
        } else {
            self.stage = Stage::Bridge(Pos::Invoke, after);
            Action::Invoke(self.call.method)
        }
    }

    /// Leaves the member to the reflective bridge.
    pub(crate) fn fall_back(&mut self, host: &Host) -> (action: Action)
        ensures
            (Turn { host: host@, task: final(self)@, action }) == fall_back(host@, old(self)@),
    {
        if host.running() {
            let call = self.member.reflective();
            self.call_bridge(call, After::Wide)
        } else {
            self.reply(Reply::Untouched)
        }
    }

    /// Uses the member on the natives that were found.
    fn operate(&mut self) -> (action: Action)
        ensures
            forall|host: Option<RunnerView>| #[trigger]
                operate(host, old(self)@) == (Turn { host, task: final(self)@, action }),
    {
        self.stage = Stage::Operate;
        Action::Operate(
            self.member.access,
            self.member.hot,
            self.member.receiver,
            self.member.operand,
        )
    }

    /// Finds the operand, in the kept natives or else in the realm.
    fn find_operand(&mut self, host: &Host) -> (action: Action)
        ensures
            (Turn { host: host@, task: final(self)@, action }) == find_operand(host@, old(self)@),
    {
        reveal(find_operand);
        let handle: i64 = self.member.operand_handle();
        match operand_for(self.member.hot) {
            Operand::Absent => self.operate(),
            Operand::Native(role) => if !host.running() {
                self.fall_back(host)
            } else {
                let address: usize = host.native(handle, role);
                if address != 0 {
                    self.member.operand = address;
                    self.operate()
                } else {
                    self.call_bridge_here(handle_object(handle), After::Operand)
                }
            },
            Operand::Object => if !host.running() {
                self.fall_back(host)
            } else {
                self.call_bridge_here(handle_object(handle), After::Operand)
            },
        }
    }

    /// Goes on with the receiver that was found.
    fn found_receiver(&mut self, host: &Host, address: usize) -> (action: Action)
        ensures
            (Turn { host: host@, task: final(self)@, action }) == found_receiver(
                host@,
                old(self)@,
                address,
            ),
    {
        reveal(found_receiver);
        self.member.receiver = address;
        if self.member.fitting_late() {
            self.find_operand(host)
        } else {
            self.fall_back(host)
        }
    }

    /// Tries the direct tier.
    fn attempt(&mut self, host: &Host) -> (action: Action)
        ensures
            (Turn { host: host@, task: final(self)@, action }) == attempt(host@, old(self)@),
    {
        reveal(attempt);
        if !self.member.covered() || !self.member.fitting() {
            return self.fall_back(host);
        }
        match role_of_receiver(self.member.hot) {
            None => self.operate(),
            Some(role) => if !host.running() {
                self.fall_back(host)
            } else {
                let address: usize = host.native(self.member.target, role);
                if address != 0 {
                    self.found_receiver(host, address)
                } else {
                    self.call_bridge_here(handle_object(self.member.target), After::Receiver)
                }
            },
        }
    }

    /// Goes on with what the document operation came to.
    fn settle_operation(&mut self, host: &mut Host, result: DomResult<String>) -> (action: Action)
        ensures
            (Turn { host: final(host)@, task: final(self)@, action }) == settle_operation(
                old(host)@,
                old(self)@,
                result@,
            ),
    {
        reveal(settle_operation);
        match result {
            DomResult::Failed => self.fall_back(host),
            DomResult::Done => {
                let reply = self.member.done_reply();
                self.reply(reply)
            },
            DomResult::Flag(b) => self.reply(Reply::Bool(b)),
            DomResult::Text(text) => {
                host.fill_str16(text.as_str());
                self.reply(Reply::Text)
            },
            DomResult::Count(n) => self.reply(Reply::Number(from_i64(n as i64))),
            DomResult::Created(native, node) => if !host.running() {
                self.fall_back(host)
            } else {
                self.call_bridge_here(register_object(), After::Register(native, node))
            },
        }
    }

    /// Writes out the numbers of a drawing call, and then puts it to the bridge.
    fn write_numbers(&mut self, host: &Host) -> (action: Action)
        ensures
            (Turn { host: host@, task: final(self)@, action }) == write_numbers(host@, old(self)@),
    {
        reveal(write_numbers);
        if self.bind.written.len() < self.bind.argc {
            self.stage = Stage::FormatNext;
            Action::FormatNumber(self.bind.coordinate(self.bind.written.len()))
        } else if !host.running() {
            self.reply(Reply::Untouched)
        } else {
            let args = put_texts(self.bind.bridge_texts());
            self.call_bridge(BridgeCall { method: Method::CallMember, args }, After::Draw)
        }
    }

    /// Draws on something else than a drawing context.
    fn draw_elsewhere(&mut self, host: &Host) -> (action: Action)
        ensures
            (Turn { host: host@, task: final(self)@, action }) == draw_elsewhere(host@, old(self)@),
    {
        reveal(draw_elsewhere);
        if bind_method_name(self.bind.id).is_empty() {
            self.reply(Reply::Untouched)
        } else {
            self.write_numbers(host)
        }
    }

    /// Goes on with the drawing context that was found.
    fn found_canvas(&mut self, host: &Host, address: usize) -> (action: Action)
        ensures
            (Turn { host: host@, task: final(self)@, action }) == found_canvas(
                host@,
                old(self)@,
                address,
            ),
    {
        reveal(found_canvas);
        match self.bind.drawing() {
            Some(op) => {
                self.stage = Stage::Draw;
                Action::Draw(address, op)
            },
            None => self.draw_elsewhere(host),
        }
    }

    /// Finds the drawing context, in the kept natives or else in the realm.
    fn find_canvas(&mut self, host: &Host) -> (action: Action)
        ensures
            (Turn { host: host@, task: final(self)@, action }) == find_canvas(host@, old(self)@),
    {
        reveal(find_canvas);
        if !host.running() {
            return self.draw_elsewhere(host);
        }
        let address: usize = host.native(self.bind.target, Role::Canvas2d);
        if address != 0 {
            self.found_canvas(host, address)
        } else {
            self.call_bridge_here(handle_object(self.bind.target), After::Canvas)
        }
    }

    /// Writes out a number.
    fn format(&mut self, bits: u64, stage: Stage) -> (action: Action)
        ensures
            forall|host: Option<RunnerView>| #[trigger]
                format(host, old(self)@, bits, stage) == (Turn { host, task: final(self)@, action }),
    {
        self.stage = stage;
        Action::FormatNumber(bits)
    }

    /// Reads the reply to interning a name as a number.
    fn parse_id(&mut self, text: String) -> (action: Action)
        ensures
            forall|host: Option<RunnerView>| #[trigger]
                parse_id(host, old(self)@, text@) == (Turn { host, task: final(self)@, action }),
    {
        self.stage = Stage::ParseId;
        self.text = text;
        Action::ParseNumber
    }

    /// Keeps the classification of the name under the id it was interned as.
    fn intern_as(&mut self, host: &mut Host, id: u32) -> (action: Action)
        ensures
            (Turn { host: final(host)@, task: final(self)@, action }) == intern_as(
                old(host)@,
                old(self)@,
                id,
            ),
    {
        host.intern(self.name.as_str(), id);
        self.finish(Outcome::Id(id))
    }

    /// Types the reply to a wide call by the value that came back.
    fn settle_wide(&mut self, host: &mut Host, result: CallResult<String>) -> (action: Action)
        ensures
            (Turn { host: final(host)@, task: final(self)@, action }) == settle_wide(
                old(host)@,
                old(self)@,
                result@,
            ),
    {
        reveal(settle_wide);
        match result {
            CallResult::Unreached => self.reply(Reply::Untouched),
            CallResult::Threw => self.reply(Reply::Failed),
            CallResult::Value(value) => match value {
                JsValue::Bool(b) => self.reply(Reply::Bool(b)),
                JsValue::Number(bits) => self.reply(Reply::Number(bits)),
                JsValue::Text(text) => {
                    host.fill_str16(text.as_str());
                    self.reply(Reply::Text)
                },
                JsValue::Object => {
                    self.stage = Stage::ReadField(Field::Handle);
                    Action::ReadField(Field::Handle)
                },
                JsValue::Null => self.reply(Reply::Nothing),
                JsValue::Undefined => self.reply(Reply::Nothing),
                JsValue::Other => self.reply(Reply::Nothing),
            },
        }
    }

    /// Holds a string reply and ends the host call.
    fn settle_text(&mut self, host: &mut Host, text: String, outcome: Outcome) -> (action: Action)
        ensures
            (Turn { host: final(host)@, task: final(self)@, action }) == finish(
                scratched(old(host)@, text@),
                old(self)@,
                outcome,
            ),
    {
        host.scratch(text);
        self.finish(outcome)
    }

    /// Goes on after a call of a bridge method.
    fn settle(&mut self, host: &mut Host, after: After, result: CallResult<String>) -> (action:
        Action)
        ensures
            (Turn { host: final(host)@, task: final(self)@, action }) == settle(
                old(host)@,
                old(self)@,
                after,
                result@,
            ),
    {
        reveal(settle);
        match after {
            After::Text => self.settle_text(host, take_text(result), Outcome::Scratch),
            After::Integer => self.finish(Outcome::Integer(take_int(&result))),
            After::Narrow => self.finish(Outcome::Narrow(narrow(take_int(&result)))),
            After::Scalar => match result {
                CallResult::Value(JsValue::Number(bits)) => self.format(bits, Stage::FormatScalar),
                _ => self.settle_text(host, take_text(result), Outcome::Scratch),
            },
            After::Intern => match result {
                CallResult::Value(JsValue::Number(bits)) => self.format(bits, Stage::FormatId),
                CallResult::Value(value) => self.parse_id(take_text(CallResult::Value(value))),
                _ => self.intern_as(host, u32::MAX),
            },
            After::Wide => self.settle_wide(host, result),
            After::Receiver => match (is_object(&result), role_of_receiver(self.member.hot)) {
                (true, Some(role)) => {
                    self.stage = Stage::UnwrapReceiver;
                    Action::Unwrap(role)
                },
                _ => self.fall_back(host),
            },
            After::Operand => match (is_object(&result), operand_for(self.member.hot)) {
                (true, Operand::Native(role)) => {
                    self.stage = Stage::UnwrapOperand;
                    Action::Unwrap(role)
                },
                (true, Operand::Object) => self.operate(),
                _ => self.fall_back(host),
            },
            After::Canvas => if is_object(&result) {
                self.stage = Stage::UnwrapCanvas;
                Action::Unwrap(Role::Canvas2d)
            } else {
                self.draw_elsewhere(host)
            },
            After::Register(native, node) => {
                let handle: i64 = take_int(&result);
                if handle < 0 {
                    self.fall_back(host)
                } else {
                    keep_created(host, self.member.hot, handle, native, node);
                    self.reply(Reply::Ref(from_i64(handle)))
                }
            },
            After::Draw => self.settle_text(
                host,
                take_text(result),
                Outcome::Reply(Reply::Untouched),
            ),
        }
    }
}

impl Task {
    /// Takes a step of a call of a bridge method.
    fn step_bridge(&mut self, host: &mut Host, pos: Pos, after: After, event: Event<String>) -> (action:
        Action)
        ensures
            (Turn { host: final(host)@, task: final(self)@, action }) == step_bridge(
                old(host)@,
                old(self)@,
                pos,
                after,
                event@,
            ),
    {
        let result: CallResult<String> = match (pos, event) {
            (Pos::Context, Event::Flag(true)) => {
                self.stage = Stage::Bridge(Pos::Fetch, after);
                return Action::FetchBridge;
            },
            (Pos::Fetch, Event::Fetched(true, true)) => {
                return self.push_from(0, after);
            },
            (Pos::Push(i), Event::Flag(true)) => {
                return if i < self.call.args.len() {
                    self.push_from(i + 1, after)
                } else {
                    self.stage = Stage::Bridge(Pos::Invoke, after);
                    Action::Invoke(self.call.method)
                };
            },
            (Pos::Invoke, Event::Returned(true, value)) => CallResult::Value(value),
            (Pos::Invoke, _) => CallResult::Threw,
            _ => CallResult::Unreached,
        };
        self.settle(host, after, result)
    }

    /// Takes one step of the host call.
    pub fn step(&mut self, host: &mut Host, event: Event<String>) -> (action: Action)
        ensures
            (Turn { host: final(host)@, task: final(self)@, action }) == step(
                old(host)@,
                old(self)@,
                event@,
            ),
    {
        match self.stage {
            Stage::Bridge(pos, after) => self.step_bridge(host, pos, after, event),
            Stage::ReadField(Field::Handle) => match event {
                Event::Returned(true, JsValue::Number(bits)) => self.reply(Reply::Ref(bits)),
                _ => {
                    self.stage = Stage::ReadField(Field::Json);
                    Action::ReadField(Field::Json)
                },
            },
            Stage::ReadField(Field::Json) => match event {
                Event::Returned(true, JsValue::Text(text)) => {
                    host.fill_str16(text.as_str());
                    self.reply(Reply::Json)
                },
                _ => self.reply(Reply::Nothing),
            },
            Stage::FormatScalar => self.settle_text(host, take_formatted(event), Outcome::Scratch),
            Stage::FormatId => self.parse_id(take_formatted(event)),
            Stage::ParseId => match event {
                Event::Parsed(Some(bits)) => self.intern_as(host, to_u32(bits)),
                _ => self.intern_as(host, u32::MAX),
            },
            Stage::Enter => match event {
                Event::Flag(true) => self.attempt(host),
                _ => self.fall_back(host),
            },
            Stage::UnwrapReceiver => match (event, role_of_receiver(self.member.hot)) {
                (Event::Native(Some(address)), Some(role)) => {
                    host.resolve(self.member.target, role, address);
                    self.found_receiver(host, address)
                },
                _ => self.fall_back(host),
            },
            Stage::UnwrapOperand => match (event, operand_for(self.member.hot)) {
                (Event::Native(Some(address)), Operand::Native(role)) => {
                    host.resolve(self.member.operand_handle(), role, address);
                    self.member.operand = address;
                    self.operate()
                },
                _ => self.fall_back(host),
            },
            Stage::Operate => match event {
                Event::Done(result) => self.settle_operation(host, result),
                _ => self.settle_operation(host, DomResult::Failed),
            },
            Stage::EnterCanvas => match event {
                Event::Flag(true) => self.find_canvas(host),
                _ => self.draw_elsewhere(host),
            },
            Stage::UnwrapCanvas => match event {
                Event::Native(Some(address)) => {
                    host.resolve(self.bind.target, Role::Canvas2d, address);
                    self.found_canvas(host, address)
                },
                _ => self.draw_elsewhere(host),
            },
            Stage::Draw => self.reply(Reply::Untouched),
            Stage::FormatNext => {
                let ghost before = self.bind@.written;
                self.bind.written.push(take_formatted(event));
                assert(self.bind@.written =~= before.push(formatted(event@)));
                self.write_numbers(host)
            },
            Stage::Finished => self.finish(Outcome::Spent),
        }
    }
}

/// The value that a task wants added to the arguments, while it wants one added.
pub open spec fn argument(t: TaskView) -> Option<JsArg<Seq<char>>> {
    match t.stage {
        Stage::Bridge(Pos::Push(i), _) => if i < t.call.args.len() {
            Some(t.call.args[i as int])
        } else {
            None
        },
        _ => None,
    }
}

impl Task {
    /// The value that the task wants added to the arguments.
    pub fn argument(&self) -> (value: Option<&JsArg<String>>)
        ensures
            value is Some <==> argument(self@) is Some,
            value matches Some(v) ==> v@ == argument(self@)->0,
    {
        match self.stage {
            Stage::Bridge(Pos::Push(i), _) => if i < self.call.args.len() {
                Some(&self.call.args[i])
            } else {
                None
            },
            _ => None,
        }
    }
}

/// Takes the text of a number.
fn take_formatted(event: Event<String>) -> (text: String)
    ensures
        text@ == formatted(event@),
{
    match event {
        Event::Formatted(text) => text,
        _ => String::new(),
    }
}

/// Whether a method returned an object.
fn is_object(result: &CallResult<String>) -> (r: bool)
    ensures
        r == (result@ == CallResult::<Seq<char>>::Value(JsValue::Object)),
{
    match result {
        CallResult::Value(JsValue::Object) => true,
        _ => false,
    }
}

/// The call that gives the object behind a handle.
fn handle_object(handle: i64) -> (call: BridgeCall)
    ensures
        call@ == handle_call(handle),
{
    let mut args: Vec<JsArg<String>> = Vec::new();
    args.push(JsArg::Number(from_i64(handle)));
    assert(js_args(args@) =~= handle_call(handle).args);
    BridgeCall { method: Method::HandleObj, args }
}

/// The call that registers the object that a member created.
fn register_object() -> (call: BridgeCall)
    ensures
        call@ == register_call(),
{
    let mut args: Vec<JsArg<String>> = Vec::new();
    args.push(JsArg::Object);
    assert(js_args(args@) =~= register_call().args);
    BridgeCall { method: Method::Register, args }
}

}
