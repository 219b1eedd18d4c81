//! What the hooks are for: from what the engine hands over, by way of what the
//! page is asked and answers, to what the engine is replied. Names of members, of
//! bridge methods and of drawing methods stand here as the page knows them, and
//! kinds and tags as the engine knows them.

use crate::bridge::{kind_mask, law_mask_marks_kind, marked, CallResult, CallView};
use crate::calls::{member_use, start_bind, start_call_named, start_call_scalars, start_call_str, start_call_u16, start_get, start_get_id, start_get_u16, start_global, start_instanceof, start_intern, start_iterate, start_new, start_new_scalars, start_new_u16, start_release, start_set, start_set_u16, written_value};
use crate::canvas::{bind_name, bind_texts, coordinate, drawing, BindView, Drawing};
use crate::direct::{operand_handle, operand_of, receiver_role, reflective, Access, MemberView, Operand};
use crate::host::{hot_of, interned, native_of, resolved, RunnerView};
use crate::hot::{classify, law_digits_are_an_index, law_one_name_per_member, Hot};
use crate::laws::{handed_over, run, served_directly, willing, World};
use crate::natives::Role;
use crate::number::{as_double, as_i64, as_u32, law_integers_round_trip, lemma_nearest_fits};
use crate::operation::{operation, Operation};
use crate::protocol::{field_text, method_text, Arg16, DomResult, JsArg, JsValue, Reply, Scalar, KIND_CALLBACK, KIND_REF};
use crate::task::{argument, attempt, call_bridge, call_result, draw_elsewhere, fall_back, find_canvas, find_operand, found_canvas, found_receiver, handle_call, register_call, settle, settle_operation, settle_wide, step, write_numbers, Action, After, Event, Outcome, Pos, Stage, TaskView, Turn};
use crate::text::{decimal, decode16, digits_value, law_index_is_made_of_digits, law_utf16_round_trip, name_text};
use vstd::arithmetic::power2::{lemma2_to64, lemma2_to64_rest};
use vstd::prelude::*;

verus! {

// ---- following a host call -------------------------------------------------

/// A turn after some steps of the world.
pub open spec fn turn_after(start: Turn, world: World, n: nat) -> Turn {
    if n == 0 {
        start
    } else {
        let (host, event) = world((n - 1) as nat);
        step(host, run(start.task, world, (n - 1) as nat), event)
    }
}

/// Whether a host call has the page do exactly this: find the context, fetch the
/// bridge, add these values one after the other, and call the method of this name.
#[verifier::opaque]
pub open spec fn asks_bridge(
    start: Turn,
    world: World,
    method: Seq<char>,
    values: Seq<JsArg<Seq<char>>>,
) -> bool {
    &&& start.action == Action::Context
    &&& turn_after(start, world, 1).action == Action::FetchBridge
    &&& forall|j: nat|
        2 <= j < values.len() + 2 ==> (#[trigger] turn_after(start, world, j)).action
            == Action::Push && argument(turn_after(start, world, j).task) == Some(
            values[j - 2],
        )
    &&& turn_after(start, world, values.len() + 2).action matches Action::Invoke(called)
        && method_text(called) == method
}

proof fn lemma_pushes(
    host: Option<RunnerView>,
    t: TaskView,
    call: CallView,
    after: After,
    i: nat,
)
    requires
        i < call.args.len() <= usize::MAX,
    ensures
        ({
            let stage = if i + 1 < call.args.len() {
                Stage::Bridge(Pos::Push((i + 1) as usize), after)
            } else {
                Stage::Bridge(Pos::Invoke, after)
            };
            let now = TaskView { stage: Stage::Bridge(Pos::Push(i as usize), after), call, ..t };
            step(host, now, Event::Flag(true)) == (Turn {
                host,
                task: TaskView { stage, call, ..t },
                action: if i + 1 < call.args.len() {
                    Action::Push
                } else {
                    Action::Invoke(call.method)
                },
            })
        }),
{
}

proof fn lemma_enters(host: Option<RunnerView>, t: TaskView, call: CallView, after: After)
    requires
        call.args.len() <= usize::MAX,
    ensures
        ({
            let stage = if call.args.len() > 0 {
                Stage::Bridge(Pos::Push(0), after)
            } else {
                Stage::Bridge(Pos::Invoke, after)
            };
            let entering = TaskView { stage: Stage::Bridge(Pos::Context, after), call, ..t };
            let fetching = TaskView { stage: Stage::Bridge(Pos::Fetch, after), call, ..t };
            &&& step(host, entering, Event::Flag(true)) == (Turn {
                host,
                task: fetching,
                action: Action::FetchBridge,
            })
            &&& step(host, fetching, Event::Fetched(true, true)) == (Turn {
                host,
                task: TaskView { stage, call, ..t },
                action: if call.args.len() > 0 {
                    Action::Push
                } else {
                    Action::Invoke(call.method)
                },
            })
        }),
{
}

proof fn lemma_call_runs_to(
    host: Option<RunnerView>,
    t: TaskView,
    call: CallView,
    after: After,
    world: World,
    n: nat,
)
    requires
        call.args.len() <= usize::MAX,
        n <= call.args.len(),
        willing(world, n + 2),
    ensures
        ({
            let start = call_bridge(host, t, call, after);
            let stage = if n < call.args.len() {
                Stage::Bridge(Pos::Push(n as usize), after)
            } else {
                Stage::Bridge(Pos::Invoke, after)
            };
            &&& run(start.task, world, n + 2) == TaskView { stage, call, ..t }
            &&& turn_after(start, world, n + 2).task == TaskView { stage, call, ..t }
            &&& turn_after(start, world, n + 2).action == if n < call.args.len() {
                Action::Push
            } else {
                Action::Invoke(call.method)
            }
            &&& turn_after(start, world, 1).action == Action::FetchBridge
        }),
    decreases n,
{
    let start = call_bridge(host, t, call, after);
    assert(world(0).1 == Event::<Seq<char>>::Flag(true));
    assert(world(1).1 == Event::<Seq<char>>::Fetched(true, true));
    lemma_enters(world(0).0, t, call, after);
    lemma_enters(world(1).0, t, call, after);
    assert(run(start.task, world, 0) == start.task);
    assert(run(start.task, world, 1) == step(world(0).0, start.task, world(0).1).task);
    assert(run(start.task, world, 2) == step(
        world(1).0,
        run(start.task, world, 1),
        world(1).1,
    ).task);
    if n > 0 {
        lemma_call_runs_to(host, t, call, after, world, (n - 1) as nat);
        let (h, event) = world((n + 1) as nat);
        assert(event == Event::<Seq<char>>::Flag(true));
        lemma_pushes(h, t, call, after, (n - 1) as nat);
        assert(run(start.task, world, n + 2) == step(
            h,
            run(start.task, world, (n + 1) as nat),
            event,
        ).task);
    }
}

proof fn lemma_willing_less(world: World, less: nat, steps: nat)
    requires
        willing(world, steps),
        less <= steps,
    ensures
        willing(world, less),
{
}

proof fn lemma_call_runs(
    host: Option<RunnerView>,
    t: TaskView,
    call: CallView,
    after: After,
    world: World,
)
    requires
        call.args.len() <= usize::MAX,
        willing(world, call.args.len() + 2),
    ensures
        asks_bridge(call_bridge(host, t, call, after), world, method_text(call.method), call.args),
        run(call_bridge(host, t, call, after).task, world, call.args.len() + 2) == (TaskView {
            stage: Stage::Bridge(Pos::Invoke, after),
            call,
            ..t
        }),
{
    let start = call_bridge(host, t, call, after);
    assert forall|j: nat| 2 <= j < call.args.len() + 2 implies (#[trigger] turn_after(
        start,
        world,
        j,
    )).action == Action::Push && argument(turn_after(start, world, j).task) == Some(
        call.args[j - 2],
    ) by {
        lemma_willing_less(world, j, call.args.len() + 2);
        lemma_call_runs_to(host, t, call, after, world, (j - 2) as nat);
    }
    reveal(asks_bridge);
    lemma_call_runs_to(host, t, call, after, world, call.args.len());
}

// ---- replies of calls by name and by id ------------------------------------

/// Whether a host call whose method was called ends in the string that came back,
/// as the UTF-8 reply that the runner holds, and in an empty one where anything
/// else came back. Nothing else of the runner changes.
#[verifier::opaque]
pub open spec fn ends_in_text(start: Turn, world: World, n: nat) -> bool {
    let (host, event) = world(n);
    let end = turn_after(start, world, n + 1);
    host matches Some(r) ==> {
        &&& end.action == Action::Finish(Outcome::Scratch)
        &&& end.host == Some(
            RunnerView {
                scratch: match event {
                    Event::Returned(true, JsValue::Text(text)) => text,
                    _ => Seq::empty(),
                },
                ..r
            },
        )
    }
}

/// Whether a host call whose method was called ends in the string that came back,
/// or in the text of the number that came back, as the UTF-8 reply that the runner
/// holds, and in an empty one where anything else came back.
#[verifier::opaque]
pub open spec fn ends_in_scalar(start: Turn, world: World, n: nat) -> bool {
    let (host, event) = world(n);
    let end = turn_after(start, world, n + 1);
    match event {
        Event::Returned(true, JsValue::Number(bits)) => {
            &&& end.action == Action::FormatNumber(bits)
            &&& end.host == host
            &&& (world(n + 1).0 matches Some(r) ==> (world(n + 1).1 matches Event::Formatted(text)
                ==> {
                &&& turn_after(start, world, n + 2).action == Action::Finish(Outcome::Scratch)
                &&& turn_after(start, world, n + 2).host == Some(RunnerView { scratch: text, ..r })
            }))
        },
        _ => ends_in_text(start, world, n),
    }
}

/// The integer that came back: what a number reads as, and -1 for anything else.
pub open spec fn integer_back(event: Event<Seq<char>>) -> i64 {
    match event {
        Event::Returned(true, JsValue::Number(bits)) => as_i64(bits),
        _ => (-1) as i64,
    }
}

/// Whether a host call whose method was called ends in the integer that came back.
#[verifier::opaque]
pub open spec fn ends_in_integer(start: Turn, world: World, n: nat) -> bool {
    let (host, event) = world(n);
    let end = turn_after(start, world, n + 1);
    &&& end.host == host
    &&& end.action == Action::Finish(Outcome::Integer(integer_back(event)))
}

/// Whether a host call whose method was called ends in the low 32 bits of the
/// integer that came back.
#[verifier::opaque]
pub open spec fn ends_in_narrow(start: Turn, world: World, n: nat) -> bool {
    let (host, event) = world(n);
    let end = turn_after(start, world, n + 1);
    &&& end.host == host
    &&& end.action matches Action::Finish(Outcome::Narrow(low)) && (low - integer_back(event))
        % 0x1_0000_0000 == 0
}

proof fn lemma_last_step(start: Turn, world: World, n: nat, last: TaskView)
    requires
        run(start.task, world, n) == last,
    ensures
        turn_after(start, world, n + 1) == step(world(n).0, last, world(n).1),
        turn_after(start, world, n + 2) == step(
            world(n + 1).0,
            step(world(n).0, last, world(n).1).task,
            world(n + 1).1,
        ),
{
    let (h, event) = world(n);
    assert(run(start.task, world, n + 1) == step(h, run(start.task, world, n), event).task);
}

proof fn lemma_ends(
    host: Option<RunnerView>,
    t: TaskView,
    call: CallView,
    after: After,
    world: World,
)
    requires
        call.args.len() <= usize::MAX,
        willing(world, call.args.len() + 2),
    ensures
        asks_bridge(call_bridge(host, t, call, after), world, method_text(call.method), call.args),
        after == After::Text ==> ends_in_text(
            call_bridge(host, t, call, after),
            world,
            call.args.len() + 2,
        ),
        after == After::Scalar ==> ends_in_scalar(
            call_bridge(host, t, call, after),
            world,
            call.args.len() + 2,
        ),
        after == After::Integer ==> ends_in_integer(
            call_bridge(host, t, call, after),
            world,
            call.args.len() + 2,
        ),
        after == After::Narrow ==> ends_in_narrow(
            call_bridge(host, t, call, after),
            world,
            call.args.len() + 2,
        ),
{
    lemma_call_runs(host, t, call, after, world);
    let n = call.args.len() + 2;
    let start = call_bridge(host, t, call, after);
    let last = TaskView { stage: Stage::Bridge(Pos::Invoke, after), call, ..t };
    lemma_last_step(start, world, n, last);
    lemma_settled(start, world, n, last, after);
}

proof fn lemma_settled_text(host: Option<RunnerView>, last: TaskView, event: Event<Seq<char>>)
    ensures
        last.stage == Stage::Bridge(Pos::Invoke, After::Text) || (last.stage == Stage::Bridge(
            Pos::Invoke,
            After::Scalar,
        ) && !(event matches Event::Returned(true, JsValue::Number(_)))) ==> (host matches Some(r)
            ==> step(host, last, event).action == Action::Finish(Outcome::Scratch) && step(
            host,
            last,
            event,
        ).host == Some(
            RunnerView {
                scratch: match event {
                    Event::Returned(true, JsValue::Text(text)) => text,
                    _ => Seq::empty(),
                },
                ..r
            },
        )),
{
    reveal(settle);
}

proof fn lemma_settled_number(
    host: Option<RunnerView>,
    last: TaskView,
    bits: u64,
    later: RunnerView,
    text: Seq<char>,
)
    requires
        last.stage == Stage::Bridge(Pos::Invoke, After::Scalar),
    ensures
        ({
            let end = step(host, last, Event::Returned(true, JsValue::Number(bits)));
            let done = step(Some(later), end.task, Event::Formatted(text));
            &&& end.action == Action::FormatNumber(bits)
            &&& end.host == host
            &&& done.action == Action::Finish(Outcome::Scratch)
            &&& done.host == Some(RunnerView { scratch: text, ..later })
        }),
{
    reveal(settle);
}

proof fn lemma_settled_integer(host: Option<RunnerView>, last: TaskView, event: Event<Seq<char>>)
    ensures
        ({
            let end = step(host, last, event);
            &&& last.stage == Stage::Bridge(Pos::Invoke, After::Integer) ==> end.host == host
                && end.action == Action::Finish(Outcome::Integer(integer_back(event)))
            &&& last.stage == Stage::Bridge(Pos::Invoke, After::Narrow) ==> end.host == host && (
            end.action matches Action::Finish(Outcome::Narrow(low)) && (low - integer_back(event))
                % 0x1_0000_0000 == 0)
        }),
{
    reveal(settle);
}

proof fn lemma_settled(start: Turn, world: World, n: nat, last: TaskView, after: After)
    requires
        last.stage == Stage::Bridge(Pos::Invoke, after),
        turn_after(start, world, n + 1) == step(world(n).0, last, world(n).1),
        turn_after(start, world, n + 2) == step(
            world(n + 1).0,
            step(world(n).0, last, world(n).1).task,
            world(n + 1).1,
        ),
    ensures
        after == After::Text ==> ends_in_text(start, world, n),
        after == After::Scalar ==> ends_in_scalar(start, world, n),
        after == After::Integer ==> ends_in_integer(start, world, n),
        after == After::Narrow ==> ends_in_narrow(start, world, n),
{
    reveal(ends_in_text);
    reveal(ends_in_scalar);
    reveal(ends_in_integer);
    reveal(ends_in_narrow);
    let (host, event) = world(n);
    let (next, answer) = world(n + 1);
    lemma_settled_text(host, last, event);
    lemma_settled_integer(host, last, event);
    match event {
        Event::Returned(true, JsValue::Number(bits)) => {
            if after == After::Scalar {
                match (next, answer) {
                    (Some(later), Event::Formatted(text)) => {
                        lemma_settled_number(host, last, bits, later, text);
                    },
                    _ => {
                        lemma_settled_number(host, last, bits, arbitrary(), Seq::empty());
                    },
                }
            }
        },
        _ => {},
    }
}

/// Reading, writing, calling, constructing and iterating by name pass the target in
/// decimal and the texts as they were handed over, each to the bridge method of that
/// name, and reply with the string it returns.
pub proof fn law_calls_by_name(
    r: RunnerView,
    target: i64,
    name: Seq<u8>,
    json: Seq<u8>,
    world: World,
)
    requires
        willing(world, 5),
    ensures
        asks_bridge(
            start_get(Some(r), target, name),
            world,
            "get"@,
            seq![JsArg::Text(decimal(target as int)), JsArg::Text(name_text(name))],
        ),
        ends_in_text(start_get(Some(r), target, name), world, 4),
        asks_bridge(
            start_set(Some(r), target, name, json),
            world,
            "set"@,
            seq![
                JsArg::Text(decimal(target as int)),
                JsArg::Text(name_text(name)),
                JsArg::Text(name_text(json)),
            ],
        ),
        ends_in_text(start_set(Some(r), target, name, json), world, 5),
        asks_bridge(
            start_call_named(Some(r), target, name, json),
            world,
            "call"@,
            seq![
                JsArg::Text(decimal(target as int)),
                JsArg::Text(name_text(name)),
                JsArg::Text(name_text(json)),
            ],
        ),
        ends_in_text(start_call_named(Some(r), target, name, json), world, 5),
        asks_bridge(
            start_new(Some(r), name, json),
            world,
            "construct"@,
            seq![JsArg::Text(name_text(name)), JsArg::Text(name_text(json))],
        ),
        ends_in_text(start_new(Some(r), name, json), world, 4),
        asks_bridge(
            start_iterate(Some(r), target),
            world,
            "iterate"@,
            seq![JsArg::Text(decimal(target as int))],
        ),
        ends_in_text(start_iterate(Some(r), target), world, 3),
{
    let blank = crate::calls::blank();
    let one = start_get(Some(r), target, name).task.call;
    assert(one.args =~= seq![JsArg::Text(decimal(target as int)), JsArg::Text(name_text(name))]);
    lemma_ends(Some(r), blank, one, After::Text, world);
    let two = start_set(Some(r), target, name, json).task.call;
    assert(two.args =~= seq![
        JsArg::Text(decimal(target as int)),
        JsArg::Text(name_text(name)),
        JsArg::Text(name_text(json)),
    ]);
    lemma_ends(Some(r), blank, two, After::Text, world);
    let three = start_call_named(Some(r), target, name, json).task.call;
    assert(three.args =~= two.args);
    lemma_ends(Some(r), blank, three, After::Text, world);
    let four = start_new(Some(r), name, json).task.call;
    assert(four.args =~= seq![JsArg::Text(name_text(name)), JsArg::Text(name_text(json))]);
    lemma_ends(Some(r), blank, four, After::Text, world);
    let five = start_iterate(Some(r), target).task.call;
    assert(five.args =~= seq![JsArg::Text(decimal(target as int))]);
    lemma_ends(Some(r), blank, five, After::Text, world);
}

/// A global object is asked for by its name and replied by its handle; an instance
/// test passes the object and then the constructor, and replies in 32 bits; and
/// letting go of a handle tells the bridge which, once nothing is kept for it.
pub proof fn law_calls_for_handles(
    r: RunnerView,
    name: Seq<u8>,
    target: i64,
    ctor: i64,
    role: Role,
    world: World,
)
    requires
        willing(world, 4),
    ensures
        asks_bridge(
            start_global(Some(r), name),
            world,
            "global"@,
            seq![JsArg::Text(name_text(name))],
        ),
        ends_in_integer(start_global(Some(r), name), world, 3),
        asks_bridge(
            start_instanceof(Some(r), target, ctor),
            world,
            "instanceOf"@,
            seq![JsArg::Text(decimal(target as int)), JsArg::Text(decimal(ctor as int))],
        ),
        ends_in_narrow(start_instanceof(Some(r), target, ctor), world, 4),
        asks_bridge(
            start_release(Some(r), target),
            world,
            "release"@,
            seq![JsArg::Text(decimal(target as int))],
        ),
        ends_in_text(start_release(Some(r), target), world, 3),
        native_of(start_release(Some(r), target).host, target, role) == 0,
{
    let blank = crate::calls::blank();
    let one = start_global(Some(r), name).task.call;
    assert(one.args =~= seq![JsArg::Text(name_text(name))]);
    lemma_ends(Some(r), blank, one, After::Integer, world);
    let two = start_instanceof(Some(r), target, ctor).task.call;
    assert(two.args =~= seq![
        JsArg::Text(decimal(target as int)),
        JsArg::Text(decimal(ctor as int)),
    ]);
    lemma_ends(Some(r), blank, two, After::Narrow, world);
    let three = start_release(Some(r), target).task.call;
    assert(three.args =~= seq![JsArg::Text(decimal(target as int))]);
    lemma_ends(start_release(Some(r), target).host, blank, three, After::Text, world);
}

/// A scalar as the value that the bridge is passed.
pub open spec fn scalar_crosses(scalar: Scalar<Seq<u8>>, value: JsArg<Seq<char>>) -> bool {
    match value {
        JsArg::Number(bits) => scalar.is_num != 0 && bits == scalar.num,
        JsArg::Text(text) => scalar.is_num == 0 && text == name_text(scalar.bytes),
        _ => false,
    }
}

/// The values that follow the first few, in order, are what the scalars cross as.
pub open spec fn scalars_follow(
    values: Seq<JsArg<Seq<char>>>,
    first: nat,
    args: Seq<Scalar<Seq<u8>>>,
) -> bool {
    &&& values.len() == first + args.len()
    &&& forall|i: int|
        0 <= i < args.len() ==> scalar_crosses(#[trigger] args[i], values[first + i])
}

/// Calls by id pass the target and the id as numbers, and the arguments as numbers
/// and strings, each to the bridge method of that name; they reply with the string
/// that it returns, with the text of the number, or with an empty text.
pub proof fn law_calls_by_id(
    r: RunnerView,
    target: i64,
    id: u32,
    text: Seq<u8>,
    args: Seq<Scalar<Seq<u8>>>,
    world: World,
)
    requires
        args.len() + 2 <= usize::MAX,
        willing(world, args.len() + 5),
    ensures
        ({
            let handle = JsArg::<Seq<char>>::Number(as_double(target as int));
            let number = JsArg::<Seq<char>>::Number(as_double(id as int));
            let called = start_call_scalars(Some(r), target, id, args).task.call.args;
            let made = start_new_scalars(Some(r), id, args).task.call.args;
            &&& asks_bridge(
                start_get_id(Some(r), target, id),
                world,
                "getId"@,
                seq![handle, number],
            )
            &&& ends_in_scalar(start_get_id(Some(r), target, id), world, 4)
            &&& asks_bridge(
                start_call_str(Some(r), target, id, text),
                world,
                "callStr"@,
                seq![handle, number, JsArg::Text(name_text(text))],
            )
            &&& ends_in_scalar(start_call_str(Some(r), target, id, text), world, 5)
            &&& called[0] == handle
            &&& called[1] == number
            &&& scalars_follow(called, 2, args)
            &&& asks_bridge(
                start_call_scalars(Some(r), target, id, args),
                world,
                "callScalars"@,
                called,
            )
            &&& ends_in_scalar(
                start_call_scalars(Some(r), target, id, args),
                world,
                args.len() + 4,
            )
            &&& made[0] == number
            &&& scalars_follow(made, 1, args)
            &&& asks_bridge(start_new_scalars(Some(r), id, args), world, "newScalars"@, made)
            &&& ends_in_scalar(start_new_scalars(Some(r), id, args), world, args.len() + 3)
        }),
{
    let blank = crate::calls::blank();
    lemma_ends(Some(r), blank, start_get_id(Some(r), target, id).task.call, After::Scalar, world);
    lemma_ends(
        Some(r),
        blank,
        start_call_str(Some(r), target, id, text).task.call,
        After::Scalar,
        world,
    );
    let called = start_call_scalars(Some(r), target, id, args).task.call;
    lemma_ends(Some(r), blank, called, After::Scalar, world);
    let made = start_new_scalars(Some(r), id, args).task.call;
    lemma_ends(Some(r), blank, made, After::Scalar, world);
    assert forall|i: int| 0 <= i < args.len() implies scalar_crosses(
        #[trigger] args[i],
        called.args[2 + i],
    ) && scalar_crosses(args[i], made.args[1 + i]) by {}
}

/// Interning passes the name to the bridge, reads what comes back as a number, by
/// way of its text, and replies with it; the name is then known under that id as
/// what it is classified as, and no other id changes. What does not read as a
/// number is replied as the largest id, and nothing is kept.
pub proof fn law_interning(
    r: RunnerView,
    name: Seq<u8>,
    world: World,
    value: JsValue<Seq<char>>,
    written: Seq<char>,
    parsed: Option<u64>,
    other: u32,
)
    requires
        willing(world, 3),
        world(4).0 is Some,
        world(5).0 is Some,
        world(3).1 == Event::Returned(true, value),
        value is Number ==> world(4).1 == Event::Formatted(written) && world(5).1
            == Event::<Seq<char>>::Parsed(parsed),
        value !is Number ==> world(4).1 == Event::<Seq<char>>::Parsed(parsed),
    ensures
        ({
            let start = start_intern(Some(r), name_text(name));
            let n: nat = if value is Number {
                5
            } else {
                4
            };
            let reading = turn_after(start, world, n);
            let end = turn_after(start, world, n + 1);
            let before = world(n).0;
            let id = match parsed {
                Some(bits) => as_u32(bits),
                None => u32::MAX,
            };
            &&& asks_bridge(start, world, "intern"@, seq![JsArg::Text(name_text(name))])
            &&& (value matches JsValue::Number(bits) ==> turn_after(start, world, 4).action
                == Action::FormatNumber(bits))
            &&& reading.action == Action::ParseNumber
            &&& reading.task.text == match value {
                JsValue::Number(_) => written,
                JsValue::Text(text) => text,
                _ => Seq::empty(),
            }
            &&& end.action == Action::Finish(Outcome::Id(id))
            &&& id != u32::MAX ==> hot_of(end.host, id) == classify(name_text(name))
            &&& other != id ==> hot_of(end.host, other) == hot_of(before, other)
            &&& id == u32::MAX ==> end.host == before
        }),
{
    let start = start_intern(Some(r), name_text(name));
    let call = start.task.call;
    assert(call.args =~= seq![JsArg::Text(name_text(name))]);
    let t = TaskView { name: name_text(name), ..crate::calls::blank() };
    let last = TaskView { stage: Stage::Bridge(Pos::Invoke, After::Intern), call, ..t };
    lemma_call_runs(Some(r), t, call, After::Intern, world);
    lemma_last_step(start, world, 3, last);
    lemma_last_step(start, world, 4, step(world(3).0, last, world(3).1).task);
    lemma_interns(last, world, value, written, parsed, other);
}

proof fn lemma_interns(
    last: TaskView,
    world: World,
    value: JsValue<Seq<char>>,
    written: Seq<char>,
    parsed: Option<u64>,
    other: u32,
)
    requires
        last.stage == Stage::Bridge(Pos::Invoke, After::Intern),
        world(4).0 is Some,
        world(5).0 is Some,
        world(3).1 == Event::Returned(true, value),
        value is Number ==> world(4).1 == Event::Formatted(written) && world(5).1
            == Event::<Seq<char>>::Parsed(parsed),
        value !is Number ==> world(4).1 == Event::<Seq<char>>::Parsed(parsed),
    ensures
        ({
            let four = step(world(3).0, last, world(3).1);
            let five = step(world(4).0, four.task, world(4).1);
            let six = step(world(5).0, five.task, world(5).1);
            let id = match parsed {
                Some(bits) => as_u32(bits),
                None => u32::MAX,
            };
            let reading = if value is Number {
                five
            } else {
                four
            };
            let end = if value is Number {
                six
            } else {
                five
            };
            let before = if value is Number {
                world(5).0
            } else {
                world(4).0
            };
            &&& (value matches JsValue::Number(bits) ==> four.action == Action::FormatNumber(bits))
            &&& reading.action == Action::ParseNumber
            &&& reading.task.text == match value {
                JsValue::Number(_) => written,
                JsValue::Text(text) => text,
                _ => Seq::empty(),
            }
            &&& end.action == Action::Finish(Outcome::Id(id))
            &&& id != u32::MAX ==> hot_of(end.host, id) == classify(last.name)
            &&& other != id ==> hot_of(end.host, other) == hot_of(before, other)
            &&& id == u32::MAX ==> end.host == before
        }),
{
    lemma_intern_returned(world(3).0, last, value);
    let four = step(world(3).0, last, world(3).1);
    lemma_intern_formatted(world(4).0, four.task, written);
    lemma_intern_parsed(world(4).0, four.task, parsed, other);
    let five = step(world(4).0, four.task, world(4).1);
    lemma_intern_parsed(world(5).0, five.task, parsed, other);
}

proof fn lemma_intern_returned(
    host: Option<RunnerView>,
    last: TaskView,
    value: JsValue<Seq<char>>,
)
    requires
        last.stage == Stage::Bridge(Pos::Invoke, After::Intern),
    ensures
        step(host, last, Event::Returned(true, value)) == (match value {
            JsValue::Number(bits) => Turn {
                host,
                task: TaskView { stage: Stage::FormatId, ..last },
                action: Action::FormatNumber(bits),
            },
            JsValue::Text(text) => Turn {
                host,
                task: TaskView { stage: Stage::ParseId, text, ..last },
                action: Action::ParseNumber,
            },
            _ => Turn {
                host,
                task: TaskView { stage: Stage::ParseId, text: Seq::empty(), ..last },
                action: Action::ParseNumber,
            },
        }),
{
    reveal(settle);
}

proof fn lemma_intern_formatted(host: Option<RunnerView>, t: TaskView, written: Seq<char>)
    ensures
        t.stage == Stage::FormatId ==> step(host, t, Event::Formatted(written)) == (Turn {
            host,
            task: TaskView { stage: Stage::ParseId, text: written, ..t },
            action: Action::ParseNumber,
        }),
{
}

proof fn lemma_intern_parsed(
    host: Option<RunnerView>,
    t: TaskView,
    parsed: Option<u64>,
    other: u32,
)
    requires
        host is Some,
    ensures
        t.stage == Stage::ParseId ==> ({
            let end = step(host, t, Event::Parsed(parsed));
            let id = match parsed {
                Some(bits) => as_u32(bits),
                None => u32::MAX,
            };
            &&& end.action == Action::Finish(Outcome::Id(id))
            &&& id != u32::MAX ==> hot_of(end.host, id) == classify(t.name)
            &&& other != id ==> hot_of(end.host, other) == hot_of(host, other)
            &&& id == u32::MAX ==> end.host == host
        }),
{
}

/// Whether an event keeps a call of a bridge method from reaching the method.
pub open spec fn breaks(pos: Pos, event: Event<Seq<char>>) -> bool {
    match pos {
        Pos::Context => event != Event::<Seq<char>>::Flag(true),
        Pos::Fetch => event != Event::<Seq<char>>::Fetched(true, true),
        Pos::Push(_) => event != Event::<Seq<char>>::Flag(true),
        Pos::Invoke => false,
    }
}

/// Where there is no context, no bridge or no memory for a value, the call is over
/// at once: with an empty text, with -1, with the largest id, or with the typed
/// reply as it was.
pub proof fn law_broken_calls_reply_nothing(
    r: RunnerView,
    t: TaskView,
    pos: Pos,
    after: After,
    event: Event<Seq<char>>,
)
    requires
        t.stage == Stage::Bridge(pos, after),
        breaks(pos, event),
    ensures
        ({
            let end = step(Some(r), t, event);
            let empty = Some(RunnerView { scratch: Seq::empty(), ..r });
            &&& after == After::Text || after == After::Scalar ==> end.action == Action::Finish(
                Outcome::Scratch,
            ) && end.host == empty
            &&& after == After::Integer ==> end.action == Action::Finish(
                Outcome::Integer((-1) as i64),
            ) && end.host == Some(r)
            &&& after == After::Narrow ==> end.action == Action::Finish(
                Outcome::Narrow((-1) as i32),
            ) && end.host == Some(r)
            &&& after == After::Intern ==> end.action == Action::Finish(Outcome::Id(u32::MAX))
                && end.host == Some(r)
            &&& after == After::Wide ==> end.action == Action::Finish(
                Outcome::Reply(Reply::Untouched),
            ) && end.host == Some(r)
            &&& after == After::Draw ==> end.action == Action::Finish(
                Outcome::Reply(Reply::Untouched),
            ) && end.host == empty
        }),
{
    reveal(settle);
    reveal(settle_wide);
}

// ---- typed replies ---------------------------------------------------------

/// Whether a turn ends a host call with a typed reply of a tag, that carries no
/// number and no text, and leaves the host as it was.
pub open spec fn replies_plainly(turn: Turn, host: Option<RunnerView>, tag: i32) -> bool {
    turn.host == host && (turn.action matches Action::Finish(Outcome::Reply(reply))
        && reply.tagged() == Some(tag) && reply.numbered() is None)
}

/// Whether a turn ends a host call with a typed reply of a tag and a number, and
/// leaves the host as it was.
pub open spec fn replies_number(turn: Turn, host: Option<RunnerView>, tag: i32, bits: u64) -> bool {
    turn.host == host && (turn.action matches Action::Finish(Outcome::Reply(reply))
        && reply.tagged() == Some(tag) && reply.numbered() == Some(bits))
}

/// Whether a turn ends a host call with a typed reply of a tag and a text, in the
/// UTF-16 that the runner holds, and changes nothing else of the runner.
pub open spec fn replies_text(turn: Turn, r: RunnerView, tag: i32, text: Seq<char>) -> bool {
    &&& turn.action matches Action::Finish(Outcome::Reply(reply)) && reply.tagged() == Some(tag)
    &&& turn.host is Some
    &&& decode16(turn.host->0.reply16) == text
    &&& turn.host == Some(RunnerView { reply16: turn.host->0.reply16, ..r })
}

/// The double 1 as its pattern.
pub const ONE: u64 = 0x3ff0_0000_0000_0000;

proof fn lemma_one()
    ensures
        as_double(1) == ONE,
        as_double(0) == 0,
{
    lemma2_to64();
    lemma2_to64_rest();
    assert(crate::number::top_bit(1) == 0);
    assert(crate::number::significand(1) == 0x10_0000_0000_0000);
}

/// What a wide method returns is replied under the tag of its type: 0 for nothing,
/// 1 for a number, 2 for a string, 3 for the handle of an object, 4 for a truth
/// value, as 1 or 0, 5 where it threw, and 7 for JSON. An object is asked first for
/// its `r` and then for its `j`.
pub proof fn law_wide_reply_is_typed(
    r: RunnerView,
    t: TaskView,
    event: Event<Seq<char>>,
    later: RunnerView,
    second: Event<Seq<char>>,
    last: RunnerView,
    third: Event<Seq<char>>,
)
    requires
        t.stage == Stage::Bridge(Pos::Invoke, After::Wide),
    ensures
        ({
            let host = Some(r);
            let end = step(host, t, event);
            match event {
                Event::Returned(true, JsValue::Null) => replies_plainly(end, host, 0),
                Event::Returned(true, JsValue::Undefined) => replies_plainly(end, host, 0),
                Event::Returned(true, JsValue::Other) => replies_plainly(end, host, 0),
                Event::Returned(true, JsValue::Bool(b)) => replies_number(
                    end,
                    host,
                    4,
                    if b {
                        ONE
                    } else {
                        0
                    },
                ),
                Event::Returned(true, JsValue::Number(bits)) => replies_number(end, host, 1, bits),
                Event::Returned(true, JsValue::Text(text)) => replies_text(end, r, 2, text),
                Event::Returned(true, JsValue::Object) => {
                    let next = step(Some(later), end.task, second);
                    &&& end.host == host
                    &&& end.action matches Action::ReadField(field) && field_text(field) == "r"@
                    &&& match second {
                        Event::Returned(true, JsValue::Number(bits)) => replies_number(
                            next,
                            Some(later),
                            3,
                            bits,
                        ),
                        _ => {
                            let done = step(Some(last), next.task, third);
                            &&& next.host == Some(later)
                            &&& next.action matches Action::ReadField(field) && field_text(field)
                                == "j"@
                            &&& match third {
                                Event::Returned(true, JsValue::Text(text)) => replies_text(
                                    done,
                                    last,
                                    7,
                                    text,
                                ),
                                _ => replies_plainly(done, Some(last), 0),
                            }
                        },
                    }
                },
                _ => replies_plainly(end, host, 5),
            }
        }),
{
    reveal(settle);
    reveal(settle_wide);
    lemma_one();
    match event {
        Event::Returned(true, JsValue::Text(text)) => {
            law_utf16_round_trip(text);
        },
        _ => {},
    }
    match third {
        Event::Returned(true, JsValue::Text(text)) => {
            law_utf16_round_trip(text);
        },
        _ => {},
    }
}

/// The replies differ in their tags, texts come under the tags 2 and 7 alone, and
/// only a reply that stays as it was has none.
pub proof fn law_tags_tell_replies_apart(a: Reply, b: Reply)
    ensures
        a.tagged() is None <==> a == Reply::Untouched,
        a.tagged() == b.tagged() && a.numbered() == b.numbered() && !(a is Bool) && !(b is Bool)
            ==> a == b,
        (a is Text || a is Json) <==> a.tagged() == Some(2i32) || a.tagged() == Some(7i32),
{
}

// ---- the reflective bridge -------------------------------------------------

/// Whether a value is what a wide argument crosses as: a string as its text, a truth
/// value as itself, null as null, and everything else as its number.
pub open spec fn wide_crosses(arg: Arg16<Seq<u16>>, value: JsArg<Seq<char>>) -> bool {
    match value {
        JsArg::Text(text) => arg.kind == 0 && text == decode16(arg.str16),
        JsArg::Bool(b) => arg.kind == 3 && b == (arg.num != 0 && arg.num != 0x8000_0000_0000_0000),
        JsArg::Null => arg.kind == 4,
        JsArg::Number(bits) => arg.kind != 0 && arg.kind != 3 && arg.kind != 4 && bits == arg.num,
        JsArg::Object => false,
    }
}

/// Whether a value is a number that reads as a mask with a bit set exactly where one
/// of the first 32 arguments is of a kind.
pub open spec fn masks(value: JsArg<Seq<char>>, args: Seq<Arg16<Seq<u16>>>, kind: i32) -> bool {
    value matches JsArg::Number(bits) && forall|i: u32|
        i < 32 ==> (#[trigger] marked(as_u32(bits), i) <==> i < args.len() && args[i as int].kind
            == kind)
}

/// Whether a value is a number that reads as an id.
pub open spec fn names_id(value: JsArg<Seq<char>>, id: u32) -> bool {
    value matches JsArg::Number(bits) && as_u32(bits) == id
}

/// Whether a value is the number of a handle, and reads as that handle where it is
/// at most 2^53 away from zero.
pub open spec fn names_handle(value: JsArg<Seq<char>>, handle: i64) -> bool {
    value matches JsArg::Number(bits) && bits == as_double(handle as int) && (
    -0x20_0000_0000_0000 <= handle <= 0x20_0000_0000_0000 ==> as_i64(bits) == handle)
}

proof fn lemma_reads_as(v: i64)
    ensures
        -0x20_0000_0000_0000 <= v <= 0x20_0000_0000_0000 ==> as_i64(as_double(v as int)) == v,
        0 <= v <= u32::MAX ==> as_u32(as_double(v as int)) == v,
{
    lemma_nearest_fits(v as int);
    if -0x20_0000_0000_0000 <= v <= 0x20_0000_0000_0000 {
        law_integers_round_trip(v as int, as_double(v as int));
    }
}

proof fn lemma_masks(args: Seq<Arg16<Seq<u16>>>, kind: i32)
    ensures
        masks(JsArg::Number(as_double(kind_mask(args, kind) as int)), args, kind),
{
    let mask = kind_mask(args, kind);
    lemma_reads_as(mask as i64);
    assert forall|i: u32| i < 32 implies (#[trigger] marked(mask, i) <==> i < args.len()
        && args[i as int].kind == kind) by {
        law_mask_marks_kind(args, kind, i);
    }
}

/// What the bridge is passed for a use of a member: for a read the target and the
/// id, and nothing more; for a write or a call the target, the id, the mask of the
/// arguments that are handles, the mask of those that are callbacks, and as many
/// arguments as were given, in order; and for a constructor the same without a
/// target. The method is the wide one for the use.
pub proof fn law_bridge_is_passed_the_use(m: MemberView)
    ensures
        ({
            let call = reflective(m);
            let v = call.args;
            let name = method_text(call.method);
            match m.access {
                Access::Read => {
                    &&& name == "getWide"@
                    &&& v.len() == 2
                    &&& names_handle(v[0], m.target)
                    &&& names_id(v[1], m.id)
                },
                Access::Construct => {
                    &&& name == "newWide"@
                    &&& v.len() == 3 + m.args.len()
                    &&& names_id(v[0], m.id)
                    &&& masks(v[1], m.args, 2)
                    &&& masks(v[2], m.args, 5)
                    &&& forall|i: int|
                        0 <= i < m.args.len() ==> wide_crosses(#[trigger] m.args[i], v[3 + i])
                },
                _ => {
                    &&& name == (if m.access == Access::Write {
                        "setWide"@
                    } else {
                        "callWide"@
                    })
                    &&& v.len() == 4 + m.args.len()
                    &&& names_handle(v[0], m.target)
                    &&& names_id(v[1], m.id)
                    &&& masks(v[2], m.args, 2)
                    &&& masks(v[3], m.args, 5)
                    &&& forall|i: int|
                        0 <= i < m.args.len() ==> wide_crosses(#[trigger] m.args[i], v[4 + i])
                },
            }
        }),
{
    lemma_reads_as(m.target);
    lemma_reads_as(m.id as i64);
    lemma_masks(m.args, KIND_REF);
    lemma_masks(m.args, KIND_CALLBACK);
    let v = reflective(m).args;
    assert forall|i: int| 0 <= i < m.args.len() && m.access == Access::Construct implies wide_crosses(
        #[trigger] m.args[i],
        v[3 + i],
    ) by {}
    assert forall|i: int|
        0 <= i < m.args.len() && (m.access == Access::Write || m.access == Access::Invoke) implies wide_crosses(
        #[trigger] m.args[i],
        v[4 + i],
    ) by {}
}

/// A handle is asked for in the page by its number, and an object that was created
/// is registered as itself.
pub proof fn law_handles_and_objects_cross(handle: i64)
    ensures
        method_text(handle_call(handle).method) == "handleObj"@,
        handle_call(handle).args.len() == 1,
        names_handle(handle_call(handle).args[0], handle),
        method_text(register_call().method) == "register"@,
        register_call().args == seq![JsArg::<Seq<char>>::Object],
{
    lemma_reads_as(handle);
}

/// The wide hooks are uses of a member as they say: a read, a write, a call and a
/// construction, of the target and the id that they were given, with the arguments
/// that they were given, a read with none, and a construction of no target. Where
/// the id is not one of a hot member, the bridge is called for it at once.
pub proof fn law_wide_hooks_use_the_member(
    r: RunnerView,
    target: i64,
    id: u32,
    args: Seq<Arg16<Seq<u16>>>,
)
    ensures
        ({
            let read = start_get_u16(Some(r), target, id);
            let write = start_set_u16(Some(r), target, id, args);
            let invoke = start_call_u16(Some(r), target, id, args);
            let construct = start_new_u16(Some(r), id, args);
            &&& read.task.member.access == Access::Read && read.task.member.target == target
                && read.task.member.args.len() == 0
            &&& write.task.member.access == Access::Write && write.task.member.target == target
                && write.task.member.args == args
            &&& invoke.task.member.access == Access::Invoke && invoke.task.member.target == target
                && invoke.task.member.args == args
            &&& construct.task.member.access == Access::Construct && construct.task.member.args
                == args
            &&& read.task.member.id == id && write.task.member.id == id && invoke.task.member.id
                == id && construct.task.member.id == id
            &&& read.task.member.hot == hot_of(Some(r), id) && write.task.member.hot == hot_of(
                Some(r),
                id,
            ) && invoke.task.member.hot == hot_of(Some(r), id) && construct.task.member.hot
                == hot_of(Some(r), id)
            &&& hot_of(Some(r), id) == Hot::Cold ==> {
                &&& handed_over(read.task.member, read)
                &&& handed_over(write.task.member, write)
                &&& handed_over(invoke.task.member, invoke)
                &&& handed_over(construct.task.member, construct)
            }
        }),
{
}

// ---- members by their names ------------------------------------------------

/// The text that the engine handed over as an argument; empty where there is none.
pub open spec fn text_given(args: Seq<Arg16<Seq<u16>>>, i: int) -> Seq<char> {
    if i < args.len() {
        decode16(args[i].str16)
    } else {
        Seq::empty()
    }
}

/// Whether a name is made of one to nine of the characters 0 to 9.
pub open spec fn digits_only(name: Seq<char>) -> bool {
    1 <= name.len() <= 9 && forall|i: int|
        0 <= i < name.len() ==> 48 <= (#[trigger] name[i]) as u32 <= 57
}

/// The document operations by the names of the members, as the page knows them.
pub open spec fn operation_named(
    access: Access,
    name: Seq<char>,
    args: Seq<Arg16<Seq<u16>>>,
) -> Option<Operation<Seq<char>>> {
    let a = text_given(args, 0);
    let b = text_given(args, 1);
    match access {
        Access::Construct => if name == "URL"@ {
            Some(Operation::NewUrl(a))
        } else if name == "Event"@ {
            Some(Operation::NewEvent(a))
        } else {
            None
        },
        Access::Write => if name == "textContent"@ {
            Some(Operation::SetTextContent(a))
        } else if name == "className"@ {
            Some(Operation::SetClassName(a))
        } else {
            None
        },
        Access::Read => if name == "pathname"@ {
            Some(Operation::Pathname)
        } else if name == "search"@ {
            Some(Operation::Search)
        } else if name == "textContent"@ {
            Some(Operation::TextContent)
        } else if name == "classList"@ {
            Some(Operation::ClassList)
        } else if name == "style"@ {
            Some(Operation::Style)
        } else if name == "length"@ {
            Some(Operation::Length)
        } else if digits_only(name) {
            Some(Operation::Item(digits_value(name) as u32))
        } else {
            None
        },
        Access::Invoke => if name == "createElement"@ {
            Some(Operation::CreateElement(a))
        } else if name == "appendChild"@ {
            Some(Operation::AppendChild)
        } else if name == "dispatchEvent"@ {
            Some(Operation::DispatchEvent)
        } else if name == "contains"@ {
            Some(Operation::Contains(a))
        } else if name == "setProperty"@ {
            Some(Operation::SetProperty(a, b))
        } else if name == "getPropertyValue"@ {
            Some(Operation::GetPropertyValue(a))
        } else if name == "querySelectorAll"@ {
            Some(Operation::QuerySelectorAll(a))
        } else if name == "getRandomValues"@ {
            Some(Operation::GetRandomValues)
        } else if name == "encode"@ {
            Some(Operation::Encode(a))
        } else if name == "decode"@ {
            Some(Operation::Decode)
        } else if name == "getItem"@ {
            Some(Operation::GetItem(a))
        } else if name == "setItem"@ {
            Some(Operation::SetItem(a, b))
        } else if name == "removeItem"@ {
            Some(Operation::RemoveItem(a))
        } else {
            None
        },
    }
}

proof fn lemma_named(name: Seq<char>)
    ensures
        name == "URL"@ <==> classify(name) == Hot::CtorUrl,
        name == "pathname"@ <==> classify(name) == Hot::Pathname,
        name == "search"@ <==> classify(name) == Hot::Search,
        name == "createElement"@ <==> classify(name) == Hot::CreateElement,
        name == "appendChild"@ <==> classify(name) == Hot::AppendChild,
        name == "textContent"@ <==> classify(name) == Hot::TextContent,
        name == "Event"@ <==> classify(name) == Hot::CtorEvent,
        name == "dispatchEvent"@ <==> classify(name) == Hot::DispatchEvent,
        name == "className"@ <==> classify(name) == Hot::ClassName,
        name == "classList"@ <==> classify(name) == Hot::ClassList,
        name == "contains"@ <==> classify(name) == Hot::Contains,
        name == "style"@ <==> classify(name) == Hot::Style,
        name == "setProperty"@ <==> classify(name) == Hot::SetProperty,
        name == "getPropertyValue"@ <==> classify(name) == Hot::GetPropertyValue,
        name == "querySelectorAll"@ <==> classify(name) == Hot::QuerySelectorAll,
        name == "length"@ <==> classify(name) == Hot::Length,
        name == "getRandomValues"@ <==> classify(name) == Hot::GetRandomValues,
        name == "encode"@ <==> classify(name) == Hot::Encode,
        name == "decode"@ <==> classify(name) == Hot::Decode,
        name == "getItem"@ <==> classify(name) == Hot::GetItem,
        name == "setItem"@ <==> classify(name) == Hot::SetItem,
        name == "removeItem"@ <==> classify(name) == Hot::RemoveItem,
        digits_only(name) <==> classify(name) is Index,
        digits_only(name) ==> classify(name) == Hot::Index(digits_value(name) as u32),
{
    law_one_name_per_member(name, Hot::CtorUrl);
    law_one_name_per_member(name, Hot::Pathname);
    law_one_name_per_member(name, Hot::Search);
    law_one_name_per_member(name, Hot::CreateElement);
    law_one_name_per_member(name, Hot::AppendChild);
    law_one_name_per_member(name, Hot::TextContent);
    law_one_name_per_member(name, Hot::CtorEvent);
    law_one_name_per_member(name, Hot::DispatchEvent);
    law_one_name_per_member(name, Hot::ClassName);
    law_one_name_per_member(name, Hot::ClassList);
    law_one_name_per_member(name, Hot::Contains);
    law_one_name_per_member(name, Hot::Style);
    law_one_name_per_member(name, Hot::SetProperty);
    law_one_name_per_member(name, Hot::GetPropertyValue);
    law_one_name_per_member(name, Hot::QuerySelectorAll);
    law_one_name_per_member(name, Hot::Length);
    law_one_name_per_member(name, Hot::GetRandomValues);
    law_one_name_per_member(name, Hot::Encode);
    law_one_name_per_member(name, Hot::Decode);
    law_one_name_per_member(name, Hot::GetItem);
    law_one_name_per_member(name, Hot::SetItem);
    law_one_name_per_member(name, Hot::RemoveItem);
    law_digits_are_an_index(name);
    law_index_is_made_of_digits(name);
}

/// The document is asked for what a member's own name says: once a name was
/// interned, a use of its id stands for the operation of that name, with the
/// arguments' texts in their order, and for none where no operation bears the name.
pub proof fn law_members_do_what_their_names_say(
    r: RunnerView,
    name: Seq<char>,
    id: u32,
    access: Access,
    target: i64,
    args: Seq<Arg16<Seq<u16>>>,
)
    requires
        id != u32::MAX,
    ensures
        operation(member_use(interned(Some(r), name, id), access, target, id, args))
            == operation_named(access, name, args),
{
    lemma_named(name);
}

/// The interface that an operation belongs to, as the role of its receiver; an
/// operation that makes a new object has none.
pub open spec fn interface(op: Operation<Seq<char>>) -> Option<Role> {
    match op {
        Operation::NewUrl(_) => None,
        Operation::NewEvent(_) => None,
        Operation::Pathname => Some(Role::Url),
        Operation::Search => Some(Role::Url),
        Operation::TextContent => Some(Role::Node),
        Operation::SetTextContent(_) => Some(Role::Node),
        Operation::AppendChild => Some(Role::Node),
        Operation::ClassList => Some(Role::Element),
        Operation::SetClassName(_) => Some(Role::Element),
        Operation::Style => Some(Role::Html),
        Operation::Length => Some(Role::NodeList),
        Operation::Item(_) => Some(Role::NodeList),
        Operation::CreateElement(_) => Some(Role::Document),
        Operation::QuerySelectorAll(_) => Some(Role::Document),
        Operation::DispatchEvent => Some(Role::Target),
        Operation::Contains(_) => Some(Role::TokenList),
        Operation::SetProperty(_, _) => Some(Role::Style),
        Operation::GetPropertyValue(_) => Some(Role::Style),
        Operation::GetRandomValues => Some(Role::Crypto),
        Operation::Encode(_) => Some(Role::Encoder),
        Operation::Decode => Some(Role::Decoder),
        Operation::GetItem(_) => Some(Role::Storage),
        Operation::SetItem(_, _) => Some(Role::Storage),
        Operation::RemoveItem(_) => Some(Role::Storage),
    }
}

/// The kinds of the arguments that an operation takes: 0 for a string, 2 for a
/// handle.
pub open spec fn takes(op: Operation<Seq<char>>) -> Seq<i32> {
    match op {
        Operation::Pathname => seq![],
        Operation::Search => seq![],
        Operation::TextContent => seq![],
        Operation::ClassList => seq![],
        Operation::Style => seq![],
        Operation::Length => seq![],
        Operation::Item(_) => seq![],
        Operation::AppendChild => seq![2i32],
        Operation::DispatchEvent => seq![2i32],
        Operation::GetRandomValues => seq![2i32],
        Operation::Decode => seq![2i32],
        Operation::SetProperty(_, _) => seq![0i32, 0i32],
        Operation::SetItem(_, _) => seq![0i32, 0i32],
        _ => seq![0i32],
    }
}

/// Whether the page reads further arguments than an operation takes.
pub open spec fn page_reads_more(op: Operation<Seq<char>>) -> bool {
    match op {
        Operation::NewUrl(_) => true,
        Operation::NewEvent(_) => true,
        Operation::CreateElement(_) => true,
        Operation::SetProperty(_, _) => true,
        Operation::Decode => true,
        _ => false,
    }
}

/// Whether an operation changes or makes something out of its first argument and
/// gives that argument back.
pub open spec fn gives_back(op: Operation<Seq<char>>) -> bool {
    op is AppendChild || op is GetRandomValues
}

/// What an operation takes, it gets: its receiver in the role of its interface; for
/// a child to append a node and for an event to dispatch an event, both behind the
/// first argument's handle, and for a buffer the object there; and a use is served
/// directly if and only if its first arguments are of the kinds that its operation
/// takes, and no further one is there that the page would read.
pub proof fn law_operations_get_what_they_take(m: MemberView, op: Operation<Seq<char>>)
    requires
        operation(m) == Some(op),
    ensures
        receiver_role(m.hot) == interface(op),
        operand_of(m.hot) == (if op is AppendChild {
            Operand::Native(Role::Node)
        } else if op is DispatchEvent {
            Operand::Native(Role::Event)
        } else if op is GetRandomValues || op is Decode {
            Operand::Object
        } else {
            Operand::Absent
        }),
        m.args.len() > 0 ==> operand_handle(m.args) == as_i64(m.args[0].num),
        served_directly(m) <==> {
            &&& m.args.len() >= takes(op).len()
            &&& forall|i: int|
                0 <= i < takes(op).len() ==> (#[trigger] m.args[i]).kind == takes(op)[i]
            &&& page_reads_more(op) ==> m.args.len() == takes(op).len()
        },
{
    let fits = {
        &&& m.args.len() >= takes(op).len()
        &&& forall|i: int| 0 <= i < takes(op).len() ==> (#[trigger] m.args[i]).kind == takes(op)[i]
        &&& page_reads_more(op) ==> m.args.len() == takes(op).len()
    };
    if fits {
        if takes(op).len() > 0 {
            assert(m.args[0].kind == takes(op)[0]);
        }
        if takes(op).len() > 1 {
            assert(m.args[1].kind == takes(op)[1]);
        }
    }
}

/// What a document operation comes to is replied under the tag of its type: a text
/// under 2, a truth value under 4, as 1 or 0, a count under 1, and nothing under 0,
/// but for an operation that gives its first argument back, which is replied under 3
/// by the number it was given as. Where it did not go through, the bridge gets the
/// use; and what it created is registered with the page.
pub proof fn law_operations_reply_their_results(
    r: RunnerView,
    t: TaskView,
    op: Operation<Seq<char>>,
    result: DomResult<Seq<char>>,
)
    requires
        t.stage == Stage::Operate,
        operation(t.member) == Some(op),
        served_directly(t.member),
    ensures
        ({
            let host = Some(r);
            let end = step(host, t, Event::Done(result));
            match result {
                DomResult::Text(text) => replies_text(end, r, 2, text),
                DomResult::Flag(b) => replies_number(
                    end,
                    host,
                    4,
                    if b {
                        ONE
                    } else {
                        0
                    },
                ),
                DomResult::Count(n) => replies_number(end, host, 1, as_double(n as int)) && as_u32(
                    as_double(n as int),
                ) == n,
                DomResult::Done => if gives_back(op) {
                    replies_number(end, host, 3, t.member.args[0].num)
                } else {
                    replies_plainly(end, host, 0)
                },
                DomResult::Failed => end.host == host && handed_over(t.member, end),
                DomResult::Created(native, node) => {
                    &&& end.host == host
                    &&& end.action == Action::FetchBridge
                    &&& end.task.call == register_call()
                    &&& end.task.stage == Stage::Bridge(
                        Pos::Fetch,
                        After::Register(native, node),
                    )
                },
            }
        }),
{
    reveal(settle_operation);
    lemma_one();
    match result {
        DomResult::Text(text) => {
            law_utf16_round_trip(text);
        },
        DomResult::Count(n) => {
            lemma_reads_as(n as i64);
        },
        _ => {},
    }
}

/// The role in which what an operation creates is kept.
pub open spec fn creates(op: Operation<Seq<char>>) -> Option<Role> {
    match op {
        Operation::NewUrl(_) => Some(Role::Url),
        Operation::NewEvent(_) => Some(Role::Event),
        Operation::CreateElement(_) => Some(Role::Element),
        Operation::ClassList => Some(Role::TokenList),
        Operation::Style => Some(Role::Style),
        Operation::QuerySelectorAll(_) => Some(Role::NodeList),
        Operation::Item(_) => Some(Role::Node),
        _ => None,
    }
}

/// What an operation creates is replied by the handle that the page registered it
/// under, and is known at once under that handle in its role, an element also as a
/// node, and in no other; no other handle is touched. Where the page gives no
/// handle, the bridge gets the use.
pub proof fn law_created_objects_are_known_as_they_are(
    r: RunnerView,
    t: TaskView,
    op: Operation<Seq<char>>,
    native: usize,
    node: usize,
    value: JsValue<Seq<char>>,
    other: i64,
    role: Role,
)
    requires
        t.stage == Stage::Bridge(Pos::Invoke, After::Register(native, node)),
        operation(t.member) == Some(op),
    ensures
        ({
            let end = step(Some(r), t, Event::Returned(true, value));
            let handle = as_i64(value->Number_0);
            if value is Number && handle >= 0 {
                &&& end.action == Action::Finish(
                    Outcome::Reply(Reply::Ref(as_double(handle as int))),
                )
                &&& native_of(end.host, handle, role) == (if op is CreateElement && role
                    == Role::Node {
                    node
                } else if creates(op) == Some(role) {
                    native
                } else {
                    native_of(Some(r), handle, role)
                })
                &&& other != handle ==> native_of(end.host, other, role) == native_of(
                    Some(r),
                    other,
                    role,
                )
            } else {
                end.host == Some(r) && handed_over(t.member, end)
            }
        }),
{
    reveal(settle);
}

/// A receiver that the page gives is used and kept in the role of its interface, and
/// so is an operand in its own; where the page has no such native, the bridge gets
/// the use.
pub proof fn law_natives_are_found_in_their_roles(
    r: RunnerView,
    t: TaskView,
    op: Operation<Seq<char>>,
    value: JsValue<Seq<char>>,
)
    requires
        operation(t.member) == Some(op),
        interface(op) is Some,
    ensures
        t.stage == Stage::Bridge(Pos::Invoke, After::Receiver) ==> ({
            let end = step(Some(r), t, Event::Returned(true, value));
            if value is Object {
                end.host == Some(r) && end.action == Action::Unwrap(interface(op)->0)
            } else {
                end.host == Some(r) && handed_over(t.member, end)
            }
        }),
        t.stage == Stage::Bridge(Pos::Invoke, After::Operand) && (op is AppendChild || op
            is DispatchEvent) ==> ({
            let end = step(Some(r), t, Event::Returned(true, value));
            if value is Object {
                end.host == Some(r) && end.action == Action::Unwrap(
                    if op is AppendChild {
                        Role::Node
                    } else {
                        Role::Event
                    },
                )
            } else {
                end.host == Some(r) && handed_over(t.member, end)
            }
        }),
        t.stage == Stage::UnwrapReceiver ==> ({
            let end = step(Some(r), t, Event::Native(None));
            end.host == Some(r) && handed_over(t.member, end)
        }),
        t.stage == Stage::UnwrapOperand ==> ({
            let end = step(Some(r), t, Event::Native(None));
            end.host == Some(r) && handed_over(t.member, end)
        }),
{
    reveal(settle);
}

// ---- what is asked is what is waited for -----------------------------------

/// Whether the work that a turn asks for is the work that its task waits for.
pub open spec fn announces(turn: Turn) -> bool {
    let t = turn.task;
    match t.stage {
        Stage::Bridge(Pos::Context, _) => turn.action == Action::Context,
        Stage::Bridge(Pos::Fetch, _) => turn.action == Action::FetchBridge,
        Stage::Bridge(Pos::Push(_), _) => turn.action == Action::Push,
        Stage::Bridge(Pos::Invoke, _) => turn.action == Action::Invoke(t.call.method),
        Stage::ReadField(field) => turn.action == Action::ReadField(field),
        Stage::FormatScalar => turn.action is FormatNumber,
        Stage::FormatId => turn.action is FormatNumber,
        Stage::ParseId => turn.action == Action::ParseNumber,
        Stage::Enter => turn.action == Action::Context,
        Stage::UnwrapReceiver => receiver_role(t.member.hot) matches Some(role) && turn.action
            == Action::Unwrap(role),
        Stage::UnwrapOperand => operand_of(t.member.hot) matches Operand::Native(role)
            && turn.action == Action::Unwrap(role),
        Stage::Operate => turn.action == Action::Operate(
            t.member.access,
            t.member.hot,
            t.member.receiver,
            t.member.operand,
        ),
        Stage::EnterCanvas => turn.action == Action::Context,
        Stage::UnwrapCanvas => turn.action == Action::Unwrap(Role::Canvas2d),
        Stage::Draw => turn.action is Draw,
        Stage::FormatNext => turn.action == Action::FormatNumber(
            coordinate(t.bind, t.bind.written.len() as int),
        ),
        Stage::Finished => turn.action is Finish,
    }
}

proof fn lemma_pieces_announce(host: Option<RunnerView>, t: TaskView, address: usize)
    ensures
        announces(fall_back(host, t)),
        announces(find_operand(host, t)),
        announces(found_receiver(host, t, address)),
        announces(attempt(host, t)),
        announces(write_numbers(host, t)),
        announces(draw_elsewhere(host, t)),
        announces(found_canvas(host, t, address)),
        announces(find_canvas(host, t)),
{
    reveal(attempt);
    reveal(found_receiver);
    reveal(find_operand);
    reveal(write_numbers);
    reveal(draw_elsewhere);
    reveal(found_canvas);
    reveal(find_canvas);
}

proof fn lemma_settle_announces(
    host: Option<RunnerView>,
    t: TaskView,
    after: After,
    result: CallResult<Seq<char>>,
)
    ensures
        announces(settle(host, t, after, result)),
{
    lemma_pieces_announce(host, t, 0);
    reveal(settle);
    reveal(settle_wide);
}

/// Every step asks for the work that it then waits for: in particular a member is
/// used on the receiver and the operand that were found, in this order.
pub proof fn law_steps_ask_for_what_they_await(
    host: Option<RunnerView>,
    t: TaskView,
    event: Event<Seq<char>>,
)
    ensures
        announces(step(host, t, event)),
{
    lemma_pieces_announce(host, t, 0);
    match t.stage {
        Stage::Bridge(pos, after) => {
            lemma_settle_announces(host, t, after, CallResult::Unreached);
            lemma_settle_announces(host, t, after, call_result(event));
        },
        Stage::UnwrapReceiver => {
            match (event, receiver_role(t.member.hot)) {
                (Event::Native(Some(address)), Some(role)) => {
                    lemma_pieces_announce(
                        resolved(host, t.member.target, role, address),
                        t,
                        address,
                    );
                },
                _ => {},
            }
        },
        Stage::UnwrapCanvas => {
            match event {
                Event::Native(Some(address)) => {
                    lemma_pieces_announce(
                        resolved(host, t.bind.target, Role::Canvas2d, address),
                        t,
                        address,
                    );
                },
                _ => {},
            }
        },
        Stage::Operate => {
            reveal(settle_operation);
        },
        Stage::FormatNext => {
            reveal(write_numbers);
        },
        _ => {},
    }
}

// ---- drawing ---------------------------------------------------------------

/// The name of a drawing operation, as the page knows it.
pub open spec fn drawing_name(op: Drawing) -> Seq<char> {
    match op {
        Drawing::FillRect(_, _, _, _) => "fillRect"@,
        Drawing::ClearRect(_, _, _, _) => "clearRect"@,
        Drawing::StrokeRect(_, _, _, _) => "strokeRect"@,
        Drawing::Rect(_, _, _, _) => "rect"@,
        Drawing::MoveTo(_, _) => "moveTo"@,
        Drawing::LineTo(_, _) => "lineTo"@,
        Drawing::Translate(_, _) => "translate"@,
        Drawing::Scale(_, _) => "scale"@,
        Drawing::Rotate(_) => "rotate"@,
    }
}

/// The coordinates of a drawing operation, in order.
pub open spec fn coordinates(op: Drawing) -> Seq<u64> {
    match op {
        Drawing::FillRect(x, y, w, h) => seq![x, y, w, h],
        Drawing::ClearRect(x, y, w, h) => seq![x, y, w, h],
        Drawing::StrokeRect(x, y, w, h) => seq![x, y, w, h],
        Drawing::Rect(x, y, w, h) => seq![x, y, w, h],
        Drawing::MoveTo(x, y) => seq![x, y],
        Drawing::LineTo(x, y) => seq![x, y],
        Drawing::Translate(x, y) => seq![x, y],
        Drawing::Scale(x, y) => seq![x, y],
        Drawing::Rotate(angle) => seq![angle],
    }
}

/// The number that the engine handed over at a position; zero where there is none.
pub open spec fn number_given(args: Option<Seq<u64>>, argc: usize, i: int) -> u64 {
    if args is Some && i < argc && i < args->0.len() {
        args->0[i]
    } else {
        0
    }
}

/// The names that the binding ids stand for, as the engine counts them.
pub open spec fn binding_names() -> Seq<Seq<char>> {
    seq![
        ""@,
        "fillRect"@,
        "clearRect"@,
        "strokeRect"@,
        "rect"@,
        "moveTo"@,
        "lineTo"@,
        "translate"@,
        "scale"@,
        "rotate"@,
    ]
}

/// A binding id stands for the method that the engine counts it as, on a drawing
/// context and elsewhere alike: the operation that it comes to bears the name under
/// which it goes to the bridge, and its coordinates are the call's numbers in order.
pub proof fn law_bindings_draw_what_they_name(b: BindView, i: int)
    ensures
        bind_name(b.id) == if b.id < binding_names().len() {
            binding_names()[b.id as int]
        } else {
            ""@
        },
        1 <= b.id <= 9 <==> drawing(b) is Some,
        drawing(b) matches Some(op) ==> drawing_name(op) == bind_name(b.id),
        drawing(b) matches Some(op) ==> (0 <= i < coordinates(op).len() ==> coordinates(op)[i]
            == number_given(b.args, b.argc, i)),
        i >= 0 ==> coordinate(b, i) == number_given(b.args, b.argc, i),
{
    assert(binding_names().len() == 10);
}

/// A drawing call, as it was handed over, draws on the context behind its target:
/// on the one that is kept, or on the one that the page gives, which is kept from
/// then on; and then it is over, without a reply.
pub proof fn law_drawing_calls_draw(
    r: RunnerView,
    target: i64,
    id: u32,
    args: Option<Seq<u64>>,
    argc: usize,
    address: usize,
    any: Event<Seq<char>>,
    later: Option<RunnerView>,
)
    requires
        1 <= id <= 9,
    ensures
        ({
            let start = start_bind(Some(r), target, id, args, argc);
            let b = start.task.bind;
            let kept = native_of(Some(r), target, Role::Canvas2d);
            let entered = step(Some(r), start.task, Event::Flag(true));
            let unwrapping = TaskView { stage: Stage::UnwrapCanvas, ..start.task };
            let given = step(Some(r), unwrapping, Event::Native(Some(address)));
            &&& start.action == Action::Context
            &&& b.target == target && b.id == id && b.args == args && b.argc == argc
            &&& b.written.len() == 0
            &&& kept != 0 ==> entered.action == Action::Draw(kept, drawing(b)->0)
            &&& kept == 0 ==> entered.action == Action::FetchBridge && entered.task.call
                == handle_call(target)
            &&& given.action == Action::Draw(address, drawing(b)->0)
            &&& native_of(given.host, target, Role::Canvas2d) == address
            &&& step(later, given.task, any).action == Action::Finish(
                Outcome::Reply(Reply::Untouched),
            )
            &&& step(later, given.task, any).host == later
        }),
{
    reveal(find_canvas);
    reveal(found_canvas);
}

/// Where the target is no drawing context, the call has its numbers written out and
/// goes to the bridge as a call of the method by its name: the target in decimal,
/// the name, and then the numbers. A binding id that stands for no method is over at
/// once, and neither draws nor goes to the bridge.
pub proof fn law_drawing_elsewhere_is_a_call(
    r: RunnerView,
    t: TaskView,
    event: Event<Seq<char>>,
)
    requires
        t.stage == Stage::UnwrapCanvas,
        t.bind.written.len() == 0,
        event == Event::<Seq<char>>::Native(None),
    ensures
        ({
            let next = step(Some(r), t, event);
            &&& !(1 <= t.bind.id <= 9) ==> next.action == Action::Finish(
                Outcome::Reply(Reply::Untouched),
            )
            &&& 1 <= t.bind.id <= 9 && t.bind.argc > 0 ==> next.action == Action::FormatNumber(
                number_given(t.bind.args, t.bind.argc, 0),
            )
            &&& 1 <= t.bind.id <= 9 && t.bind.argc == 0 ==> next.action == Action::Context
                && method_text(next.task.call.method) == "call"@
        }),
        bind_texts(t.bind).len() == 3,
        bind_texts(t.bind)[0] == decimal(t.bind.target as int),
        bind_texts(t.bind)[1] == bind_name(t.bind.id),
{
    reveal(draw_elsewhere);
    reveal(write_numbers);
    reveal_strlit("");
    reveal_strlit("fillRect");
    reveal_strlit("clearRect");
    reveal_strlit("strokeRect");
    reveal_strlit("rect");
    reveal_strlit("moveTo");
    reveal_strlit("lineTo");
    reveal_strlit("translate");
    reveal_strlit("scale");
    reveal_strlit("rotate");
    law_bindings_draw_what_they_name(t.bind, 0);
    assert(bind_name(t.bind.id).len() == 0 <==> !(1 <= t.bind.id <= 9));
}

/// A drawing call that went to the bridge is over without a typed reply, and the
/// runner holds the string that came back, as after any other call by name.
pub proof fn law_drawing_elsewhere_replies_nothing(
    r: RunnerView,
    t: TaskView,
    event: Event<Seq<char>>,
)
    requires
        t.stage == Stage::Bridge(Pos::Invoke, After::Draw),
    ensures
        ({
            let end = step(Some(r), t, event);
            &&& end.action == Action::Finish(Outcome::Reply(Reply::Untouched))
            &&& end.host == Some(
                RunnerView {
                    scratch: match event {
                        Event::Returned(true, JsValue::Text(text)) => text,
                        _ => Seq::empty(),
                    },
                    ..r
                },
            )
        }),
{
    reveal(settle);
}

/// Where the page gives no object for the target of a drawing call, or none that is
/// a drawing context, and where there is no context to ask in, nothing is drawn.
pub proof fn law_only_contexts_are_drawn_on(
    r: RunnerView,
    t: TaskView,
    event: Event<Seq<char>>,
)
    requires
        t.stage == Stage::EnterCanvas && event != Event::<Seq<char>>::Flag(true) || t.stage
            == Stage::Bridge(Pos::Invoke, After::Canvas) && event != Event::Returned(
            true,
            JsValue::<Seq<char>>::Object,
        ) || t.stage == Stage::UnwrapCanvas && event == Event::<Seq<char>>::Native(None),
    ensures
        step(Some(r), t, event).action !is Draw,
        step(Some(r), t, event).host == Some(r),
        step(Some(r), t, event) == draw_elsewhere(Some(r), t),
{
    reveal(settle);
    reveal(draw_elsewhere);
    reveal(write_numbers);
}

/// A drawing context is looked for as the object behind the target's handle.
pub proof fn law_objects_are_tried_as_contexts(r: RunnerView, t: TaskView)
    requires
        t.stage == Stage::Bridge(Pos::Invoke, After::Canvas),
    ensures
        step(Some(r), t, Event::Returned(true, JsValue::Object)).action == Action::Unwrap(
            Role::Canvas2d,
        ),
        step(Some(r), t, Event::Returned(true, JsValue::Object)).host == Some(r),
{
    reveal(settle);
}

/// Without a context to work in, no native is looked for and the bridge gets the
/// use.
pub proof fn law_no_context_no_natives(r: RunnerView, t: TaskView, event: Event<Seq<char>>)
    requires
        t.stage == Stage::Enter,
        event != Event::<Seq<char>>::Flag(true),
    ensures
        handed_over(t.member, step(Some(r), t, event)),
        step(Some(r), t, event).host == Some(r),
{
}

/// A value to write is the one argument of the write, and there is none where the
/// engine gave none.
pub proof fn law_written_value_is_the_argument(value: Arg16<Vec<u16>>)
    ensures
        written_value(Some(value)).len() == 1,
        written_value(Some(value))[0] == value@,
        written_value(None).len() == 0,
{
}

}
