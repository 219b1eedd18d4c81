//! What holds of host calls as a whole.

use crate::bridge::{int_result, text_args, CallResult, CallView};
use crate::calls::{blank, member_use, start_call, start_intern, start_member};
use crate::canvas::{bind_texts, coordinate, drawing, BindView, Drawing};
use crate::direct::{arity, covered, created, fitting, fitting_late, operand_handle, operand_of, reads_more, receiver_role, reflective, Access, MemberView, Operand};
use crate::host::{hot_of, interned, native_of, released, resolved, scratched, widened, RunnerView};
use crate::hot::{classify, Hot};
use crate::natives::Role;
use crate::number::{as_double, as_i64, law_integers_round_trip, law_rounding_is_done_once, lemma_nearest_fits, lemma_nonnegative};
use crate::operation::{operation, Operation};
use crate::protocol::{Arg16, DomResult, Field, JsValue, Method, Reply};
use crate::task::{argument, attempt, call_bridge, call_bridge_here, call_result, draw_elsewhere, fall_back, find_canvas, find_operand, finish, formatted, found_canvas, found_operand, found_receiver, handle_call, operate, settle, settle_operation, settle_wide, step, unwrapped, write_numbers, Action, After, Event, Outcome, Pos, Stage, TaskView, Turn};
use crate::text::{array_items, decode16, law_array_parts_into_its_items, law_utf16_round_trip};
use vstd::prelude::*;

verus! {

// ---- the host state --------------------------------------------------------

/// A name that was interned is found under its id as what it was classified as,
/// and the ids of other names keep their classification.
pub proof fn law_interned_name_is_classified(r: RunnerView, name: Seq<char>, id: u32, other: u32)
    requires
        id != u32::MAX,
    ensures
        hot_of(interned(Some(r), name, id), id) == classify(name),
        other != id ==> hot_of(interned(Some(r), name, id), other) == hot_of(Some(r), other),
{
}

/// A native that was found is kept: it is found again under its handle and role,
/// and every other handle and role keeps what it had.
pub proof fn law_found_native_is_kept(
    r: RunnerView,
    handle: i64,
    role: Role,
    address: usize,
    other: i64,
    other_role: Role,
)
    ensures
        native_of(resolved(Some(r), handle, role, address), handle, role) == address,
        other != handle || other_role != role ==> native_of(
            resolved(Some(r), handle, role, address),
            other,
            other_role,
        ) == native_of(Some(r), other, other_role),
{
}

/// A handle that was released has no native in any role, and every other handle
/// keeps what it had.
pub proof fn law_released_handle_is_forgotten(r: RunnerView, handle: i64, role: Role, other: i64)
    ensures
        native_of(released(Some(r), handle), handle, role) == 0,
        other != handle ==> native_of(released(Some(r), handle), other, role) == native_of(
            Some(r),
            other,
            role,
        ),
{
}

/// Whether nothing changed of a host's page, engine, bridge and classifications.
pub open spec fn same_runner(before: Option<RunnerView>, after: Option<RunnerView>) -> bool {
    match (before, after) {
        (Some(b), Some(a)) => {
            &&& a.ctx == b.ctx
            &&& a.global == b.global
            &&& a.bridge_ready == b.bridge_ready
            &&& a.hot == b.hot
        },
        (None, None) => true,
        _ => false,
    }
}

/// Whether a turn ends the interning of a name.
spec fn names(turn: Turn) -> bool {
    turn.action matches Action::Finish(Outcome::Id(_))
}

proof fn lemma_created_keeps(
    host: Option<RunnerView>,
    hot: Hot,
    handle: i64,
    native: usize,
    node: usize,
)
    ensures
        same_runner(host, created(host, hot, handle, native, node)),
{
}

proof fn lemma_attempt_keeps(host: Option<RunnerView>, t: TaskView, address: usize)
    ensures
        fall_back(host, t).host == host,
        operate(host, t).host == host,
        find_operand(host, t).host == host,
        found_operand(host, t, address).host == host,
        found_receiver(host, t, address).host == host,
        attempt(host, t).host == host,
        !names(fall_back(host, t)),
        !names(operate(host, t)),
        !names(find_operand(host, t)),
        !names(found_operand(host, t, address)),
        !names(found_receiver(host, t, address)),
        !names(attempt(host, t)),
{
    reveal(attempt);
    reveal(found_receiver);
    reveal(find_operand);
}

proof fn lemma_draw_keeps(host: Option<RunnerView>, t: TaskView, address: usize)
    ensures
        write_numbers(host, t).host == host,
        draw_elsewhere(host, t).host == host,
        found_canvas(host, t, address).host == host,
        find_canvas(host, t).host == host,
        !names(write_numbers(host, t)),
        !names(draw_elsewhere(host, t)),
        !names(found_canvas(host, t, address)),
        !names(find_canvas(host, t)),
{
    reveal(write_numbers);
    reveal(draw_elsewhere);
    reveal(found_canvas);
    reveal(find_canvas);
}

proof fn lemma_settle_keeps(
    host: Option<RunnerView>,
    t: TaskView,
    after: After,
    result: CallResult<Seq<char>>,
)
    ensures
        match settle(host, t, after, result).action {
            Action::Finish(Outcome::Id(id)) => settle(host, t, after, result).host == interned(
                host,
                t.name,
                id,
            ),
            _ => same_runner(host, settle(host, t, after, result).host),
        },
{
    reveal(settle);
    reveal(settle_wide);
    lemma_attempt_keeps(host, t, 0);
    lemma_draw_keeps(host, t, 0);
    match after {
        After::Register(native, node) => {
            lemma_created_keeps(host, t.member.hot, int_result(result), native, node);
        },
        _ => {},
    }
}

/// A step touches nothing of the host but what it is about: there is a runner
/// after it if and only if there was one before, for the same page, the same
/// engine and the same bridge, and the classifications change only where a name
/// was interned, by that name.
pub proof fn law_step_keeps_the_runner(
    host: Option<RunnerView>,
    t: TaskView,
    event: Event<Seq<char>>,
)
    ensures
        match step(host, t, event).action {
            Action::Finish(Outcome::Id(id)) => step(host, t, event).host == interned(
                host,
                t.name,
                id,
            ),
            _ => same_runner(host, step(host, t, event).host),
        },
{
    match t.stage {
        Stage::Bridge(pos, after) => {
            lemma_settle_keeps(host, t, after, CallResult::Unreached);
            lemma_settle_keeps(host, t, after, call_result(event));
        },
        Stage::UnwrapReceiver => {
            lemma_attempt_keeps(host, t, 0);
            match (unwrapped(event), receiver_role(t.member.hot)) {
                (Some(address), Some(role)) => {
                    lemma_attempt_keeps(resolved(host, t.member.target, role, address), t, address);
                },
                _ => {},
            }
        },
        Stage::UnwrapCanvas => {
            lemma_draw_keeps(host, t, 0);
            match unwrapped(event) {
                Some(address) => {
                    lemma_draw_keeps(
                        resolved(host, t.bind.target, Role::Canvas2d, address),
                        t,
                        address,
                    );
                },
                _ => {},
            }
        },
        Stage::Operate => {
            reveal(settle_operation);
            lemma_attempt_keeps(host, t, 0);
        },
        Stage::FormatNext => {
            reveal(write_numbers);
        },
        _ => {
            lemma_attempt_keeps(host, t, 0);
            lemma_draw_keeps(host, t, 0);
        },
    }
}

proof fn lemma_settle_natives(
    host: Option<RunnerView>,
    t: TaskView,
    after: After,
    result: CallResult<Seq<char>>,
    handle: i64,
    role: Role,
)
    ensures
        settle(host, t, after, result).action != Action::Finish(
            Outcome::Reply(Reply::Ref(as_double(handle as int))),
        ) ==> native_of(settle(host, t, after, result).host, handle, role) == native_of(
            host,
            handle,
            role,
        ),
{
    reveal(settle);
    reveal(settle_wide);
    lemma_attempt_keeps(host, t, 0);
    lemma_draw_keeps(host, t, 0);
}

/// A step finds natives only behind the handles it is about: every other handle
/// keeps what it had, unless it is being replied, as that of an object just
/// registered.
pub proof fn law_step_keeps_other_natives(
    host: Option<RunnerView>,
    t: TaskView,
    event: Event<Seq<char>>,
    handle: i64,
    role: Role,
)
    requires
        handle != t.member.target,
        handle != operand_handle(t.member.args),
        handle != t.bind.target,
    ensures
        step(host, t, event).action != Action::Finish(
            Outcome::Reply(Reply::Ref(as_double(handle as int))),
        ) ==> native_of(step(host, t, event).host, handle, role) == native_of(host, handle, role),
{
    lemma_attempt_keeps(host, t, 0);
    lemma_draw_keeps(host, t, 0);
    match t.stage {
        Stage::Bridge(pos, after) => {
            lemma_settle_natives(host, t, after, CallResult::Unreached, handle, role);
            lemma_settle_natives(host, t, after, call_result(event), handle, role);
        },
        Stage::UnwrapReceiver => {
            match (unwrapped(event), receiver_role(t.member.hot)) {
                (Some(address), Some(found)) => {
                    lemma_attempt_keeps(resolved(host, t.member.target, found, address), t, address);
                },
                _ => {},
            }
        },
        Stage::UnwrapCanvas => {
            match unwrapped(event) {
                Some(address) => {
                    lemma_draw_keeps(
                        resolved(host, t.bind.target, Role::Canvas2d, address),
                        t,
                        address,
                    );
                },
                _ => {},
            }
        },
        Stage::Operate => {
            reveal(settle_operation);
        },
        Stage::FormatNext => {
            reveal(write_numbers);
        },
        _ => {},
    }
}

// ---- every host call ends --------------------------------------------------

/// How far a task is from its end, in phases.
pub open spec fn phase(stage: Stage) -> nat {
    match stage {
        Stage::Enter => 20,
        Stage::Bridge(_, After::Receiver) => 19,
        Stage::UnwrapReceiver => 18,
        Stage::Bridge(_, After::Operand) => 17,
        Stage::UnwrapOperand => 16,
        Stage::Operate => 15,
        Stage::Bridge(_, After::Register(_, _)) => 14,
        Stage::Bridge(_, After::Wide) => 13,
        Stage::ReadField(Field::Handle) => 12,
        Stage::ReadField(Field::Json) => 11,
        Stage::EnterCanvas => 10,
        Stage::Bridge(_, After::Canvas) => 9,
        Stage::UnwrapCanvas => 8,
        Stage::Draw => 7,
        Stage::FormatNext => 6,
        Stage::Bridge(_, After::Draw) => 5,
        Stage::Bridge(_, After::Intern) => 4,
        Stage::FormatId => 3,
        Stage::ParseId => 2,
        Stage::Bridge(_, After::Scalar) => 2,
        Stage::FormatScalar => 1,
        Stage::Bridge(_, After::Text) => 1,
        Stage::Bridge(_, After::Integer) => 1,
        Stage::Bridge(_, After::Narrow) => 1,
        Stage::Finished => 0,
    }
}

/// How far a task is from the end of its phase.
pub open spec fn remaining(t: TaskView) -> nat {
    match t.stage {
        Stage::Bridge(Pos::Context, _) => t.call.args.len() + 3,
        Stage::Bridge(Pos::Fetch, _) => t.call.args.len() + 2,
        Stage::Bridge(Pos::Push(i), _) => if i < t.call.args.len() {
            (t.call.args.len() - i + 1) as nat
        } else {
            1
        },
        Stage::FormatNext => if t.bind.written.len() < t.bind.argc {
            (t.bind.argc - t.bind.written.len()) as nat
        } else {
            0
        },
        _ => 0,
    }
}

/// Whether a task is nearer to its end than another.
pub open spec fn nearer(n: TaskView, t: TaskView) -> bool {
    phase(n.stage) < phase(t.stage) || (phase(n.stage) == phase(t.stage) && remaining(n) < remaining(t))
}

/// Whether the arguments of a task can be counted by a machine word.
pub open spec fn countable(t: TaskView) -> bool {
    t.call.args.len() <= usize::MAX && t.member.args.len() + 4 <= usize::MAX
}

proof fn lemma_attempt_phase(host: Option<RunnerView>, t: TaskView, address: usize)
    ensures
        phase(fall_back(host, t).task.stage) <= 13,
        phase(operate(host, t).task.stage) == 15,
        phase(found_operand(host, t, address).task.stage) == 15,
        phase(find_operand(host, t).task.stage) <= 17,
        phase(found_receiver(host, t, address).task.stage) <= 17,
        phase(attempt(host, t).task.stage) <= 19,
        countable(t) ==> countable(fall_back(host, t).task),
        countable(t) ==> countable(found_operand(host, t, address).task),
        countable(t) ==> countable(find_operand(host, t).task),
        countable(t) ==> countable(found_receiver(host, t, address).task),
        countable(t) ==> countable(attempt(host, t).task),
{
    reveal(attempt);
    reveal(found_receiver);
    reveal(find_operand);
}

proof fn lemma_draw_phase(host: Option<RunnerView>, t: TaskView, address: usize)
    ensures
        phase(write_numbers(host, t).task.stage) <= 6,
        write_numbers(host, t).task.stage == Stage::FormatNext ==> remaining(
            write_numbers(host, t).task,
        ) == t.bind.argc - t.bind.written.len() && t.bind.written.len() < t.bind.argc,
        phase(draw_elsewhere(host, t).task.stage) <= 6,
        phase(found_canvas(host, t, address).task.stage) <= 7,
        phase(find_canvas(host, t).task.stage) <= 9,
        countable(t) ==> countable(write_numbers(host, t).task),
        countable(t) ==> countable(draw_elsewhere(host, t).task),
        countable(t) ==> countable(found_canvas(host, t, address).task),
        countable(t) ==> countable(find_canvas(host, t).task),
{
    reveal(write_numbers);
    reveal(draw_elsewhere);
    reveal(found_canvas);
    reveal(find_canvas);
}

proof fn lemma_settle_phase(
    host: Option<RunnerView>,
    t: TaskView,
    after: After,
    result: CallResult<Seq<char>>,
)
    ensures
        phase(settle(host, t, after, result).task.stage) < phase(Stage::Bridge(Pos::Invoke, after)),
        countable(t) ==> countable(settle(host, t, after, result).task),
{
    reveal(settle);
    reveal(settle_wide);
    lemma_attempt_phase(host, t, 0);
    lemma_draw_phase(host, t, 0);
}

/// Every step brings a host call nearer to its end.
pub proof fn law_step_makes_progress(host: Option<RunnerView>, t: TaskView, event: Event<Seq<char>>)
    requires
        t.stage != Stage::Finished,
        countable(t),
    ensures
        nearer(step(host, t, event).task, t),
        countable(step(host, t, event).task),
{
    match t.stage {
        Stage::Bridge(pos, after) => {
            lemma_settle_phase(host, t, after, CallResult::Unreached);
            lemma_settle_phase(host, t, after, call_result(event));
        },
        Stage::UnwrapReceiver => {
            lemma_attempt_phase(host, t, 0);
            match (unwrapped(event), receiver_role(t.member.hot)) {
                (Some(address), Some(role)) => {
                    lemma_attempt_phase(resolved(host, t.member.target, role, address), t, address);
                },
                _ => {},
            }
        },
        Stage::UnwrapOperand => {
            lemma_attempt_phase(host, t, 0);
        },
        Stage::UnwrapCanvas => {
            lemma_draw_phase(host, t, 0);
            match unwrapped(event) {
                Some(address) => {
                    lemma_draw_phase(
                        resolved(host, t.bind.target, Role::Canvas2d, address),
                        t,
                        address,
                    );
                },
                _ => {},
            }
        },
        Stage::Operate => {
            reveal(settle_operation);
            lemma_attempt_phase(host, t, 0);
        },
        Stage::FormatNext => {
            lemma_draw_phase(
                host,
                TaskView {
                    bind: BindView { written: t.bind.written.push(formatted(event)), ..t.bind },
                    ..t
                },
                0,
            );
        },
        _ => {
            lemma_attempt_phase(host, t, 0);
            lemma_draw_phase(host, t, 0);
        },
    }
}

/// What the world does to a host call: the state in which it finds the host at
/// each step, which other host calls may have changed meanwhile, and the events.
pub type World = spec_fn(nat) -> (Option<RunnerView>, Event<Seq<char>>);

/// A task after some steps.
pub open spec fn run(t: TaskView, world: World, n: nat) -> TaskView
    decreases n,
{
    if n == 0 {
        t
    } else {
        let before = run(t, world, (n - 1) as nat);
        let (host, event) = world((n - 1) as nat);
        step(host, before, event).task
    }
}

proof fn lemma_ends(t: TaskView, world: World, n: nat)
    requires
        countable(run(t, world, n)),
    ensures
        exists|m: nat| m >= n && (#[trigger] run(t, world, m)).stage == Stage::Finished,
    decreases phase(run(t, world, n).stage), remaining(run(t, world, n)),
{
    let now = run(t, world, n);
    if now.stage == Stage::Finished {
        assert(n >= n);
    } else {
        let (host, event) = world(n);
        law_step_makes_progress(host, now, event);
        assert(run(t, world, n + 1) == step(host, now, event).task);
        lemma_ends(t, world, n + 1);
    }
}

/// Every host call ends after finitely many steps, whatever the world answers and
/// whatever other host calls do to the host in between.
pub proof fn law_every_host_call_ends(t: TaskView, world: World)
    requires
        countable(t),
    ensures
        exists|n: nat| (#[trigger] run(t, world, n)).stage == Stage::Finished,
{
    lemma_ends(t, world, 0);
}

// ---- the direct tier and its fall-back -------------------------------------

/// Whether two uses are of the same member, in the same way, with the same
/// arguments.
pub open spec fn same_use(a: MemberView, b: MemberView) -> bool {
    &&& a.access == b.access
    &&& a.target == b.target
    &&& a.id == b.id
    &&& a.hot == b.hot
    &&& a.args == b.args
}

/// Whether the direct tier is at work.
pub open spec fn direct(stage: Stage) -> bool {
    match stage {
        Stage::Enter => true,
        Stage::Bridge(_, After::Receiver) => true,
        Stage::UnwrapReceiver => true,
        Stage::Bridge(_, After::Operand) => true,
        Stage::UnwrapOperand => true,
        Stage::Operate => true,
        Stage::Bridge(_, After::Register(_, _)) => true,
        _ => false,
    }
}

/// Whether the reflective bridge is at work on a use of a member.
pub open spec fn reflecting(m: MemberView, t: TaskView) -> bool {
    match t.stage {
        Stage::Bridge(_, After::Wide) => t.call == reflective(m),
        Stage::ReadField(_) => true,
        _ => false,
    }
}

/// Whether a task is about a use of a member: it was not altered, and the direct
/// tier or the reflective bridge is at work on it, or it is over.
pub open spec fn serves(m: MemberView, t: TaskView) -> bool {
    &&& same_use(m, t.member)
    &&& direct(t.stage) || reflecting(m, t) || t.stage == Stage::Finished
}

/// Whether a turn of the direct tier ends a use of a member with a value, or at
/// least with none to give.
pub open spec fn taken(turn: Turn) -> bool {
    match turn.action {
        Action::Finish(Outcome::Reply(reply)) => reply != Reply::Untouched && reply != Reply::Failed,
        _ => false,
    }
}

/// Whether a turn hands a use of a member to the reflective bridge.
pub open spec fn handed_over(m: MemberView, turn: Turn) -> bool {
    &&& turn.task.stage == Stage::Bridge(Pos::Context, After::Wide)
    &&& turn.task.call == reflective(m)
    &&& turn.action == Action::Context
}

/// What a turn of the direct tier leads to.
spec fn goes_on(m: MemberView, host: Option<RunnerView>, turn: Turn) -> bool {
    &&& serves(m, turn.task)
    &&& host is Some ==> direct(turn.task.stage) || taken(turn) || handed_over(m, turn)
}

proof fn lemma_attempt_serves(
    host: Option<RunnerView>,
    t: TaskView,
    address: usize,
    m: MemberView,
)
    requires
        same_use(m, t.member),
    ensures
        goes_on(m, host, fall_back(host, t)),
        goes_on(m, host, operate(host, t)),
        goes_on(m, host, found_operand(host, t, address)),
        goes_on(m, host, find_operand(host, t)),
        goes_on(m, host, found_receiver(host, t, address)),
        goes_on(m, host, attempt(host, t)),
{
    reveal(attempt);
    reveal(found_receiver);
    reveal(find_operand);
}

proof fn lemma_settle_serves(
    host: Option<RunnerView>,
    t: TaskView,
    after: After,
    result: CallResult<Seq<char>>,
    m: MemberView,
)
    requires
        same_use(m, t.member),
        direct(Stage::Bridge(Pos::Invoke, after)) || after == After::Wide,
    ensures
        serves(m, settle(host, t, after, result).task),
        after != After::Wide ==> goes_on(m, host, settle(host, t, after, result)),
{
    reveal(settle);
    reveal(settle_wide);
    lemma_attempt_serves(host, t, 0, m);
}

proof fn lemma_step_serves(
    host: Option<RunnerView>,
    t: TaskView,
    event: Event<Seq<char>>,
    m: MemberView,
)
    requires
        serves(m, t),
    ensures
        serves(m, step(host, t, event).task),
        direct(t.stage) ==> goes_on(m, host, step(host, t, event)),
{
    lemma_attempt_serves(host, t, 0, m);
    match t.stage {
        Stage::Bridge(pos, after) => {
            lemma_settle_serves(host, t, after, CallResult::Unreached, m);
            lemma_settle_serves(host, t, after, call_result(event), m);
        },
        Stage::UnwrapReceiver => {
            match (unwrapped(event), receiver_role(t.member.hot)) {
                (Some(address), Some(role)) => {
                    lemma_attempt_serves(
                        resolved(host, t.member.target, role, address),
                        t,
                        address,
                        m,
                    );
                },
                _ => {},
            }
        },
        Stage::UnwrapOperand => {
            match (unwrapped(event), operand_of(t.member.hot)) {
                (Some(address), Operand::Native(role)) => {
                    lemma_attempt_serves(
                        resolved(host, operand_handle(t.member.args), role, address),
                        t,
                        address,
                        m,
                    );
                },
                _ => {},
            }
        },
        Stage::Operate => {
            reveal(settle_operation);
        },
        _ => {},
    }
}

/// A use of a member is never lost or altered: the task that starts it is about
/// it, and every step keeps it so. In particular, whenever the reflective bridge
/// is called for it, the call is the one that the use stands for, however far the
/// direct tier had come.
pub proof fn law_use_is_never_altered(
    host: Option<RunnerView>,
    m: MemberView,
    t: TaskView,
    event: Event<Seq<char>>,
)
    ensures
        serves(m, start_member(host, m).task),
        serves(m, t) ==> serves(m, step(host, t, event).task),
{
    if serves(m, t) {
        lemma_step_serves(host, t, event, m);
    }
}

/// What the direct tier does not take, the reflective bridge gets: each step of
/// the direct tier goes on with it, ends it with a reply, or hands the use over
/// to the bridge as it came.
pub proof fn law_untaken_use_falls_back(
    host: Option<RunnerView>,
    m: MemberView,
    t: TaskView,
    event: Event<Seq<char>>,
)
    requires
        host is Some,
        serves(m, t),
        direct(t.stage),
    ensures
        direct(step(host, t, event).task.stage) || taken(step(host, t, event)) || handed_over(
            m,
            step(host, t, event),
        ),
{
    lemma_step_serves(host, t, event, m);
}

/// The same over a whole host call: at every moment of it, whatever the world
/// answers, the reflective bridge is called for the use as it came or not at all.
pub proof fn law_bridge_gets_the_use_as_it_came(
    host: Option<RunnerView>,
    m: MemberView,
    world: World,
    n: nat,
)
    ensures
        serves(m, run(start_member(host, m).task, world, n)),
    decreases n,
{
    if n > 0 {
        law_bridge_gets_the_use_as_it_came(host, m, world, (n - 1) as nat);
        let (h, event) = world((n - 1) as nat);
        lemma_step_serves(h, run(start_member(host, m).task, world, (n - 1) as nat), event, m);
    }
}

/// A member that is not hot, or a use that the direct tier does not cover, goes
/// to the reflective bridge: at once, or as soon as the context was found.
pub proof fn law_uncovered_use_is_reflected(r: RunnerView, m: MemberView, event: Event<Seq<char>>)
    requires
        !covered(m.access, m.hot) || !fitting(m.access, m.hot, m.args),
    ensures
        handed_over(m, start_member(Some(r), m)) || handed_over(
            m,
            step(Some(r), start_member(Some(r), m).task, event),
        ),
{
    reveal(attempt);
}

/// A use with an argument that the page reads and its operation would make no use
/// of goes to the reflective bridge, with all its arguments.
pub proof fn law_unused_argument_falls_back(r: RunnerView, m: MemberView, event: Event<Seq<char>>)
    requires
        reads_more(m.access, m.hot),
        m.args.len() > arity(m.access, m.hot),
    ensures
        handed_over(m, start_member(Some(r), m)) || handed_over(
            m,
            step(Some(r), start_member(Some(r), m).task, event),
        ),
{
    law_uncovered_use_is_reflected(r, m, event);
}

/// Whether what a stage of the direct tier stands on was tested before it.
spec fn tested(t: TaskView) -> bool {
    let m = t.member;
    match t.stage {
        Stage::Bridge(_, After::Receiver) => covered(m.access, m.hot) && fitting(
            m.access,
            m.hot,
            m.args,
        ),
        Stage::UnwrapReceiver => covered(m.access, m.hot) && fitting(m.access, m.hot, m.args),
        Stage::Bridge(_, After::Operand) => served_directly(m),
        Stage::UnwrapOperand => served_directly(m),
        Stage::Operate => served_directly(m),
        Stage::Bridge(_, After::Register(_, _)) => served_directly(m),
        _ => true,
    }
}

/// Whether a use is one that the document may serve: the direct tier covers it,
/// and its arguments are what it asks for.
pub open spec fn served_directly(m: MemberView) -> bool {
    &&& covered(m.access, m.hot)
    &&& fitting(m.access, m.hot, m.args)
    &&& fitting_late(m.hot, m.args)
}

proof fn lemma_attempt_tests(host: Option<RunnerView>, t: TaskView, address: usize)
    ensures
        tested(fall_back(host, t).task),
        served_directly(t.member) ==> tested(operate(host, t).task),
        served_directly(t.member) ==> tested(found_operand(host, t, address).task),
        served_directly(t.member) ==> tested(find_operand(host, t).task),
        covered(t.member.access, t.member.hot) && fitting(
            t.member.access,
            t.member.hot,
            t.member.args,
        ) ==> tested(found_receiver(host, t, address).task),
        tested(attempt(host, t).task),
{
    reveal(attempt);
    reveal(found_receiver);
    reveal(find_operand);
}

proof fn lemma_step_tests(
    host: Option<RunnerView>,
    t: TaskView,
    event: Event<Seq<char>>,
    m: MemberView,
)
    requires
        serves(m, t),
        tested(t),
    ensures
        tested(step(host, t, event).task),
{
    lemma_attempt_tests(host, t, 0);
    match t.stage {
        Stage::Bridge(pos, after) => {
            reveal(settle);
            reveal(settle_wide);
        },
        Stage::UnwrapReceiver => {
            match (unwrapped(event), receiver_role(t.member.hot)) {
                (Some(address), Some(role)) => {
                    lemma_attempt_tests(resolved(host, t.member.target, role, address), t, address);
                },
                _ => {},
            }
        },
        Stage::UnwrapOperand => {
            match (unwrapped(event), operand_of(t.member.hot)) {
                (Some(address), Operand::Native(role)) => {
                    lemma_attempt_tests(
                        resolved(host, operand_handle(t.member.args), role, address),
                        t,
                        address,
                    );
                },
                _ => {},
            }
        },
        Stage::Operate => {
            reveal(settle_operation);
        },
        _ => {},
    }
}

proof fn lemma_run_tests(host: Option<RunnerView>, m: MemberView, world: World, n: nat)
    ensures
        tested(run(start_member(host, m).task, world, n)),
    decreases n,
{
    let first = start_member(host, m).task;
    if n == 0 {
        lemma_attempt_tests(host, TaskView { member: m, ..blank() }, 0);
    } else {
        let (h, event) = world((n - 1) as nat);
        lemma_run_tests(host, m, world, (n - 1) as nat);
        law_bridge_gets_the_use_as_it_came(host, m, world, (n - 1) as nat);
        lemma_step_tests(h, run(first, world, (n - 1) as nat), event, m);
    }
}

/// No argument that the page reads is dropped: whenever the document is to serve a
/// use, whatever the world answered before, the use stands for an operation, its
/// arguments are what that operation asks for, and there are at least as many as it
/// makes use of, and no more where the page would read them.
pub proof fn law_operation_uses_every_argument(
    host: Option<RunnerView>,
    m: MemberView,
    world: World,
    n: nat,
)
    ensures
        ({
            let now = run(start_member(host, m).task, world, n);
            now.stage == Stage::Operate ==> {
                &&& served_directly(m)
                &&& m.args.len() >= arity(m.access, m.hot)
                &&& reads_more(m.access, m.hot) ==> m.args.len() == arity(m.access, m.hot)
                &&& operation(m) is Some
                &&& operation(now.member) == operation(m)
            }
        }),
{
    lemma_run_tests(host, m, world, n);
    law_bridge_gets_the_use_as_it_came(host, m, world, n);
}

/// What the page gives for a use of a member: a plain value, or an object by its
/// handle.
pub enum Given {
    Value(JsValue<Seq<char>>),
    Handle(u64),
}

/// What the page gives for a use of a member whose operation came to something. A
/// node appended and a buffer filled are given back, and so is what was created,
/// once it is registered; a key without a value and a node without a text give
/// null; what is set, removed or beyond the end of a list gives nothing. A result
/// of another kind than the member has stands for none.
pub open spec fn page_gives(m: MemberView, result: DomResult<Seq<char>>) -> Option<Given> {
    match operation(m) {
        Some(op) => match (op, result) {
            (Operation::Pathname, DomResult::Text(s)) => Some(Given::Value(JsValue::Text(s))),
            (Operation::Search, DomResult::Text(s)) => Some(Given::Value(JsValue::Text(s))),
            (Operation::TextContent, DomResult::Text(s)) => Some(Given::Value(JsValue::Text(s))),
            (Operation::TextContent, DomResult::Done) => Some(Given::Value(JsValue::Null)),
            (Operation::GetPropertyValue(_), DomResult::Text(s)) => Some(
                Given::Value(JsValue::Text(s)),
            ),
            (Operation::Decode, DomResult::Text(s)) => Some(Given::Value(JsValue::Text(s))),
            (Operation::GetItem(_), DomResult::Text(s)) => Some(Given::Value(JsValue::Text(s))),
            (Operation::GetItem(_), DomResult::Done) => Some(Given::Value(JsValue::Null)),
            (Operation::Length, DomResult::Count(n)) => Some(
                Given::Value(JsValue::Number(as_double(n as int))),
            ),
            (Operation::DispatchEvent, DomResult::Flag(b)) => Some(Given::Value(JsValue::Bool(b))),
            (Operation::Contains(_), DomResult::Flag(b)) => Some(Given::Value(JsValue::Bool(b))),
            (Operation::Item(_), DomResult::Done) => Some(Given::Value(JsValue::Undefined)),
            (Operation::SetTextContent(_), DomResult::Done) => Some(
                Given::Value(JsValue::Undefined),
            ),
            (Operation::SetClassName(_), DomResult::Done) => Some(Given::Value(JsValue::Undefined)),
            (Operation::SetProperty(_, _), DomResult::Done) => Some(
                Given::Value(JsValue::Undefined),
            ),
            (Operation::SetItem(_, _), DomResult::Done) => Some(Given::Value(JsValue::Undefined)),
            (Operation::RemoveItem(_), DomResult::Done) => Some(Given::Value(JsValue::Undefined)),
            (Operation::AppendChild, DomResult::Done) => Some(Given::Handle(m.args[0].num)),
            (Operation::GetRandomValues, DomResult::Done) => Some(Given::Handle(m.args[0].num)),
            _ => None,
        },
        None => None,
    }
}

/// How a host call ends where the bridge gives something for it: a plain value as
/// itself, and a handle as the property of an object.
pub open spec fn bridge_reply(host: Option<RunnerView>, t: TaskView, given: Given) -> Turn {
    match given {
        Given::Value(value) => settle_wide(host, t, CallResult::Value(value)),
        Given::Handle(bits) => step(
            host,
            settle_wide(host, t, CallResult::Value(JsValue::Object)).task,
            Event::Returned(true, JsValue::Number(bits)),
        ),
    }
}

/// Both tiers reply alike, member by member: where the document serves a use and
/// the operation comes to something that the member can come to, the host call
/// ends exactly as it does where the bridge gives what the page gives for it.
pub proof fn law_tiers_reply_alike(
    host: Option<RunnerView>,
    t: TaskView,
    result: DomResult<Seq<char>>,
)
    requires
        served_directly(t.member),
    ensures
        page_gives(t.member, result) matches Some(given) ==> settle_operation(host, t, result)
            == bridge_reply(host, t, given),
{
    reveal(settle_wide);
    reveal(settle_operation);
}

/// An object that an operation created and that was registered under a handle is
/// replied as it is where the bridge gives that handle.
pub proof fn law_tiers_reply_created_alike(
    host: Option<RunnerView>,
    t: TaskView,
    native: usize,
    node: usize,
    handle: i64,
)
    requires
        0 <= handle,
    ensures
        settle(
            host,
            t,
            After::Register(native, node),
            CallResult::Value(JsValue::Number(as_double(handle as int))),
        ).action == bridge_reply(host, t, Given::Handle(as_double(handle as int))).action,
{
    reveal(settle);
    reveal(settle_wide);
    law_rounding_is_done_once(handle);
    lemma_nonnegative(handle);
}

/// Where the realm gives no object for a handle, or no handle for an object, the
/// use goes to the reflective bridge.
pub proof fn law_no_object_falls_back(
    host: Option<RunnerView>,
    t: TaskView,
    result: CallResult<Seq<char>>,
    native: usize,
    node: usize,
)
    ensures
        result != CallResult::<Seq<char>>::Value(JsValue::Object) ==> settle(
            host,
            t,
            After::Receiver,
            result,
        ) == fall_back(host, t) && settle(host, t, After::Operand, result) == fall_back(host, t),
        !(result matches CallResult::Value(JsValue::Number(_))) ==> settle(
            host,
            t,
            After::Register(native, node),
            result,
        ) == fall_back(host, t),
{
    reveal(settle);
}

// ---- kept natives ----------------------------------------------------------

/// A receiver whose native is kept is used without asking the realm for it.
pub proof fn law_kept_receiver_is_used(r: RunnerView, t: TaskView, role: Role)
    requires
        covered(t.member.access, t.member.hot),
        fitting(t.member.access, t.member.hot, t.member.args),
        receiver_role(t.member.hot) == Some(role),
        native_of(Some(r), t.member.target, role) != 0,
    ensures
        attempt(Some(r), t) == found_receiver(
            Some(r),
            t,
            native_of(Some(r), t.member.target, role),
        ),
{
    reveal(attempt);
}

/// A receiver whose handle was released is asked for in the realm again, and so
/// is one that was never found.
pub proof fn law_released_receiver_is_asked_for(r: RunnerView, t: TaskView, role: Role)
    requires
        covered(t.member.access, t.member.hot),
        fitting(t.member.access, t.member.hot, t.member.args),
        receiver_role(t.member.hot) == Some(role),
    ensures
        attempt(released(Some(r), t.member.target), t) == call_bridge_here(
            released(Some(r), t.member.target),
            t,
            handle_call(t.member.target),
            After::Receiver,
        ),
        native_of(Some(r), t.member.target, role) == 0 ==> attempt(Some(r), t) == call_bridge_here(
            Some(r),
            t,
            handle_call(t.member.target),
            After::Receiver,
        ),
{
    reveal(attempt);
}

/// A receiver that the realm gave is kept from then on, until its handle is
/// released.
pub proof fn law_given_receiver_is_kept(r: RunnerView, t: TaskView, role: Role, address: usize)
    requires
        t.stage == Stage::UnwrapReceiver,
        receiver_role(t.member.hot) == Some(role),
    ensures
        native_of(
            step(Some(r), t, Event::Native(Some(address))).host,
            t.member.target,
            role,
        ) == address,
{
    lemma_attempt_keeps(resolved(Some(r), t.member.target, role, address), t, address);
}

/// An operand whose native is kept is used without asking the realm for it, and
/// one that the realm gave is kept from then on.
pub proof fn law_operand_is_kept(r: RunnerView, t: TaskView, role: Role, address: usize)
    requires
        operand_of(t.member.hot) == Operand::Native(role),
    ensures
        native_of(Some(r), operand_handle(t.member.args), role) != 0 ==> find_operand(Some(r), t)
            == found_operand(
            Some(r),
            t,
            native_of(Some(r), operand_handle(t.member.args), role),
        ),
        t.stage == Stage::UnwrapOperand ==> native_of(
            step(Some(r), t, Event::Native(Some(address))).host,
            operand_handle(t.member.args),
            role,
        ) == address,
{
    reveal(find_operand);
}

/// The role in which the object that a member creates is kept.
pub open spec fn created_role(hot: Hot) -> Option<Role> {
    match hot {
        Hot::CtorUrl => Some(Role::Url),
        Hot::CtorEvent => Some(Role::Event),
        Hot::CreateElement => Some(Role::Element),
        Hot::ClassList => Some(Role::TokenList),
        Hot::Style => Some(Role::Style),
        Hot::QuerySelectorAll => Some(Role::NodeList),
        Hot::Index(_) => Some(Role::Node),
        _ => None,
    }
}

/// An object that a member creates is replied by the handle it was registered
/// under, and its native is kept under that handle at once, an element also as a
/// node. Where the realm refuses to register it, the use falls back.
pub proof fn law_created_object_is_known(
    r: RunnerView,
    t: TaskView,
    native: usize,
    node: usize,
    bits: u64,
)
    ensures
        ({
            let turn = settle(
                Some(r),
                t,
                After::Register(native, node),
                CallResult::Value(JsValue::Number(bits)),
            );
            let handle = as_i64(bits);
            &&& handle >= 0 ==> turn.action == Action::Finish(
                Outcome::Reply(Reply::Ref(as_double(handle as int))),
            )
            &&& handle >= 0 ==> (created_role(t.member.hot) matches Some(role) ==> native_of(
                turn.host,
                handle,
                role,
            ) == native)
            &&& handle >= 0 && t.member.hot == Hot::CreateElement ==> native_of(
                turn.host,
                handle,
                Role::Node,
            ) == node
            &&& handle < 0 ==> turn == fall_back(Some(r), t)
        }),
{
    reveal(settle);
}

/// The page's table of handles: the address of the native behind a handle, for a
/// role.
pub type Page = spec_fn(i64, Role) -> usize;

/// Whether every native that a host has kept is the one that the page has.
pub open spec fn agrees(page: Page, host: Option<RunnerView>) -> bool {
    &&& host is Some
    &&& forall|handle: i64, role: Role|
        {
            let kept = #[trigger] native_of(host, handle, role);
            kept == 0 || kept == page(handle, role)
        }
}

/// Whether an event is what a page that has the objects behind its handles answers
/// to a task that looks for natives: everything goes through, a handle gives its
/// object, and the object gives its native.
pub open spec fn page_answers(page: Page, t: TaskView, event: Event<Seq<char>>) -> bool {
    match t.stage {
        Stage::Enter => event == Event::<Seq<char>>::Flag(true),
        Stage::Bridge(Pos::Fetch, _) => event == Event::<Seq<char>>::Fetched(true, true),
        Stage::Bridge(Pos::Push(_), _) => event == Event::<Seq<char>>::Flag(true),
        Stage::Bridge(Pos::Invoke, _) => event == Event::<Seq<char>>::Returned(
            true,
            JsValue::Object,
        ),
        Stage::UnwrapReceiver => event == Event::<Seq<char>>::Native(
            Some(page(t.member.target, receiver_role(t.member.hot)->0)),
        ),
        Stage::UnwrapOperand => event == Event::<Seq<char>>::Native(
            Some(page(operand_handle(t.member.args), operand_of(t.member.hot)->Native_0)),
        ),
        _ => true,
    }
}

/// Whether a world answers a task as such a page does, at every step.
#[verifier::opaque]
pub open spec fn faithful(page: Page, first: TaskView, world: World) -> bool {
    forall|n: nat|
        agrees(page, (#[trigger] world(n)).0) && page_answers(
            page,
            run(first, world, n),
            world(n).1,
        )
}

/// Whether the receiver of a task, where its member has one, is the page's.
pub open spec fn receiver_is(page: Page, m: MemberView) -> bool {
    receiver_role(m.hot) matches Some(role) ==> m.receiver == page(m.target, role)
}

/// Whether the operand of a task, where its member has a native for one, is the
/// page's.
pub open spec fn operand_is(page: Page, m: MemberView) -> bool {
    operand_of(m.hot) matches Operand::Native(role) ==> m.operand == page(
        operand_handle(m.args),
        role,
    )
}

/// Whether a task is on its way to the natives of a use, and has the page's where
/// it has found them.
spec fn on_its_way(page: Page, m: MemberView, t: TaskView) -> bool {
    &&& same_use(m, t.member)
    &&& countable(t)
    &&& match t.stage {
        Stage::Enter => true,
        Stage::Bridge(pos, After::Receiver) => pos != Pos::Context && receiver_role(m.hot) is Some
            && t.call == handle_call(m.target),
        Stage::UnwrapReceiver => receiver_role(m.hot) is Some,
        Stage::Bridge(pos, After::Operand) => pos != Pos::Context && operand_of(m.hot)
            != Operand::Absent && t.call == handle_call(operand_handle(m.args)) && receiver_is(
            page,
            t.member,
        ),
        Stage::UnwrapOperand => operand_of(m.hot) is Native && receiver_is(page, t.member),
        Stage::Operate => receiver_is(page, t.member) && operand_is(page, t.member),
        _ => false,
    }
}

proof fn lemma_finds(
    page: Page,
    m: MemberView,
    host: Option<RunnerView>,
    t: TaskView,
    event: Event<Seq<char>>,
)
    requires
        served_directly(m),
        on_its_way(page, m, t),
        t.stage != Stage::Operate,
        agrees(page, host),
        page_answers(page, t, event),
    ensures
        on_its_way(page, m, step(host, t, event).task),
        agrees(page, step(host, t, event).host),
{
    reveal(attempt);
    reveal(found_receiver);
    reveal(find_operand);
    reveal(settle);
    match t.stage {
        Stage::UnwrapReceiver => {
            let role = receiver_role(m.hot)->0;
            lemma_found_agrees(page, host, m.target, role);
            match operand_of(m.hot) {
                Operand::Native(second) => {
                    let now = resolved(host, m.target, role, page(m.target, role));
                    let found = native_of(now, operand_handle(m.args), second);
                    assert(found == 0 || found == page(operand_handle(m.args), second));
                },
                _ => {},
            }
        },
        Stage::UnwrapOperand => {
            lemma_found_agrees(page, host, operand_handle(m.args), operand_of(m.hot)->Native_0);
        },
        _ => {},
    }
}

proof fn lemma_found_agrees(page: Page, host: Option<RunnerView>, handle: i64, role: Role)
    requires
        agrees(page, host),
    ensures
        agrees(page, resolved(host, handle, role, page(handle, role))),
{
    let now = resolved(host, handle, role, page(handle, role));
    assert forall|h: i64, r: Role|
        {
            let kept = #[trigger] native_of(now, h, r);
            kept == 0 || kept == page(h, r)
        } by {
        law_found_native_is_kept(host->0, handle, role, page(handle, role), h, r);
        let before = native_of(host, h, r);
        assert(before == 0 || before == page(h, r));
    }
}

proof fn lemma_faithful(page: Page, first: TaskView, world: World, n: nat)
    requires
        faithful(page, first, world),
    ensures
        agrees(page, world(n).0),
        page_answers(page, run(first, world, n), world(n).1),
{
    reveal(faithful);
    assert(agrees(page, world(n).0));
}

proof fn lemma_arrives(page: Page, m: MemberView, first: TaskView, world: World, n: nat)
    requires
        served_directly(m),
        faithful(page, first, world),
        on_its_way(page, m, run(first, world, n)),
    ensures
        exists|k: nat|
            k >= n && (#[trigger] run(first, world, k)).stage == Stage::Operate && on_its_way(
                page,
                m,
                run(first, world, k),
            ),
    decreases phase(run(first, world, n).stage), remaining(run(first, world, n)),
{
    let now = run(first, world, n);
    if now.stage != Stage::Operate {
        let (host, event) = world(n);
        lemma_faithful(page, first, world, n);
        lemma_finds(page, m, host, now, event);
        law_step_makes_progress(host, now, event);
        assert(run(first, world, n + 1) == step(host, now, event).task);
        lemma_arrives(page, m, first, world, n + 1);
    }
}

/// A handle gives back its object: in a page that answers for its handles, a use
/// that the direct tier covers, with arguments that fit, comes to its operation, on
/// the very native that the page has behind the receiver's handle, and with the one
/// behind the operand's, kept or not.
pub proof fn law_handle_gives_back_its_object(
    page: Page,
    host: Option<RunnerView>,
    m: MemberView,
    world: World,
)
    requires
        served_directly(m),
        m.args.len() + 4 <= usize::MAX,
        m.access == Access::Write ==> m.args.len() > 0,
        faithful(page, start_member(host, m).task, world),
    ensures
        exists|n: nat|
            {
                let now = #[trigger] run(start_member(host, m).task, world, n);
                &&& now.stage == Stage::Operate
                &&& same_use(m, now.member)
                &&& receiver_is(page, now.member)
                &&& operand_is(page, now.member)
            },
{
    let first = start_member(host, m).task;
    assert(first.stage == Stage::Enter);
    assert(run(first, world, 0) == first);
    lemma_arrives(page, m, first, world, 0);
    let k = choose|k: nat|
        k >= 0 && (#[trigger] run(first, world, k)).stage == Stage::Operate && on_its_way(
            page,
            m,
            run(first, world, k),
        );
    assert(run(first, world, k).stage == Stage::Operate);
}

/// What a page that answers for its handles gives, the host keeps as the page has
/// it: keeping the native that the page has behind a handle leaves the kept natives
/// in agreement with the page, and so does registering a created object under the
/// handle that the page has it behind.
pub proof fn law_kept_natives_agree_with_the_page(
    page: Page,
    host: Option<RunnerView>,
    hot: Hot,
    handle: i64,
    native: usize,
    node: usize,
    role: Role,
)
    requires
        agrees(page, host),
        created_role(hot) matches Some(made) ==> page(handle, made) == native,
        hot == Hot::CreateElement ==> page(handle, Role::Node) == node,
    ensures
        agrees(page, created(host, hot, handle, native, node)),
        agrees(page, resolved(host, handle, role, page(handle, role))),
{
    lemma_found_agrees(page, host, handle, role);
    match created_role(hot) {
        Some(made) => {
            lemma_found_agrees(page, host, handle, made);
            lemma_found_agrees(
                page,
                resolved(host, handle, made, page(handle, made)),
                handle,
                Role::Node,
            );
        },
        None => {},
    }
}

/// An object keeps its handle: where the page gives the same answer for registering
/// it again, in another host call and whatever became of the host meanwhile, the
/// reply is the same, the handle that the answer reads as.
pub proof fn law_object_keeps_its_handle(
    first_host: Option<RunnerView>,
    first: TaskView,
    first_made: After,
    again_host: Option<RunnerView>,
    again: TaskView,
    again_made: After,
    bits: u64,
)
    requires
        first_made is Register,
        again_made is Register,
        as_i64(bits) >= 0,
    ensures
        ({
            let answer = CallResult::Value(JsValue::Number(bits));
            let one = settle(first_host, first, first_made, answer).action;
            let two = settle(again_host, again, again_made, answer).action;
            &&& one == two
            &&& one == Action::Finish(Outcome::Reply(Reply::Ref(as_double(as_i64(bits) as int))))
        }),
{
    reveal(settle);
}

/// A handle of at most 2^53 that the engine was replied comes back from it as the
/// same handle.
pub proof fn law_handle_comes_back(handle: i64)
    requires
        0 <= handle <= 0x20_0000_0000_0000,
    ensures
        as_i64(as_double(handle as int)) == handle,
{
    lemma_nearest_fits(handle as int);
    law_integers_round_trip(handle as int, as_double(handle as int));
}

// ---- calls of the bridge ---------------------------------------------------

/// Whether the world lets a call of a bridge method come as far as some steps,
/// whatever it does to the host meanwhile.
pub open spec fn willing(world: World, steps: nat) -> bool {
    forall|i: nat|
        i < steps ==> (#[trigger] world(i)).1 == (if i == 1 {
            Event::<Seq<char>>::Fetched(true, true)
        } else {
            Event::Flag(true)
        })
}

/// A bridge method is called with exactly the values that it is to be passed, in
/// order, whatever other host calls do to the host in between: after the context
/// and the bridge, the values are added one by one, and only once all are added is
/// the method called.
pub proof fn law_bridge_method_gets_its_arguments(
    host: Option<RunnerView>,
    t: TaskView,
    call: CallView,
    after: After,
    world: World,
    n: nat,
)
    requires
        call.args.len() <= usize::MAX,
        n <= call.args.len(),
        willing(world, n + 2),
    ensures
        ({
            let now = run(call_bridge(host, t, call, after).task, world, n + 2);
            &&& now.call == call
            &&& n < call.args.len() ==> argument(now) == Some(call.args[n as int])
            &&& n < call.args.len() ==> now.stage == Stage::Bridge(Pos::Push(n as usize), after)
            &&& n == call.args.len() ==> now.stage == Stage::Bridge(Pos::Invoke, after)
        }),
    decreases n,
{
    let first = call_bridge(host, t, call, after).task;
    assert(world(0).1 == Event::<Seq<char>>::Flag(true));
    assert(world(1).1 == Event::<Seq<char>>::Fetched(true, true));
    reveal_with_fuel(run, 3);
    if n > 0 {
        law_bridge_method_gets_its_arguments(host, t, call, after, world, (n - 1) as nat);
        let (h, event) = world((n + 1) as nat);
        assert(event == Event::<Seq<char>>::Flag(true));
        assert(run(first, world, n + 2) == step(h, run(first, world, (n + 1) as nat), event).task);
    }
}

/// Where a bridge method cannot be reached, the reply is the one that stands for
/// none: an empty text, -1, the largest id, and a typed reply as it was; the host
/// keeps everything but its UTF-8 reply.
pub proof fn law_unreachable_bridge_replies_nothing(host: Option<RunnerView>, t: TaskView)
    ensures
        settle(host, t, After::Text, CallResult::Unreached) == finish(
            scratched(host, Seq::empty()),
            t,
            Outcome::Scratch,
        ),
        settle(host, t, After::Scalar, CallResult::Unreached) == finish(
            scratched(host, Seq::empty()),
            t,
            Outcome::Scratch,
        ),
        settle(host, t, After::Integer, CallResult::Unreached) == finish(
            host,
            t,
            Outcome::Integer((-1) as i64),
        ),
        settle(host, t, After::Narrow, CallResult::Unreached) == finish(
            host,
            t,
            Outcome::Narrow((-1) as i32),
        ),
        settle(host, t, After::Intern, CallResult::Unreached) == finish(
            host,
            t,
            Outcome::Id(u32::MAX),
        ),
        settle(host, t, After::Wide, CallResult::Unreached) == finish(
            host,
            t,
            Outcome::Reply(Reply::Untouched),
        ),
{
    reveal(settle);
    reveal(settle_wide);
}

/// A text that is replied in UTF-16 reads back as the same text.
pub proof fn law_wide_text_reads_back(r: RunnerView, text: Seq<char>)
    ensures
        decode16(widened(Some(r), text)->0.reply16) == text,
{
    law_utf16_round_trip(text);
}

/// Without a runner every host call but a drawing call is over at once.
pub proof fn law_no_runner_no_call(
    call: CallView,
    after: After,
    absent: Outcome,
    name: Seq<char>,
    access: Access,
    target: i64,
    id: u32,
    args: Seq<Arg16<Seq<u16>>>,
)
    ensures
        start_call(None, call, after, absent).action == Action::Finish(absent),
        start_intern(None, name).action == Action::Finish(Outcome::Id(u32::MAX)),
        start_member(None, member_use(None, access, target, id, args)).action == Action::Finish(
            Outcome::Reply(Reply::Untouched),
        ),
{
}

// ---- drawing ---------------------------------------------------------------

/// A drawing context whose native is kept is drawn on without asking the realm
/// for it, and the drawing call is then over without a reply.
pub proof fn law_kept_canvas_is_drawn_on(
    r: RunnerView,
    t: TaskView,
    op: Drawing,
    later: Option<RunnerView>,
    event: Event<Seq<char>>,
)
    requires
        native_of(Some(r), t.bind.target, Role::Canvas2d) != 0,
        drawing(t.bind) == Some(op),
    ensures
        ({
            let turn = find_canvas(Some(r), t);
            &&& turn.action == Action::Draw(native_of(Some(r), t.bind.target, Role::Canvas2d), op)
            &&& step(later, turn.task, event) == finish(
                later,
                turn.task,
                Outcome::Reply(Reply::Untouched),
            )
        }),
{
    reveal(find_canvas);
    reveal(found_canvas);
}

/// The work that a task asked for last, after some steps from a turn.
pub open spec fn asked(start: Turn, world: World, n: nat) -> Action {
    if n == 0 {
        start.action
    } else {
        let (host, event) = world((n - 1) as nat);
        step(host, run(start.task, world, (n - 1) as nat), event).action
    }
}

/// A drawing call on something else than a drawing context has its numbers
/// written out in order, each once, and then passes the target, the method's name
/// and all of them to the bridge, whatever other host calls do to the host in
/// between, as long as there is a runner once all are written.
pub proof fn law_numbers_are_written_in_order(
    host: Option<RunnerView>,
    t: TaskView,
    numbers: Seq<Seq<char>>,
    world: World,
    n: nat,
)
    requires
        t.bind.written.len() == 0,
        t.bind.argc == numbers.len(),
        n <= numbers.len(),
        forall|i: nat|
            i < n ==> (#[trigger] world(i)).1 == Event::<Seq<char>>::Formatted(numbers[i as int]),
        n == numbers.len() ==> (if n == 0 {
            host is Some
        } else {
            world((n - 1) as nat).0 is Some
        }),
    ensures
        ({
            let start = write_numbers(host, t);
            let now = run(start.task, world, n);
            let whole = BindView { written: numbers, ..t.bind };
            &&& now.bind == BindView { written: numbers.take(n as int), ..t.bind }
            &&& n < numbers.len() ==> now.stage == Stage::FormatNext
            &&& n < numbers.len() ==> asked(start, world, n) == Action::FormatNumber(
                coordinate(t.bind, n as int),
            )
            &&& n == numbers.len() ==> now.stage == Stage::Bridge(Pos::Context, After::Draw)
            &&& n == numbers.len() ==> now.call == CallView {
                method: Method::CallMember,
                args: text_args(bind_texts(whole)),
            }
        }),
    decreases n,
{
    let first = write_numbers(host, t).task;
    reveal(write_numbers);
    if n == 0 {
        assert(t.bind.written =~= numbers.take(0));
        if numbers.len() == 0 {
            assert(numbers =~= numbers.take(0));
        }
    } else {
        let before = run(first, world, (n - 1) as nat);
        let (h, event) = world((n - 1) as nat);
        law_numbers_are_written_in_order(host, t, numbers, world, (n - 1) as nat);
        assert(event == Event::<Seq<char>>::Formatted(numbers[n - 1]));
        assert(run(first, world, n) == step(h, before, event).task);
        assert(before.bind.written.push(numbers[n - 1]) =~= numbers.take(n as int));
        if n == numbers.len() {
            assert(numbers.take(n as int) =~= numbers);
        }
    }
}

/// The numbers that such a drawing call passes to the bridge read as exactly those
/// that were written out, as many and in order, where their texts hold no commas
/// and a single one is not empty.
pub proof fn law_drawn_numbers_read_back(b: BindView)
    requires
        forall|i: int| 0 <= i < b.written.len() ==> !(#[trigger] b.written[i]).contains(','),
        b.written.len() == 1 ==> b.written[0].len() > 0,
    ensures
        array_items(bind_texts(b)[2]) == b.written,
{
    law_array_parts_into_its_items(b.written);
}

/// A drawing call's numbers arrive as the numbers they were: where each number that
/// the call asks to be written out is given a text that parses to it, the array
/// passed to the bridge has exactly as many items as the call has numbers, and each
/// parses to the number at its position, zero where there is none.
pub proof fn law_drawn_numbers_parse_back(
    host: Option<RunnerView>,
    t: TaskView,
    numbers: Seq<Seq<char>>,
    world: World,
    parse: spec_fn(Seq<char>) -> Option<u64>,
)
    requires
        t.bind.written.len() == 0,
        t.bind.argc == numbers.len(),
        forall|i: nat|
            i < numbers.len() ==> (#[trigger] world(i)).1 == Event::<Seq<char>>::Formatted(
                numbers[i as int],
            ),
        numbers.len() == 0 ==> host is Some,
        numbers.len() > 0 ==> world((numbers.len() - 1) as nat).0 is Some,
        forall|i: int|
            0 <= i < numbers.len() ==> parse(#[trigger] numbers[i]) == Some(coordinate(t.bind, i)),
        forall|i: int| 0 <= i < numbers.len() ==> !(#[trigger] numbers[i]).contains(','),
        numbers.len() == 1 ==> numbers[0].len() > 0,
    ensures
        ({
            let start = write_numbers(host, t);
            let call = run(start.task, world, numbers.len()).call;
            let items = array_items(call.args[2]->Text_0);
            &&& forall|i: nat|
                i < numbers.len() ==> #[trigger] asked(start, world, i) == Action::FormatNumber(
                    coordinate(t.bind, i as int),
                )
            &&& call.method == Method::CallMember
            &&& call.args.len() == 3
            &&& call.args[2] is Text
            &&& items.len() == t.bind.argc
            &&& forall|i: int|
                0 <= i < items.len() ==> parse(#[trigger] items[i]) == Some(coordinate(t.bind, i))
        }),
{
    let start = write_numbers(host, t);
    assert forall|i: nat| i < numbers.len() implies #[trigger] asked(start, world, i)
        == Action::FormatNumber(coordinate(t.bind, i as int)) by {
        law_numbers_are_written_in_order(host, t, numbers, world, i);
    }
    law_numbers_are_written_in_order(host, t, numbers, world, numbers.len());
    law_drawn_numbers_read_back(BindView { written: numbers, ..t.bind });
}

}
