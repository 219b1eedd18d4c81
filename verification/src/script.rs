//! Running a script: setting up the engine once per thread and the bridge once
//! per engine, the console, and calls from the page into the engine.

use crate::host::{hot_of, native_of, Host, Runner, RunnerView};
use crate::hot::Hot;
use crate::natives::Role;
use crate::number::{as_u32, to_u32};
use crate::text::{array_items, characters, double_percents, doubled, from_utf8_lossy, json_array, law_array_parts_into_its_items, law_doubled_prints_as_itself, printed, text_of, utf8_lossy};
use std::collections::HashMap;
use vstd::prelude::*;
use vstd::utf8::{decode_utf8, valid_utf8};

verus! {

// ---- running a script ------------------------------------------------------

/// The work to be done to run a script, piece by piece.
#[derive(Clone, Copy, Debug, PartialEq, Eq, Structural)]
pub enum Launch {
    /// Create the engine context.
    CreateContext,
    /// Define the function through which the page invokes a closure.
    DefineInvoke,
    /// Define the console function.
    DefineRepl,
    /// Evaluate the bridge.
    EvaluateBridge,
    /// Run the script in the engine.
    Run,
    /// Nothing more is to be done.
    Stop,
}

/// A script on its way: its page, its source, and the work that comes next.
pub struct Script {
    pub global: usize,
    pub source: String,
    pub next: Launch,
}

/// What a script on its way consists of.
#[verifier::ext_equal]
pub struct ScriptView {
    pub global: usize,
    pub source: Seq<char>,
    pub next: Launch,
}

impl View for Script {
    type V = ScriptView;

    open spec fn view(&self) -> ScriptView {
        ScriptView { global: self.global, source: self.source@, next: self.next }
    }
}

/// What the engine is to run: in which engine context, with the entry settings of
/// which page for the whole run, and which source.
pub struct Order<'a> {
    pub engine: usize,
    pub entry: usize,
    pub source: &'a str,
}

/// What an order consists of.
#[verifier::ext_equal]
pub struct OrderView {
    pub engine: usize,
    pub entry: usize,
    pub source: Seq<char>,
}

impl<'a> View for Order<'a> {
    type V = OrderView;

    open spec fn view(&self) -> OrderView {
        OrderView { engine: self.engine, entry: self.entry, source: self.source@ }
    }
}

/// A runner without an engine context, for a page.
pub open spec fn new_runner(global: usize) -> RunnerView {
    RunnerView {
        ctx: 0,
        global,
        bridge_ready: false,
        scratch: Seq::empty(),
        reply16: Seq::empty(),
        hot: Seq::empty(),
        natives: Map::empty(),
    }
}

/// The host with a runner for a page: the one that there is, or a new one.
pub open spec fn ensured(host: Option<RunnerView>, global: usize) -> Option<RunnerView> {
    match host {
        Some(r) => Some(RunnerView { global, ..r }),
        None => Some(new_runner(global)),
    }
}

/// The host after its engine context was created.
pub open spec fn contextual(host: Option<RunnerView>, ctx: usize) -> Option<RunnerView> {
    match host {
        Some(r) => Some(RunnerView { ctx, ..r }),
        None => None,
    }
}

/// The host after the bridge was evaluated.
pub open spec fn bridged(host: Option<RunnerView>) -> Option<RunnerView> {
    match host {
        Some(r) => Some(RunnerView { bridge_ready: true, ..r }),
        None => None,
    }
}

/// What is to be done once there is a runner. Without an engine context, which
/// may not have come into being, nothing is.
pub open spec fn next_launch(host: Option<RunnerView>) -> Launch {
    match host {
        Some(r) => if r.ctx == 0 {
            Launch::Stop
        } else if r.bridge_ready {
            Launch::Run
        } else {
            Launch::DefineInvoke
        },
        None => Launch::Stop,
    }
}

/// What is to be done first.
pub open spec fn first_launch(host: Option<RunnerView>, global: usize) -> Launch {
    match host {
        Some(r) => next_launch(ensured(host, global)),
        None => Launch::CreateContext,
    }
}

/// A script as it starts.
pub open spec fn started(host: Option<RunnerView>, global: usize, source: Seq<char>) -> ScriptView {
    ScriptView { global, source, next: first_launch(host, global) }
}

/// What the engine is to run for a script, while it is to be run.
pub open spec fn order(host: Option<RunnerView>, script: ScriptView) -> Option<OrderView> {
    match host {
        Some(r) => if script.next == Launch::Run {
            Some(OrderView { engine: r.ctx, entry: script.global, source: script.source })
        } else {
            None
        },
        None => None,
    }
}

/// The host after a piece of work, which gave an address where it was to create
/// the engine context.
pub open spec fn launched_host(host: Option<RunnerView>, done: Launch, ctx: usize) -> Option<
    RunnerView,
> {
    match done {
        Launch::CreateContext => contextual(host, ctx),
        Launch::EvaluateBridge => bridged(host),
        _ => host,
    }
}

/// What is to be done after a piece of work.
pub open spec fn launched_next(host: Option<RunnerView>, done: Launch, ctx: usize) -> Launch {
    match done {
        Launch::CreateContext => next_launch(contextual(host, ctx)),
        Launch::DefineInvoke => Launch::DefineRepl,
        Launch::DefineRepl => Launch::EvaluateBridge,
        Launch::EvaluateBridge => Launch::Run,
        Launch::Run => Launch::Stop,
        Launch::Stop => Launch::Stop,
    }
}

impl Host {
    /// What is to be done once there is a runner.
    fn next_launch(&self) -> (next: Launch)
        ensures
            next == next_launch(self@),
    {
        match &self.runner {
            Some(r) => if r.ctx == 0 {
                Launch::Stop
            } else if r.bridge_ready {
                Launch::Run
            } else {
                Launch::DefineInvoke
            },
            None => Launch::Stop,
        }
    }

    /// Makes sure that there is a runner for a page, and says whether it is new.
    pub fn ensure_runner(&mut self, global: usize) -> (fresh: bool)
        ensures
            final(self)@ == ensured(old(self)@, global),
            fresh == old(self)@ is None,
    {
        match &mut self.runner {
            Some(r) => {
                r.global = global;
                return false;
            },
            None => {},
        }
        let runner = Runner {
            ctx: 0,
            global,
            bridge_ready: false,
            scratch: String::new(),
            reply16: Vec::new(),
            hot: Vec::new(),
            natives: HashMap::new(),
        };
        assert(runner@ =~= new_runner(global));
        self.runner = Some(runner);
        true
    }

    /// Starts running a script in a page.
    pub fn run_mersey_script(&mut self, global: usize, source: &str) -> (script: Script)
        ensures
            final(self)@ == ensured(old(self)@, global),
            script@ == started(old(self)@, global, source@),
    {
        let next = if self.ensure_runner(global) {
            Launch::CreateContext
        } else {
            self.next_launch()
        };
        Script { global, source: source.to_owned(), next }
    }

    /// Goes on after a piece of work, which gave an address where it was to create
    /// the engine context.
    pub fn launched(&mut self, script: &mut Script, ctx: usize)
        ensures
            final(self)@ == launched_host(old(self)@, old(script)@.next, ctx),
            final(script)@ == (ScriptView {
                next: launched_next(old(self)@, old(script)@.next, ctx),
                ..old(script)@
            }),
    {
        match script.next {
            Launch::CreateContext => {
                match &mut self.runner {
                    Some(r) => {
                        r.ctx = ctx;
                    },
                    None => {},
                }
                script.next = self.next_launch();
            },
            Launch::DefineInvoke => {
                script.next = Launch::DefineRepl;
            },
            Launch::DefineRepl => {
                script.next = Launch::EvaluateBridge;
            },
            Launch::EvaluateBridge => {
                match &mut self.runner {
                    Some(r) => {
                        r.bridge_ready = true;
                    },
                    None => {},
                }
                script.next = Launch::Run;
            },
            Launch::Run => {
                script.next = Launch::Stop;
            },
            Launch::Stop => {},
        }
    }

    /// What the engine is to run, while a script is to be run.
    pub fn order<'a>(&self, script: &'a Script) -> (o: Option<Order<'a>>)
        ensures
            o is Some <==> order(self@, script@) is Some,
            o matches Some(given) ==> order(self@, script@) == Some(given@),
    {
        match (&self.runner, script.next) {
            (Some(r), Launch::Run) => Some(
                Order { engine: r.ctx, entry: script.global, source: script.source.as_str() },
            ),
            _ => None,
        }
    }
}

/// How much work there can be left, at most.
pub open spec fn work_left(next: Launch) -> nat {
    match next {
        Launch::CreateContext => 5,
        Launch::DefineInvoke => 4,
        Launch::DefineRepl => 3,
        Launch::EvaluateBridge => 2,
        Launch::Run => 1,
        Launch::Stop => 0,
    }
}

/// A piece of work as it is done: in which page, and what the engine is to run.
#[verifier::ext_equal]
pub struct Piece {
    pub launch: Launch,
    pub global: usize,
    pub order: Option<OrderView>,
}

/// The piece of work that sets something up in a page.
pub open spec fn set_up(launch: Launch, global: usize) -> Piece {
    Piece { launch, global, order: None }
}

/// The piece of work that runs a source in an engine, in a page.
pub open spec fn run_once(engine: usize, global: usize, source: Seq<char>) -> Piece {
    Piece {
        launch: Launch::Run,
        global,
        order: Some(OrderView { engine, entry: global, source }),
    }
}

/// The work that is done for a script from where it stands, in order, where
/// creating the engine context gives an address.
pub open spec fn script_work(host: Option<RunnerView>, script: ScriptView, ctx: usize) -> Seq<Piece>
    decreases work_left(script.next),
{
    if script.next == Launch::Stop {
        Seq::empty()
    } else {
        let piece = Piece {
            launch: script.next,
            global: script.global,
            order: order(host, script),
        };
        seq![piece] + script_work(
            launched_host(host, script.next, ctx),
            ScriptView { next: launched_next(host, script.next, ctx), ..script },
            ctx,
        )
    }
}

/// The host once that work is done.
pub open spec fn script_host(host: Option<RunnerView>, next: Launch, ctx: usize) -> Option<
    RunnerView,
>
    decreases work_left(next),
{
    if next == Launch::Stop {
        host
    } else {
        script_host(launched_host(host, next, ctx), launched_next(host, next, ctx), ctx)
    }
}

/// The work that the first script of a thread has to be set up with.
pub open spec fn setting_up(global: usize) -> Seq<Piece> {
    seq![
        set_up(Launch::CreateContext, global),
        set_up(Launch::DefineInvoke, global),
        set_up(Launch::DefineRepl, global),
        set_up(Launch::EvaluateBridge, global),
    ]
}

/// The first script of a thread creates the engine context, defines the two
/// functions, evaluates the bridge, and only then runs, as it was given; it leaves
/// a runner whose bridge is ready.
pub proof fn law_first_script_sets_up(global: usize, source: Seq<char>, ctx: usize)
    requires
        ctx != 0,
    ensures
        script_work(ensured(None, global), started(None, global, source), ctx) == setting_up(
            global,
        ).push(run_once(ctx, global, source)),
        script_host(ensured(None, global), first_launch(None, global), ctx) == Some(
            RunnerView { ctx, bridge_ready: true, ..new_runner(global) },
        ),
{
    reveal_with_fuel(script_work, 6);
    reveal_with_fuel(script_host, 6);
    assert(script_work(ensured(None, global), started(None, global, source), ctx) =~= setting_up(
        global,
    ).push(run_once(ctx, global, source)));
}

/// A later script only runs, as it was given and in the same engine: the engine
/// context is created once per thread and the bridge evaluated once, and nothing
/// of the runner changes but the page it is for.
pub proof fn law_later_script_only_runs(
    r: RunnerView,
    global: usize,
    source: Seq<char>,
    ctx: usize,
)
    requires
        r.ctx != 0,
        r.bridge_ready,
    ensures
        script_work(ensured(Some(r), global), started(Some(r), global, source), ctx) == seq![
            run_once(r.ctx, global, source),
        ],
        script_host(ensured(Some(r), global), first_launch(Some(r), global), ctx) == Some(
            RunnerView { global, ..r },
        ),
{
    reveal_with_fuel(script_work, 2);
    reveal_with_fuel(script_host, 2);
    assert(script_work(ensured(Some(r), global), started(Some(r), global, source), ctx) =~= seq![
        run_once(r.ctx, global, source),
    ]);
}

/// A script that finds an engine but no bridge sets the bridge up, without another
/// engine, and then runs.
pub proof fn law_missing_bridge_is_set_up(
    r: RunnerView,
    global: usize,
    source: Seq<char>,
    ctx: usize,
)
    requires
        r.ctx != 0,
        !r.bridge_ready,
    ensures
        script_work(ensured(Some(r), global), started(Some(r), global, source), ctx) == setting_up(
            global,
        ).drop_first().push(run_once(r.ctx, global, source)),
        script_host(ensured(Some(r), global), first_launch(Some(r), global), ctx) == Some(
            RunnerView { global, bridge_ready: true, ..r },
        ),
{
    reveal_with_fuel(script_work, 5);
    reveal_with_fuel(script_host, 5);
    assert(script_work(ensured(Some(r), global), started(Some(r), global, source), ctx)
        =~= setting_up(global).drop_first().push(run_once(r.ctx, global, source)));
}

/// The host after some scripts, each with its page, were run one after the other.
pub open spec fn session_host(scripts: Seq<(usize, Seq<char>)>, ctx: usize) -> Option<RunnerView>
    decreases scripts.len(),
{
    if scripts.len() == 0 {
        None
    } else {
        let before = session_host(scripts.drop_last(), ctx);
        let global = scripts.last().0;
        script_host(ensured(before, global), first_launch(before, global), ctx)
    }
}

/// The work that is done for them, in order.
pub open spec fn session_work(scripts: Seq<(usize, Seq<char>)>, ctx: usize) -> Seq<Piece>
    decreases scripts.len(),
{
    if scripts.len() == 0 {
        Seq::empty()
    } else {
        let before = session_host(scripts.drop_last(), ctx);
        let (global, source) = scripts.last();
        session_work(scripts.drop_last(), ctx) + script_work(
            ensured(before, global),
            started(before, global, source),
            ctx,
        )
    }
}

/// However many scripts a thread runs, everything is set up exactly once, by the
/// first and before it runs, and each script is run exactly once, in order, from
/// its own source, in the one engine, with the settings of its own page.
pub proof fn law_each_script_runs_once(scripts: Seq<(usize, Seq<char>)>, ctx: usize)
    requires
        ctx != 0,
        scripts.len() > 0,
    ensures
        session_work(scripts, ctx) == setting_up(scripts[0].0) + scripts.map_values(
            |s: (usize, Seq<char>)| run_once(ctx, s.0, s.1),
        ),
        session_host(scripts, ctx) is Some,
        session_host(scripts, ctx)->0.ctx == ctx,
        session_host(scripts, ctx)->0.bridge_ready,
    decreases scripts.len(),
{
    let run = |s: (usize, Seq<char>)| run_once(ctx, s.0, s.1);
    let init = scripts.drop_last();
    let (global, source) = scripts.last();
    if scripts.len() == 1 {
        law_first_script_sets_up(global, source, ctx);
        assert(session_host(init, ctx) is None);
        assert(session_work(init, ctx) =~= Seq::empty());
    } else {
        law_each_script_runs_once(init, ctx);
        law_later_script_only_runs(session_host(init, ctx)->0, global, source, ctx);
    }
    assert(session_work(scripts, ctx) =~= setting_up(scripts[0].0) + scripts.map_values(run));
}

/// Where the engine context does not come into being, nothing is defined,
/// evaluated or run, then or later.
pub proof fn law_no_engine_no_script(
    global: usize,
    source: Seq<char>,
    again: usize,
    other: Seq<char>,
)
    ensures
        script_work(ensured(None, global), started(None, global, source), 0) == seq![
            set_up(Launch::CreateContext, global),
        ],
        script_work(
            ensured(script_host(ensured(None, global), first_launch(None, global), 0), again),
            started(
                script_host(ensured(None, global), first_launch(None, global), 0),
                again,
                other,
            ),
            0,
        ) == Seq::<Piece>::empty(),
{
    reveal_with_fuel(script_work, 2);
    reveal_with_fuel(script_host, 2);
    assert(script_work(ensured(None, global), started(None, global, source), 0) =~= seq![
        set_up(Launch::CreateContext, global),
    ]);
}

// ---- the console -----------------------------------------------------------

/// How a console turn ends.
pub enum ReplEnd<S> {
    /// The turn has no value.
    Undefined,
    /// The turn was rejected: its diagnostics are thrown, as a format.
    Throw(S),
    /// The turn has a value, which is echoed.
    Echo(S),
}

impl View for ReplEnd<String> {
    type V = ReplEnd<Seq<char>>;

    open spec fn view(&self) -> ReplEnd<Seq<char>> {
        match self {
            ReplEnd::Undefined => ReplEnd::Undefined,
            ReplEnd::Throw(text) => ReplEnd::Throw(text@),
            ReplEnd::Echo(text) => ReplEnd::Echo(text@),
        }
    }
}

/// The message that diagnostics are thrown as: a format that prints them. A text
/// with a null character in it cannot be passed on, and the message is then empty.
pub open spec fn message(diagnostics: Seq<char>) -> Seq<char> {
    if diagnostics.contains('\0') {
        Seq::empty()
    } else {
        doubled(diagnostics)
    }
}

/// How a console turn ends, by the engine's reply: an exclamation mark starts the
/// diagnostics of a rejected turn.
pub open spec fn repl_end(text: Seq<char>) -> ReplEnd<Seq<char>> {
    if text.len() == 0 {
        ReplEnd::Undefined
    } else if text[0] == '!' {
        ReplEnd::Throw(message(text.drop_first()))
    } else {
        ReplEnd::Echo(text)
    }
}

impl Host {
    /// Whether a console call is a turn: there is a runner, and the call has a
    /// string for its first argument.
    pub fn repl_accepts(&self, argc: u32, first_is_string: bool) -> (r: bool)
        ensures
            r == (self@ is Some && argc >= 1 && first_is_string),
    {
        self.running() && argc >= 1 && first_is_string
    }

    /// Whether a call from the page invokes a closure: there is a runner, and the
    /// call has both its arguments.
    pub fn invoke_accepts(&self, argc: u32) -> (r: bool)
        ensures
            r == (self@ is Some && argc >= 2),
    {
        self.running() && argc >= 2
    }
}

/// A console turn: the engine context that takes it, and its source.
pub struct ReplTurn<'a> {
    pub engine: usize,
    pub source: &'a str,
}

/// A call of a closure: the engine context that has it, its id, and its arguments
/// as JSON.
pub struct Invocation {
    pub engine: usize,
    pub callback: u32,
    pub args: String,
}

/// The arguments of a call of a closure as JSON, which are none where the page gave
/// no string.
pub open spec fn invoke_args(args_json: Option<String>) -> Seq<char> {
    match args_json {
        Some(text) => text@,
        None => seq!['[', ']'],
    }
}

/// The turn that a console call takes: its engine and its source.
pub open spec fn console_turn(
    host: Option<RunnerView>,
    argc: u32,
    first: Option<Seq<char>>,
) -> Option<(usize, Seq<char>)> {
    match (host, first) {
        (Some(r), Some(source)) => if argc >= 1 {
            Some((r.ctx, source))
        } else {
            None
        },
        _ => None,
    }
}

/// The call of a closure that a call from the page makes: its engine, its id and its
/// arguments.
pub open spec fn closure_call(
    host: Option<RunnerView>,
    argc: u32,
    callback: u64,
    args_json: Option<Seq<char>>,
) -> Option<(usize, u32, Seq<char>)> {
    match host {
        Some(r) => if argc >= 2 {
            Some(
                (
                    r.ctx,
                    as_u32(callback),
                    match args_json {
                        Some(text) => text,
                        None => seq!['[', ']'],
                    },
                ),
            )
        } else {
            None
        },
        None => None,
    }
}

impl Host {
    /// The turn that a console call takes, by the number of its arguments and the
    /// first of them, where that is a string.
    pub fn repl_turn<'a>(&self, argc: u32, first: Option<&'a str>) -> (turn: Option<ReplTurn<'a>>)
        ensures
            turn is Some <==> self@ is Some && argc >= 1 && first is Some,
            turn matches Some(given) ==> given.engine == self@->0.ctx && given.source@
                == first->0@,
            console_turn(
                self@,
                argc,
                match first {
                    Some(text) => Some(text@),
                    None => None,
                },
            ) == match turn {
                Some(given) => Some((given.engine, given.source@)),
                None => None,
            },
    {
        if !self.repl_accepts(argc, first.is_some()) {
            return None;
        }
        match (&self.runner, first) {
            (Some(r), Some(source)) => Some(ReplTurn { engine: r.ctx, source }),
            _ => None,
        }
    }

    /// The call of a closure that a call from the page makes, by the number of its
    /// arguments, the first as a number and the second, where that is a string.
    pub fn invocation(&self, argc: u32, callback: u64, args_json: Option<String>) -> (call: Option<
        Invocation,
    >)
        ensures
            call is Some <==> self@ is Some && argc >= 2,
            call matches Some(given) ==> {
                &&& given.engine == self@->0.ctx
                &&& given.callback == as_u32(callback)
                &&& given.args@ == invoke_args(args_json)
            },
            closure_call(
                self@,
                argc,
                callback,
                match args_json {
                    Some(text) => Some(text@),
                    None => None,
                },
            ) == match call {
                Some(given) => Some((given.engine, given.callback, given.args@)),
                None => None,
            },
    {
        if !self.invoke_accepts(argc) {
            return None;
        }
        match &self.runner {
            Some(r) => {
                let (id, args) = mersey_invoke(callback, args_json);
                Some(Invocation { engine: r.ctx, callback: id, args })
            },
            None => None,
        }
    }
}

/// Ends a console turn by the text of the engine's reply.
pub fn end_repl(text: String) -> (end: ReplEnd<String>)
    ensures
        end@ == repl_end(text@),
{
    let chars = characters(text.as_str());
    if chars.len() == 0 {
        return ReplEnd::Undefined;
    }
    if chars[0] != '!' {
        return ReplEnd::Echo(text);
    }
    assert(chars@.skip(1) =~= text@.drop_first());
    for i in 1..chars.len()
        invariant
            chars@ == text@,
            chars@.len() > 0,
            chars@[0] == '!',
            chars@.skip(1) == text@.drop_first(),
            forall|j: int| 1 <= j < i ==> chars@[j] != '\0',
    {
        if chars[i] == '\0' {
            assert(text@.drop_first()[i - 1] == '\0');
            return ReplEnd::Throw(String::new());
        }
    }
    proof {
        let rest = text@.drop_first();
        assert forall|k: int| 0 <= k < rest.len() implies rest[k] != '\0' by {
            assert(rest[k] == chars@[k + 1]);
        }
    }
    ReplEnd::Throw(double_percents(&chars, 1))
}

/// Ends a console turn by the engine's reply; no reply reads as an empty one.
pub fn mersey_repl(reply: Option<&[u8]>) -> (end: ReplEnd<String>)
    ensures
        end@ == repl_end(
            match reply {
                Some(bytes) => utf8_lossy(bytes@),
                None => Seq::empty(),
            },
        ),
        reply matches Some(bytes) ==> valid_utf8(bytes@) ==> end@ == repl_end(decode_utf8(bytes@)),
{
    match reply {
        Some(bytes) => end_repl(from_utf8_lossy(bytes)),
        None => end_repl(String::new()),
    }
}

/// What a call from the page passes to the engine: the closure's id and its
/// arguments as JSON, which are none where the page gave no string.
pub fn mersey_invoke(callback: u64, args_json: Option<String>) -> (r: (u32, String))
    ensures
        r.0 == as_u32(callback),
        r.1@ == invoke_args(args_json),
{
    let id: u32 = to_u32(callback);
    match args_json {
        Some(text) => (id, text),
        None => {
            let none: Vec<char> = vec!['[', ']'];
            (id, text_of(&none))
        },
    }
}

/// A console turn is rejected if and only if the engine's reply starts with an
/// exclamation mark, and the message thrown then prints the rest of the reply as
/// it stands, unless a null character keeps it from being passed on.
pub proof fn law_rejected_turn_prints_diagnostics(text: Seq<char>)
    ensures
        repl_end(text) is Throw <==> text.len() > 0 && text[0] == '!',
        repl_end(text) is Throw && !text.drop_first().contains('\0') ==> printed(
            repl_end(text)->Throw_0,
        ) == text.drop_first(),
{
    if text.len() > 0 {
        law_doubled_prints_as_itself(text.drop_first());
    }
}

/// A console turn gives undefined if and only if the engine's reply is empty, and
/// every reply that is not empty and does not start with an exclamation mark is
/// echoed as exactly that reply. What is thrown is empty where a null character
/// keeps it from being passed on.
pub proof fn law_console_echoes_values(text: Seq<char>)
    ensures
        repl_end(text) is Undefined <==> text.len() == 0,
        text.len() > 0 && text[0] != '!' ==> repl_end(text) == ReplEnd::Echo(text),
        repl_end(text) is Echo ==> repl_end(text)->Echo_0 == text,
        text.len() > 0 && text[0] == '!' && text.drop_first().contains('\0') ==> repl_end(text)
            == ReplEnd::Throw(Seq::<char>::empty()),
{
}

/// Every script, console turn and closure of a thread goes to one and the same
/// engine: whatever two of them are taken, in whatever pages, their engines agree.
pub proof fn law_one_engine_serves_all(
    r: RunnerView,
    script: ScriptView,
    other: ScriptView,
    argc: u32,
    source: Seq<char>,
    callback: u64,
    args: Option<Seq<char>>,
)
    ensures
        order(Some(r), script) is Some && order(Some(r), other) is Some ==> order(
            Some(r),
            script,
        )->0.engine == order(Some(r), other)->0.engine,
        order(Some(r), script) is Some && argc >= 1 ==> console_turn(
            Some(r),
            argc,
            Some(source),
        ) == Some((order(Some(r), script)->0.engine, source)),
        order(Some(r), script) matches Some(given) ==> (closure_call(Some(r), argc, callback, args)
            matches Some(call) ==> call.0 == given.engine),
        console_turn(None, argc, Some(source)) is None,
        console_turn(Some(r), argc, None) is None,
        console_turn(Some(r), 0, Some(source)) is None,
        closure_call(None, argc, callback, args) is None,
        closure_call(Some(r), argc, callback, args) is Some <==> argc >= 2,
{
}

/// A closure is called by the id that the page's number reads as, with the JSON that
/// the page gave, and with an empty array where it gave none.
pub proof fn law_closures_get_their_arguments(
    r: RunnerView,
    argc: u32,
    callback: u64,
    args: Seq<char>,
)
    requires
        argc >= 2,
    ensures
        closure_call(Some(r), argc, callback, Some(args)) == Some((r.ctx, as_u32(callback), args)),
        closure_call(Some(r), argc, callback, None) == Some(
            (r.ctx, as_u32(callback), json_array(Seq::empty())),
        ),
        closure_call(Some(r), argc, callback, None) matches Some(call) && array_items(call.2).len()
            == 0,
{
    assert(json_array(Seq::empty()) =~= seq!['[', ']']);
    law_array_parts_into_its_items(Seq::empty());
}

/// A new runner knows nothing: no name, no native and no reply, and it has neither
/// an engine nor a bridge; and a page that comes later changes nothing but the page.
pub proof fn law_new_runner_knows_nothing(
    r: RunnerView,
    global: usize,
    id: u32,
    handle: i64,
    role: Role,
)
    ensures
        ensured(None, global) is Some,
        hot_of(ensured(None, global), id) == Hot::Cold,
        native_of(ensured(None, global), handle, role) == 0,
        ensured(None, global)->0.global == global,
        ensured(None, global)->0.ctx == 0,
        !ensured(None, global)->0.bridge_ready,
        ensured(None, global)->0.scratch.len() == 0,
        ensured(None, global)->0.reply16.len() == 0,
        ensured(Some(r), global) == Some(RunnerView { global, ..r }),
{
}

}
