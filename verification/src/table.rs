//! What the host offers the engine besides the web: which hooks there are, the
//! capabilities, the clock and the printer.

use crate::host::Host;
use crate::text::{array_items, joined, json_array, law_array_parts_into_its_items};
use vstd::prelude::*;

verus! {

/// Which hooks the host offers. What it does not offer, the engine does without
/// or brings about through the others.
#[derive(Clone, Copy, Debug, PartialEq, Eq, Structural)]
pub struct HostTable {
    /// prints a line
    pub print: bool,
    /// prints a line at a level
    pub print_level: bool,
    /// reports an error
    pub error: bool,
    /// gives the capabilities
    pub caps: bool,
    /// gives a global object
    pub web_global: bool,
    /// reads a property by name
    pub web_get: bool,
    /// writes a property by name
    pub web_set: bool,
    /// calls a method by name
    pub web_call: bool,
    /// calls a constructor by name
    pub web_new: bool,
    /// gives the items of an iterable
    pub web_iterate: bool,
    /// tests an object against a constructor
    pub web_instanceof: bool,
    /// lets go of a handle
    pub web_release: bool,
    /// reads bytes
    pub web_bytes_read: bool,
    /// writes bytes
    pub web_bytes_write: bool,
    /// gives the time
    pub time_ms: bool,
    /// gives random bytes
    pub random_bytes: bool,
    /// writes an element's text
    pub dom_set_text: bool,
    /// reads an element's text
    pub dom_get_text: bool,
    /// adds a listener
    pub dom_add_listener: bool,
    /// interns a name
    pub web_intern: bool,
    /// reads a property by id
    pub web_get_id: bool,
    /// writes a string property by id
    pub web_set_str: bool,
    /// writes a number property by id
    pub web_set_num: bool,
    /// calls a method by id with a string
    pub web_call_str: bool,
    /// calls a method by id with scalars
    pub web_call_scalars: bool,
    /// calls a constructor by id with scalars
    pub web_new_scalars: bool,
    /// reads a property, with a typed reply
    pub web_get_u16: bool,
    /// writes a property, with a typed reply
    pub web_set_u16: bool,
    /// calls a method, with a typed reply
    pub web_call_u16: bool,
    /// calls a constructor, with a typed reply
    pub web_new_u16: bool,
    /// draws
    pub web_bind: bool,
}

/// The hooks that the host offers: the printer, the capabilities, the clock, and
/// the web by name, by id with scalars, by id with typed replies, and by binding.
pub open spec fn offered() -> HostTable {
    HostTable {
        print: true,
        print_level: false,
        error: false,
        caps: true,
        web_global: true,
        web_get: true,
        web_set: true,
        web_call: true,
        web_new: true,
        web_iterate: true,
        web_instanceof: true,
        web_release: true,
        web_bytes_read: false,
        web_bytes_write: false,
        time_ms: true,
        random_bytes: false,
        dom_set_text: false,
        dom_get_text: false,
        dom_add_listener: false,
        web_intern: true,
        web_get_id: true,
        web_set_str: false,
        web_set_num: false,
        web_call_str: true,
        web_call_scalars: true,
        web_new_scalars: true,
        web_get_u16: true,
        web_set_u16: true,
        web_call_u16: true,
        web_new_u16: true,
        web_bind: true,
    }
}

/// Says which hooks the host offers.
pub fn host_table() -> (table: HostTable)
    ensures
        table == offered(),
{
    HostTable {
        print: true,
        print_level: false,
        error: false,
        caps: true,
        web_global: true,
        web_get: true,
        web_set: true,
        web_call: true,
        web_new: true,
        web_iterate: true,
        web_instanceof: true,
        web_release: true,
        web_bytes_read: false,
        web_bytes_write: false,
        time_ms: true,
        random_bytes: false,
        dom_set_text: false,
        dom_get_text: false,
        dom_add_listener: false,
        web_intern: true,
        web_get_id: true,
        web_set_str: false,
        web_set_num: false,
        web_call_str: true,
        web_call_scalars: true,
        web_new_scalars: true,
        web_get_u16: true,
        web_set_u16: true,
        web_call_u16: true,
        web_new_u16: true,
        web_bind: true,
    }
}

/// The capabilities granted to the engine, as JSON: the whole web surface is
/// reachable, and the engine still gates each interface by import.
pub open spec fn capabilities() -> Seq<char> {
    "[\"dom\",\"web\",\"time\",\"random\",\"net\",\"storage\"]"@
}

/// `caps`: gives the capabilities granted to the engine.
pub fn host_caps() -> (caps: &'static str)
    ensures
        caps@ == capabilities(),
{
    "[\"dom\",\"web\",\"time\",\"random\",\"net\",\"storage\"]"
}

/// A clock.
#[derive(Clone, Copy, Debug, PartialEq, Eq, Structural)]
pub enum Clock {
    /// the time since the epoch
    Wall,
    /// the time since the runner was created
    Runner,
    /// no time at all
    Stopped,
}

/// The clock that a time is read from: the wall clock where the engine asks for
/// it, and else the runner's, which stands still while there is no runner.
pub open spec fn clock(running: bool, epoch: i32) -> Clock {
    if epoch != 0 {
        Clock::Wall
    } else if running {
        Clock::Runner
    } else {
        Clock::Stopped
    }
}

/// `time_ms`: chooses the clock to read.
pub fn host_time_ms(host: &Host, epoch: i32) -> (c: Clock)
    ensures
        c == clock(host@ is Some, epoch),
{
    if epoch != 0 {
        Clock::Wall
    } else if host.running() {
        Clock::Runner
    } else {
        Clock::Stopped
    }
}

/// A span of time, in seconds and nanoseconds.
#[derive(Clone, Copy, Debug, PartialEq, Eq, Structural)]
pub struct Time {
    pub secs: u64,
    pub nanos: u32,
}

/// No time at all.
pub open spec fn no_time() -> Time {
    Time { secs: 0, nanos: 0 }
}

/// Whether a span of time is at most as long as another.
pub open spec fn no_longer(a: Time, b: Time) -> bool {
    a.secs < b.secs || (a.secs == b.secs && a.nanos <= b.nanos)
}

/// What a clock shows, by the time since the epoch, which there is none of before
/// it, and the time since the runner was created.
pub open spec fn shown(c: Clock, since_epoch: Option<Time>, since_start: Time) -> Time {
    match c {
        Clock::Wall => match since_epoch {
            Some(time) => time,
            None => no_time(),
        },
        Clock::Runner => since_start,
        Clock::Stopped => no_time(),
    }
}

impl Clock {
    /// Reads the clock.
    pub fn read(self, since_epoch: Option<Time>, since_start: Time) -> (time: Time)
        ensures
            time == shown(self, since_epoch, since_start),
    {
        match self {
            Clock::Wall => match since_epoch {
                Some(time) => time,
                None => Time { secs: 0, nanos: 0 },
            },
            Clock::Runner => since_start,
            Clock::Stopped => Time { secs: 0, nanos: 0 },
        }
    }
}

/// The time that the engine is told never runs backwards where it does not ask for
/// the wall clock: it stands at zero without a runner, and then grows with the time
/// since the runner was created.
pub proof fn law_time_never_runs_backwards(
    running: bool,
    still: bool,
    first_epoch: Option<Time>,
    first: Time,
    later_epoch: Option<Time>,
    later: Time,
)
    requires
        running ==> still,
        no_longer(first, later),
    ensures
        no_longer(
            shown(clock(running, 0), first_epoch, first),
            shown(clock(still, 0), later_epoch, later),
        ),
{
}

/// The bytes to write for a line.
pub open spec fn line(text: Seq<u8>) -> Seq<u8> {
    text.push(10)
}

/// `print`: the bytes to write for a line.
pub fn host_print(text: &[u8]) -> (bytes: Vec<u8>)
    ensures
        bytes@ == text@.push(10),
        bytes@ == line(text@),
{
    let mut line: Vec<u8> = Vec::new();
    for i in 0..text.len()
        invariant
            line@ == text@.take(i as int),
    {
        line.push(text[i]);
    }
    line.push(10);
    assert(line@ =~= text@.push(10));
    line
}

/// The line that is written for a text is the text and then one newline.
pub proof fn law_lines_end_in_a_newline(text: Seq<u8>)
    ensures
        line(text).drop_last() == text,
        line(text).last() == 0x0a,
        line(text).len() == text.len() + 1,
{
    assert(line(text).drop_last() =~= text);
}

/// The wall clock is read for every epoch but zero, with or without a runner, and
/// shows the time since the epoch; else the runner's clock is read, which shows the
/// time since it was created, and nothing without a runner.
pub proof fn law_clocks_show_their_time(
    running: bool,
    epoch: i32,
    since_epoch: Time,
    since_start: Time,
)
    ensures
        epoch != 0 ==> shown(clock(running, epoch), Some(since_epoch), since_start) == since_epoch,
        epoch != 0 ==> shown(clock(running, epoch), None, since_start) == (Time {
            secs: 0,
            nanos: 0,
        }),
        running ==> shown(clock(running, 0), Some(since_epoch), since_start) == since_start,
        running ==> shown(clock(running, 0), None, since_start) == since_start,
        !running ==> shown(clock(running, 0), Some(since_epoch), since_start) == (Time {
            secs: 0,
            nanos: 0,
        }),
{
}

/// The capabilities are an array of six names in quotation marks: the document, the
/// web, time, random numbers, the network and storage.
pub proof fn law_capabilities_are_granted()
    ensures
        array_items(capabilities()) == seq![
            "\"dom\""@,
            "\"web\""@,
            "\"time\""@,
            "\"random\""@,
            "\"net\""@,
            "\"storage\""@,
        ],
{
    let items = seq![
        "\"dom\""@,
        "\"web\""@,
        "\"time\""@,
        "\"random\""@,
        "\"net\""@,
        "\"storage\""@,
    ];
    reveal_strlit("[\"dom\",\"web\",\"time\",\"random\",\"net\",\"storage\"]");
    reveal_strlit("\"dom\"");
    reveal_strlit("\"web\"");
    reveal_strlit("\"time\"");
    reveal_strlit("\"random\"");
    reveal_strlit("\"net\"");
    reveal_strlit("\"storage\"");
    assert(items.drop_last().drop_last().drop_last().drop_last().drop_last() =~= items.take(1));
    assert(items.drop_last().drop_last().drop_last().drop_last() =~= items.take(2));
    assert(items.drop_last().drop_last().drop_last() =~= items.take(3));
    assert(items.drop_last().drop_last() =~= items.take(4));
    assert(items.drop_last() =~= items.take(5));
    reveal_with_fuel(joined, 7);
    assert(json_array(items) =~= capabilities());
    assert forall|i: int| 0 <= i < items.len() implies !(#[trigger] items[i]).contains(',') by {
        assert(i == 0 || i == 1 || i == 2 || i == 3 || i == 4 || i == 5);
        assert forall|j: int| 0 <= j < items[i].len() implies items[i][j] != ',' by {}
    }
    law_array_parts_into_its_items(items);
}

/// What the host offers and what it does not: the web by name, by id with scalars,
/// by id with typed replies and by binding, the printer, the capabilities and the
/// clock; and no levels, no errors, no bytes, no random bytes, no listeners and
/// texts of elements, and no writes of scalars, which go through the other hooks.
pub proof fn law_table_offers_the_web()
    ensures
        ({
            let t = offered();
            &&& t.print && t.caps && t.time_ms
            &&& t.web_global && t.web_get && t.web_set && t.web_call && t.web_new && t.web_iterate
            &&& t.web_instanceof && t.web_release
            &&& t.web_intern && t.web_get_id && t.web_call_str && t.web_call_scalars
                && t.web_new_scalars
            &&& t.web_get_u16 && t.web_set_u16 && t.web_call_u16 && t.web_new_u16
            &&& t.web_bind
            &&& !t.print_level && !t.error && !t.web_bytes_read && !t.web_bytes_write
            &&& !t.random_bytes && !t.dom_set_text && !t.dom_get_text && !t.dom_add_listener
            &&& !t.web_set_str && !t.web_set_num
        }),
{
}

}
