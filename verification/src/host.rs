//! The state that the host keeps for one thread.

use crate::hot::{classify, Hot};
use crate::natives::{unresolved, Natives, Role};
use crate::text::{encode16, to_utf16};
use std::collections::HashMap;
use vstd::prelude::*;

verus! {

broadcast use vstd::std_specs::hash::group_hash_axioms;

/// The runner of one engine context.
pub struct Runner {
    /// The address of the engine context; 0 while there is none.
    pub ctx: usize,
    /// The address of the page's global object.
    pub global: usize,
    /// Whether the bridge was evaluated in the page.
    pub bridge_ready: bool,
    /// The last reply in UTF-8. The engine reads it before its next host call.
    pub scratch: String,
    /// The last reply in UTF-16. The engine reads it before its next host call.
    pub reply16: Vec<u16>,
    /// The classification of each interned name, by its id.
    pub hot: Vec<Hot>,
    /// The natives found behind each handle.
    pub natives: HashMap<i64, Natives>,
}

/// What a runner holds.
#[verifier::ext_equal]
pub struct RunnerView {
    pub ctx: usize,
    pub global: usize,
    pub bridge_ready: bool,
    pub scratch: Seq<char>,
    pub reply16: Seq<u16>,
    pub hot: Seq<Hot>,
    pub natives: Map<i64, Natives>,
}

impl View for Runner {
    type V = RunnerView;

    open spec fn view(&self) -> RunnerView {
        RunnerView {
            ctx: self.ctx,
            global: self.global,
            bridge_ready: self.bridge_ready,
            scratch: self.scratch@,
            reply16: self.reply16@,
            hot: self.hot@,
            natives: self.natives@,
        }
    }
}

/// The host of one thread: its runner, once there is one.
pub struct Host {
    pub runner: Option<Runner>,
}

impl View for Host {
    type V = Option<RunnerView>;

    open spec fn view(&self) -> Option<RunnerView> {
        match self.runner {
            Some(runner) => Some(runner@),
            None => None,
        }
    }
}

/// The classification kept for an id; an id that was never interned has none.
pub open spec fn hot_at(table: Seq<Hot>, id: u32) -> Hot {
    if id < table.len() {
        table[id as int]
    } else {
        Hot::Cold
    }
}

/// The table after a classification was kept for an id: long enough for the id,
/// and otherwise as it was.
pub open spec fn hot_set(table: Seq<Hot>, id: u32, hot: Hot) -> Seq<Hot> {
    Seq::new(
        if table.len() > id {
            table.len()
        } else {
            (id + 1) as nat
        },
        |i: int|
            if i == id {
                hot
            } else if i < table.len() {
                table[i]
            } else {
                Hot::Cold
            },
    )
}

/// The classification that a host keeps for an id.
pub open spec fn hot_of(host: Option<RunnerView>, id: u32) -> Hot {
    match host {
        Some(r) => hot_at(r.hot, id),
        None => Hot::Cold,
    }
}

/// The host after a name was interned under an id. The largest id stands for a
/// name that could not be interned, and is not kept.
pub open spec fn interned(host: Option<RunnerView>, name: Seq<char>, id: u32) -> Option<RunnerView> {
    match host {
        Some(r) => if id != u32::MAX {
            Some(RunnerView { hot: hot_set(r.hot, id, classify(name)), ..r })
        } else {
            host
        },
        None => None,
    }
}

/// The address kept for a handle in a role; 0 where there is none.
pub open spec fn native_at(natives: Map<i64, Natives>, handle: i64, role: Role) -> usize {
    if natives.contains_key(handle) {
        natives[handle].slot(role)
    } else {
        0
    }
}

/// The natives after an address was kept for a handle in a role.
pub open spec fn native_set(
    natives: Map<i64, Natives>,
    handle: i64,
    role: Role,
    address: usize,
) -> Map<i64, Natives> {
    natives.insert(
        handle,
        (if natives.contains_key(handle) {
            natives[handle]
        } else {
            unresolved()
        }).with_slot(role, address),
    )
}

/// The address that a host keeps for a handle in a role; 0 where there is none.
pub open spec fn native_of(host: Option<RunnerView>, handle: i64, role: Role) -> usize {
    match host {
        Some(r) => native_at(r.natives, handle, role),
        None => 0,
    }
}

/// The host after an address was kept for a handle in a role.
pub open spec fn resolved(
    host: Option<RunnerView>,
    handle: i64,
    role: Role,
    address: usize,
) -> Option<RunnerView> {
    match host {
        Some(r) => Some(
            RunnerView { natives: native_set(r.natives, handle, role, address), ..r },
        ),
        None => None,
    }
}

/// The host after a handle was released.
pub open spec fn released(host: Option<RunnerView>, handle: i64) -> Option<RunnerView> {
    match host {
        Some(r) => Some(RunnerView { natives: r.natives.remove(handle), ..r }),
        None => None,
    }
}

/// The host after a reply in UTF-8.
pub open spec fn scratched(host: Option<RunnerView>, text: Seq<char>) -> Option<RunnerView> {
    match host {
        Some(r) => Some(RunnerView { scratch: text, ..r }),
        None => None,
    }
}

/// The host after a reply in UTF-16.
pub open spec fn widened(host: Option<RunnerView>, text: Seq<char>) -> Option<RunnerView> {
    match host {
        Some(r) => Some(RunnerView { reply16: encode16(text), ..r }),
        None => None,
    }
}

impl Host {
    /// A host without a runner.
    pub fn new() -> (host: Host)
        ensures
            host@ is None,
    {
        Host { runner: None }
    }

    /// Whether there is a runner.
    pub fn running(&self) -> (r: bool)
        ensures
            r == self@ is Some,
    {
        match &self.runner {
            Some(_) => true,
            None => false,
        }
    }

    /// The classification kept for an interned id.
    pub fn hot_of(&self, id: u32) -> (hot: Hot)
        ensures
            hot == hot_of(self@, id),
    {
        match &self.runner {
            Some(r) => if (id as usize) < r.hot.len() {
                r.hot[id as usize]
            } else {
                Hot::Cold
            },
            None => Hot::Cold,
        }
    }

    /// Keeps the classification of a name under the id it was interned as.
    pub fn intern(&mut self, name: &str, id: u32)
        ensures
            final(self)@ == interned(old(self)@, name@, id),
    {
        let hot = crate::hot::classify_name(name);
        match &mut self.runner {
            Some(r) => if id != u32::MAX {
                keep(&mut r.hot, id, hot);
            },
            None => {},
        }
    }

    /// The address kept for a handle in a role; 0 where there is none.
    pub fn native(&self, handle: i64, role: Role) -> (address: usize)
        ensures
            address == native_of(self@, handle, role),
    {
        match &self.runner {
            Some(r) => match r.natives.get(&handle) {
                Some(n) => n.get(role),
                None => 0,
            },
            None => 0,
        }
    }

    /// Keeps an address for a handle in a role.
    pub fn resolve(&mut self, handle: i64, role: Role, address: usize)
        ensures
            final(self)@ == resolved(old(self)@, handle, role, address),
    {
        match &mut self.runner {
            Some(r) => {
                let mut natives: Natives = match r.natives.get(&handle) {
                    Some(n) => *n,
                    None => Natives::default(),
                };
                natives.set(role, address);
                r.natives.insert(handle, natives);
            },
            None => {},
        }
    }

    /// Forgets the natives behind a handle.
    pub fn release(&mut self, handle: i64)
        ensures
            final(self)@ == released(old(self)@, handle),
    {
        match &mut self.runner {
            Some(r) => {
                r.natives.remove(&handle);
                assert(r.natives@ =~= old(self)@->0.natives.remove(handle));
            },
            None => {},
        }
    }

    /// Holds a reply in UTF-8 for the engine to read.
    pub fn scratch(&mut self, text: String)
        ensures
            final(self)@ == scratched(old(self)@, text@),
    {
        match &mut self.runner {
            Some(r) => {
                r.scratch = text;
            },
            None => {},
        }
    }

    /// Holds a reply in UTF-16 for the engine to read.
    pub fn fill_str16(&mut self, text: &str)
        ensures
            final(self)@ == widened(old(self)@, text@),
    {
        match &mut self.runner {
            Some(r) => {
                r.reply16 = to_utf16(text);
            },
            None => {},
        }
    }
}

/// Keeps a classification for an id.
fn keep(table: &mut Vec<Hot>, id: u32, hot: Hot)
    ensures
        final(table)@ == hot_set(old(table)@, id, hot),
{
    let at: usize = id as usize;
    let ghost before = table@;
    while table.len() <= at
        invariant
            at == id,
            before.len() <= table@.len(),
            table@.len() == before.len() || table@.len() <= id + 1,
            forall|i: int| 0 <= i < before.len() ==> table@[i] == before[i],
            forall|i: int| before.len() <= i < table@.len() ==> table@[i] == Hot::Cold,
        decreases at + 1 - table@.len(),
    {
        table.push(Hot::Cold);
    }
    table[at] = hot;
    assert(table@ =~= hot_set(before, id, hot));
}

}
