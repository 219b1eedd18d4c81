use mersey_host::atoms::event_type;
use mersey_host::calls::{
    host_web_bind, host_web_call_u16, host_web_get_u16, host_web_new_u16, host_web_set_u16,
};
use mersey_host::canvas::{bind_method_name, Drawing};
use mersey_host::direct::Access;
use mersey_host::host::Host;
use mersey_host::hot::Hot;
use mersey_host::natives::Role;
use mersey_host::operation::Operation;
use mersey_host::protocol::{method_name, Arg16, DomResult, Field, JsArg, JsValue, Method, Reply};
use mersey_host::task::{Action, Event, Outcome, Task};
use stylo_atoms::Atom;

/// A page whose realm and document answer as they are told to.
struct Page {
    /// what a wide method returns
    wide: fn() -> Event<String>,
    handle_field: fn() -> Event<String>,
    json_field: fn() -> Event<String>,
    /// whether a handle names an object, and of what native
    object: bool,
    native: Option<usize>,
    dom: fn() -> DomResult<String>,
    registered: f64,
    context: bool,
    args: Vec<String>,
    log: Vec<String>,
}

fn nothing() -> Event<String> {
    Event::Returned(true, JsValue::Undefined)
}

fn done() -> DomResult<String> {
    DomResult::Done
}

fn failed() -> DomResult<String> {
    DomResult::Failed
}

fn created() -> DomResult<String> {
    DomResult::Created(640, 641)
}

impl Page {
    fn new() -> Page {
        Page {
            wide: nothing,
            handle_field: nothing,
            json_field: nothing,
            object: true,
            native: Some(64),
            dom: done,
            registered: 30.0,
            context: true,
            args: Vec::new(),
            log: Vec::new(),
        }
    }

    fn run(&mut self, host: &mut Host, start: (Task, Action)) -> Outcome {
        let (mut task, mut action) = start;
        loop {
            let event = match action {
                Action::Finish(outcome) => return outcome,
                Action::Context => Event::Flag(self.context),
                Action::FetchBridge => {
                    self.args.clear();
                    Event::Fetched(true, true)
                }
                Action::Push => {
                    self.args.push(match task.argument().unwrap() {
                        JsArg::Number(bits) => format!("{}", f64::from_bits(*bits)),
                        JsArg::Text(text) => format!("'{}'", text),
                        JsArg::Bool(b) => format!("{}", b),
                        JsArg::Null => "null".to_string(),
                        JsArg::Object => "object".to_string(),
                    });
                    Event::Flag(true)
                }
                Action::Invoke(method) => {
                    self.log.push(format!("{}({})", method_name(method), self.args.join(", ")));
                    match method {
                        Method::HandleObj => Event::Returned(
                            true,
                            if self.object { JsValue::Object } else { JsValue::Undefined },
                        ),
                        Method::Register => {
                            Event::Returned(true, JsValue::Number(self.registered.to_bits()))
                        }
                        _ => (self.wide)(),
                    }
                }
                Action::ReadField(Field::Handle) => (self.handle_field)(),
                Action::ReadField(Field::Json) => (self.json_field)(),
                Action::Unwrap(role) => {
                    self.log.push(format!("unwrap {:?}", role));
                    Event::Native(self.native)
                }
                Action::Operate(access, hot, receiver, operand) => {
                    self.log.push(format!("{:?} {:?} on {} with {}", access, hot, receiver, operand));
                    Event::Done((self.dom)())
                }
                Action::Draw(address, op) => {
                    self.log.push(format!("draw {:?} on {}", op, address));
                    Event::Flag(true)
                }
                Action::FormatNumber(bits) => Event::Formatted(f64::from_bits(bits).to_string()),
                Action::ParseNumber => Event::Parsed(None),
            };
            action = task.step(host, event);
        }
    }
}

fn host_with(names: &[&str]) -> Host {
    let mut host = Host::new();
    host.ensure_runner(1);
    for (id, name) in names.iter().enumerate() {
        host.intern(name, id as u32);
    }
    host
}

fn text(s: &str) -> Arg16<Vec<u16>> {
    Arg16 { kind: 0, num: 0, str16: s.encode_utf16().collect() }
}

fn arg(kind: i32, num: f64) -> Arg16<Vec<u16>> {
    Arg16 { kind, num: num.to_bits(), str16: vec![] }
}

fn wide_text(host: &Host) -> String {
    String::from_utf16(&host.runner.as_ref().unwrap().reply16).unwrap()
}

#[test]
fn a_cold_member_goes_to_the_bridge() {
    let mut host = host_with(&["title"]);
    let mut page = Page::new();
    page.wide = || Event::Returned(true, JsValue::Text("h\u{1f600}".to_string()));
    let start = host_web_get_u16(&host, 12, 0);
    assert_eq!(page.run(&mut host, start), Outcome::Reply(Reply::Text));
    assert_eq!(page.log, vec!["getWide(12, 0)"]);
    assert_eq!(wide_text(&host), "h\u{1f600}");
}

#[test]
fn wide_arguments_cross_with_their_masks() {
    let mut host = host_with(&["m"]);
    let mut page = Page::new();
    let args = vec![
        text("s"),
        arg(1, 2.5),
        arg(2, 9.0),
        arg(3, 1.0),
        arg(3, 0.0),
        arg(4, 7.0),
        arg(5, 3.0),
    ];
    let start = host_web_call_u16(&host, -1, 0, args);
    assert_eq!(page.run(&mut host, start), Outcome::Reply(Reply::Nothing));
    let start = host_web_new_u16(&host, 0, vec![arg(2, 4.0)]);
    page.run(&mut host, start);
    let start = host_web_set_u16(&host, 8, 0, Some(arg(5, 4.0)));
    page.run(&mut host, start);
    let start = host_web_set_u16(&host, 8, 0, None);
    page.run(&mut host, start);
    assert_eq!(
        page.log,
        vec![
            "callWide(-1, 0, 4, 64, 's', 2.5, 9, true, false, null, 3)",
            "newWide(0, 1, 0, 4)",
            "setWide(8, 0, 0, 1, 4)",
            "setWide(8, 0, 0, 0)"
        ]
    );
}

#[test]
fn a_wide_reply_is_typed_by_its_value() {
    fn null() -> Event<String> {
        Event::Returned(true, JsValue::Null)
    }
    fn other() -> Event<String> {
        Event::Returned(true, JsValue::Other)
    }
    fn yes() -> Event<String> {
        Event::Returned(true, JsValue::Bool(true))
    }
    fn number() -> Event<String> {
        Event::Returned(true, JsValue::Number(1.5f64.to_bits()))
    }
    fn throws() -> Event<String> {
        Event::Returned(false, JsValue::Undefined)
    }
    for (answer, reply) in [
        (null as fn() -> Event<String>, Reply::Nothing),
        (nothing, Reply::Nothing),
        (other, Reply::Nothing),
        (yes, Reply::Bool(true)),
        (number, Reply::Number(1.5f64.to_bits())),
        (throws, Reply::Failed),
    ] {
        let mut host = host_with(&["x"]);
        let mut page = Page::new();
        page.wide = answer;
        let start = host_web_get_u16(&host, 1, 0);
        assert_eq!(page.run(&mut host, start), Outcome::Reply(reply));
    }
    let mut host = host_with(&["x"]);
    let mut page = Page::new();
    page.context = false;
    let start = host_web_get_u16(&host, 1, 0);
    assert_eq!(page.run(&mut host, start), Outcome::Reply(Reply::Untouched));
}

#[test]
fn a_wide_object_is_a_handle_or_json() {
    fn object() -> Event<String> {
        Event::Returned(true, JsValue::Object)
    }
    fn handle() -> Event<String> {
        Event::Returned(true, JsValue::Number(17.0f64.to_bits()))
    }
    fn json() -> Event<String> {
        Event::Returned(true, JsValue::Text("[1]".to_string()))
    }
    fn unreadable() -> Event<String> {
        Event::Returned(false, JsValue::Number(17.0f64.to_bits()))
    }
    let mut host = host_with(&["x"]);
    let mut page = Page::new();
    page.wide = object;
    page.handle_field = handle;
    page.json_field = json;
    let start = host_web_get_u16(&host, 1, 0);
    assert_eq!(page.run(&mut host, start), Outcome::Reply(Reply::Ref(17.0f64.to_bits())));
    page.handle_field = unreadable;
    let start = host_web_get_u16(&host, 1, 0);
    assert_eq!(page.run(&mut host, start), Outcome::Reply(Reply::Json));
    assert_eq!(wide_text(&host), "[1]");
    page.json_field = nothing;
    let start = host_web_get_u16(&host, 1, 0);
    assert_eq!(page.run(&mut host, start), Outcome::Reply(Reply::Nothing));
}

#[test]
fn a_hot_read_finds_its_receiver_once() {
    let mut host = host_with(&["pathname", "search"]);
    let mut page = Page::new();
    page.dom = || DomResult::Text("/a".to_string());
    let start = host_web_get_u16(&host, 5, 0);
    assert_eq!(page.run(&mut host, start), Outcome::Reply(Reply::Text));
    assert_eq!(wide_text(&host), "/a");
    let start = host_web_get_u16(&host, 5, 1);
    page.run(&mut host, start);
    assert_eq!(
        page.log,
        vec!["handleObj(5)", "unwrap Url", "Read Pathname on 64 with 0", "Read Search on 64 with 0"]
    );
    host.release(5);
    page.log.clear();
    let start = host_web_get_u16(&host, 5, 0);
    page.run(&mut host, start);
    assert_eq!(page.log[0], "handleObj(5)");
}

#[test]
fn a_receiver_of_another_type_falls_back() {
    let mut host = host_with(&["length"]);
    let mut page = Page::new();
    page.native = None;
    page.wide = || Event::Returned(true, JsValue::Number(3.0f64.to_bits()));
    let start = host_web_get_u16(&host, 5, 0);
    assert_eq!(page.run(&mut host, start), Outcome::Reply(Reply::Number(3.0f64.to_bits())));
    assert_eq!(page.log, vec!["handleObj(5)", "unwrap NodeList", "getWide(5, 0)"]);
    assert_eq!(host.native(5, Role::NodeList), 0);
    page.log.clear();
    page.object = false;
    let start = host_web_get_u16(&host, 5, 0);
    page.run(&mut host, start);
    assert_eq!(page.log, vec!["handleObj(5)", "getWide(5, 0)"]);
}

#[test]
fn a_failed_operation_falls_back_with_the_same_arguments() {
    let mut host = host_with(&["setItem"]);
    let mut page = Page::new();
    page.dom = failed;
    let start = host_web_call_u16(&host, 5, 0, vec![text("k"), text("v")]);
    page.run(&mut host, start);
    assert_eq!(
        page.log,
        vec![
            "handleObj(5)",
            "unwrap Storage",
            "Invoke SetItem on 64 with 0",
            "callWide(5, 0, 0, 0, 'k', 'v')"
        ]
    );
}

#[test]
fn arguments_that_do_not_fit_fall_back_before_any_native_is_sought() {
    for (name, args) in [
        ("createElement", vec![]),
        ("createElement", vec![arg(1, 1.0)]),
        ("appendChild", vec![text("x")]),
        ("dispatchEvent", vec![]),
        ("contains", vec![arg(2, 1.0)]),
        ("getPropertyValue", vec![]),
        ("querySelectorAll", vec![arg(4, 0.0)]),
        ("getRandomValues", vec![text("x")]),
        ("encode", vec![]),
        ("decode", vec![text("x")]),
        ("getItem", vec![]),
        ("setItem", vec![text("x")]),
        ("removeItem", vec![arg(3, 0.0)]),
        ("pathname", vec![text("x")]),
        ("URL", vec![text("x")]),
    ] {
        let mut host = host_with(&[name]);
        let mut page = Page::new();
        let start = host_web_call_u16(&host, 5, 0, args);
        page.run(&mut host, start);
        assert_eq!(page.log.len(), 1);
        assert!(page.log[0].starts_with("callWide(5, 0, "));
    }
}

#[test]
fn a_style_value_is_checked_after_the_style_was_found() {
    let mut host = host_with(&["setProperty"]);
    let mut page = Page::new();
    let start = host_web_call_u16(&host, 5, 0, vec![text("color"), arg(1, 1.0)]);
    page.run(&mut host, start);
    assert_eq!(
        page.log,
        vec!["handleObj(5)", "unwrap Style", "callWide(5, 0, 0, 0, 'color', 1)"]
    );
    assert_eq!(host.native(5, Role::Style), 64);
    page.log.clear();
    let start = host_web_call_u16(&host, 5, 0, vec![text("color"), text("red")]);
    assert_eq!(page.run(&mut host, start), Outcome::Reply(Reply::Nothing));
    assert_eq!(page.log, vec!["Invoke SetProperty on 64 with 0"]);
}

#[test]
fn each_hot_method_uses_its_receiver() {
    for (name, hot, role, args) in [
        ("createElement", Hot::CreateElement, Role::Document, vec![text("p")]),
        ("contains", Hot::Contains, Role::TokenList, vec![text("p")]),
        ("setProperty", Hot::SetProperty, Role::Style, vec![text("p"), text("q")]),
        ("getPropertyValue", Hot::GetPropertyValue, Role::Style, vec![text("p")]),
        ("querySelectorAll", Hot::QuerySelectorAll, Role::Document, vec![text("p")]),
        ("encode", Hot::Encode, Role::Encoder, vec![text("p")]),
        ("getItem", Hot::GetItem, Role::Storage, vec![text("p")]),
        ("setItem", Hot::SetItem, Role::Storage, vec![text("p"), text("q")]),
        ("removeItem", Hot::RemoveItem, Role::Storage, vec![text("p")]),
    ] {
        let mut host = host_with(&[name]);
        let mut page = Page::new();
        let start = host_web_call_u16(&host, 5, 0, args);
        assert_eq!(page.run(&mut host, start), Outcome::Reply(Reply::Nothing));
        assert_eq!(
            page.log,
            vec![
                "handleObj(5)".to_string(),
                format!("unwrap {:?}", role),
                format!("Invoke {:?} on 64 with 0", hot)
            ]
        );
    }
}

#[test]
fn each_hot_property_uses_its_receiver() {
    for (name, hot, role) in [
        ("pathname", Hot::Pathname, Role::Url),
        ("search", Hot::Search, Role::Url),
        ("textContent", Hot::TextContent, Role::Node),
        ("classList", Hot::ClassList, Role::Element),
        ("style", Hot::Style, Role::Html),
        ("length", Hot::Length, Role::NodeList),
        ("3", Hot::Index(3), Role::NodeList),
    ] {
        let mut host = host_with(&[name]);
        let mut page = Page::new();
        let start = host_web_get_u16(&host, 5, 0);
        page.run(&mut host, start);
        assert_eq!(page.log[1], format!("unwrap {:?}", role));
        assert_eq!(page.log[2], format!("Read {:?} on 64 with 0", hot));
    }
}

#[test]
fn texts_are_written_directly() {
    for (name, hot, role) in
        [("textContent", Hot::TextContent, Role::Node), ("className", Hot::ClassName, Role::Element)]
    {
        let mut host = host_with(&[name]);
        let mut page = Page::new();
        let start = host_web_set_u16(&host, 5, 0, Some(text("v")));
        assert_eq!(page.run(&mut host, start), Outcome::Reply(Reply::Nothing));
        assert_eq!(page.log[1], format!("unwrap {:?}", role));
        assert_eq!(page.log[2], format!("Write {:?} on 64 with 0", hot));
        page.log.clear();
        let start = host_web_set_u16(&host, 5, 0, Some(arg(1, 2.0)));
        page.run(&mut host, start);
        assert_eq!(page.log, vec!["setWide(5, 0, 0, 0, 2)"]);
    }
    let mut host = host_with(&["style"]);
    let mut page = Page::new();
    let start = host_web_set_u16(&host, 5, 0, Some(text("v")));
    page.run(&mut host, start);
    assert_eq!(page.log, vec!["setWide(5, 0, 0, 0, 'v')"]);
}

#[test]
fn an_operand_is_found_behind_its_handle() {
    let mut host = host_with(&["appendChild", "dispatchEvent"]);
    host.resolve(5, Role::Node, 100);
    host.resolve(5, Role::Target, 101);
    let mut page = Page::new();
    let start = host_web_call_u16(&host, 5, 0, vec![arg(2, 6.0)]);
    assert_eq!(page.run(&mut host, start), Outcome::Reply(Reply::Ref(6.0f64.to_bits())));
    assert_eq!(page.log, vec!["handleObj(6)", "unwrap Node", "Invoke AppendChild on 100 with 64"]);
    assert_eq!(host.native(6, Role::Node), 64);
    page.log.clear();
    let start = host_web_call_u16(&host, 5, 0, vec![arg(2, 6.0)]);
    page.run(&mut host, start);
    assert_eq!(page.log, vec!["Invoke AppendChild on 100 with 64"]);
    page.log.clear();
    page.dom = || DomResult::Flag(false);
    let start = host_web_call_u16(&host, 5, 1, vec![arg(2, 6.0)]);
    assert_eq!(page.run(&mut host, start), Outcome::Reply(Reply::Bool(false)));
    assert_eq!(
        page.log,
        vec!["handleObj(6)", "unwrap Event", "Invoke DispatchEvent on 101 with 64"]
    );
}

#[test]
fn a_buffer_is_passed_as_an_object() {
    let mut host = host_with(&["getRandomValues", "decode"]);
    host.resolve(5, Role::Crypto, 100);
    host.resolve(5, Role::Decoder, 101);
    let mut page = Page::new();
    let start = host_web_call_u16(&host, 5, 0, vec![arg(2, 6.0)]);
    assert_eq!(page.run(&mut host, start), Outcome::Reply(Reply::Ref(6.0f64.to_bits())));
    let start = host_web_call_u16(&host, 5, 1, vec![arg(2, 6.0)]);
    page.run(&mut host, start);
    assert_eq!(
        page.log,
        vec![
            "handleObj(6)",
            "Invoke GetRandomValues on 100 with 0",
            "handleObj(6)",
            "Invoke Decode on 101 with 0"
        ]
    );
    page.log.clear();
    page.object = false;
    let start = host_web_call_u16(&host, 5, 0, vec![arg(2, 6.0)]);
    page.run(&mut host, start);
    assert_eq!(page.log, vec!["handleObj(6)", "callWide(5, 0, 1, 0, 6)"]);
}

#[test]
fn a_created_element_is_registered_and_kept() {
    let mut host = host_with(&["createElement"]);
    host.resolve(5, Role::Document, 100);
    let mut page = Page::new();
    page.dom = created;
    let start = host_web_call_u16(&host, 5, 0, vec![text("p")]);
    assert_eq!(page.run(&mut host, start), Outcome::Reply(Reply::Ref(30.0f64.to_bits())));
    assert_eq!(page.log, vec!["Invoke CreateElement on 100 with 0", "register(object)"]);
    assert_eq!(host.native(30, Role::Element), 640);
    assert_eq!(host.native(30, Role::Node), 641);
}

#[test]
fn each_created_object_is_kept_in_its_role() {
    for (name, access, role) in [
        ("URL", Access::Construct, Some(Role::Url)),
        ("Event", Access::Construct, Some(Role::Event)),
        ("classList", Access::Read, Some(Role::TokenList)),
        ("style", Access::Read, Some(Role::Style)),
        ("7", Access::Read, Some(Role::Node)),
        ("querySelectorAll", Access::Invoke, Some(Role::NodeList)),
        ("encode", Access::Invoke, None),
    ] {
        let mut host = host_with(&[name]);
        let mut page = Page::new();
        page.dom = created;
        let start = match access {
            Access::Read => host_web_get_u16(&host, 5, 0),
            Access::Invoke => host_web_call_u16(&host, 5, 0, vec![text("p")]),
            _ => host_web_new_u16(&host, 0, vec![text("p")]),
        };
        assert_eq!(page.run(&mut host, start), Outcome::Reply(Reply::Ref(30.0f64.to_bits())));
        let kept = host.runner.as_ref().unwrap().natives.get(&30).copied();
        match role {
            Some(role) => assert_eq!(kept.unwrap().get(role), 640),
            None => assert!(kept.is_none()),
        }
    }
}

#[test]
fn an_object_that_cannot_be_registered_falls_back() {
    let mut host = host_with(&["URL"]);
    let mut page = Page::new();
    page.dom = created;
    page.registered = -1.0;
    let start = host_web_new_u16(&host, 0, vec![text("http://x/")]);
    page.run(&mut host, start);
    assert_eq!(
        page.log,
        vec![
            "Construct CtorUrl on 0 with 0",
            "register(object)",
            "newWide(0, 0, 0, 'http://x/')"
        ]
    );
}

#[test]
fn a_count_is_replied_as_a_number() {
    let mut host = host_with(&["length"]);
    let mut page = Page::new();
    page.dom = || DomResult::Count(4_000_000_000);
    let start = host_web_get_u16(&host, 5, 0);
    assert_eq!(
        page.run(&mut host, start),
        Outcome::Reply(Reply::Number(4_000_000_000.0f64.to_bits()))
    );
}

#[test]
fn the_event_type_is_an_atom() {
    let host = host_with(&["Event"]);
    let (task, _) = host_web_new_u16(&host, 0, vec![text("a-rather-long-event-type")]);
    let kind = event_type(task.member.operation().unwrap());
    assert_eq!(kind, Some(Atom::from("a-rather-long-event-type")));
    let (task, _) = host_web_new_u16(&host, 0, vec![text("click")]);
    assert_eq!(event_type(task.member.operation().unwrap()), Some(Atom::from("click")));
    assert!(event_type(task.member.operation().unwrap()) != Some(Atom::from("clack")));
    assert_eq!(event_type(Operation::Pathname), None);
    assert_eq!(task.member.arg_text(0), "click");
    assert_eq!(task.member.arg_text(1), "");
}

#[test]
fn drawing_goes_to_the_context() {
    let mut host = host_with(&[]);
    let mut page = Page::new();
    let one = 1.0f64.to_bits();
    let two = 2.0f64.to_bits();
    let start = host_web_bind(&host, 5, 1, Some(vec![one, two]), 2);
    assert_eq!(page.run(&mut host, start), Outcome::Reply(Reply::Untouched));
    let start = host_web_bind(&host, 5, 9, Some(vec![one]), 1);
    page.run(&mut host, start);
    assert_eq!(
        page.log,
        vec![
            "handleObj(5)".to_string(),
            "unwrap Canvas2d".to_string(),
            format!("draw {:?} on 64", Drawing::FillRect(one, two, 0, 0)),
            format!("draw {:?} on 64", Drawing::Rotate(one))
        ]
    );
}

#[test]
fn drawing_elsewhere_goes_to_the_bridge() {
    let mut host = host_with(&[]);
    let mut page = Page::new();
    page.native = None;
    page.wide = || Event::Returned(true, JsValue::Text("reply".to_string()));
    let start =
        host_web_bind(&host, 5, 5, Some(vec![1.5f64.to_bits(), (-2.0f64).to_bits()]), 2);
    assert_eq!(page.run(&mut host, start), Outcome::Reply(Reply::Untouched));
    assert_eq!(
        page.log,
        vec!["handleObj(5)", "unwrap Canvas2d", "call('5', 'moveTo', '[1.5,-2]')"]
    );
    assert_eq!(host.runner.as_ref().unwrap().scratch, "reply");
    page.log.clear();
    let start = host_web_bind(&host, 5, 6, None, 2);
    page.run(&mut host, start);
    assert_eq!(page.log[2], "call('5', 'lineTo', '[0,0]')");
    page.log.clear();
    let start = host_web_bind(&host, 5, 10, None, 2);
    assert_eq!(page.run(&mut host, start), Outcome::Reply(Reply::Untouched));
    assert_eq!(page.log, vec!["handleObj(5)", "unwrap Canvas2d"]);
}

#[test]
fn binding_ids_name_their_methods() {
    let names: Vec<&str> = (0..11).map(bind_method_name).collect();
    assert_eq!(
        names,
        vec![
            "", "fillRect", "clearRect", "strokeRect", "rect", "moveTo", "lineTo", "translate",
            "scale", "rotate", ""
        ]
    );
}

#[test]
fn a_call_back_into_the_engine_does_not_disturb_a_task() {
    let mut host = host_with(&["textContent"]);
    let (mut task, _) = host_web_get_u16(&host, 5, 0);
    assert_eq!(task.step(&mut host, Event::Flag(true)), Action::FetchBridge);
    let mut page = Page::new();
    page.dom = || DomResult::Text("inner".to_string());
    let inner = host_web_get_u16(&host, 6, 0);
    assert_eq!(page.run(&mut host, inner), Outcome::Reply(Reply::Text));
    host.release(6);
    assert_eq!(task.step(&mut host, Event::Fetched(true, true)), Action::Push);
    assert_eq!(task.step(&mut host, Event::Flag(true)), Action::Invoke(Method::HandleObj));
    assert_eq!(
        task.step(&mut host, Event::Returned(true, JsValue::Object)),
        Action::Unwrap(Role::Node)
    );
    assert_eq!(
        task.step(&mut host, Event::Native(Some(8))),
        Action::Operate(Access::Read, Hot::TextContent, 8, 0)
    );
    assert_eq!(
        task.step(&mut host, Event::Done(DomResult::Text("outer".to_string()))),
        Action::Finish(Outcome::Reply(Reply::Text))
    );
    assert_eq!(wide_text(&host), "outer");
}

#[test]
fn both_tiers_reply_alike() {
    let mut host = host_with(&["textContent"]);
    let mut direct = Page::new();
    direct.dom = || DomResult::Text("same \u{1f600}".to_string());
    let start = host_web_get_u16(&host, 5, 0);
    let first = (direct.run(&mut host, start), wide_text(&host));
    host.release(5);
    let mut reflected = Page::new();
    reflected.native = None;
    reflected.wide = || Event::Returned(true, JsValue::Text("same \u{1f600}".to_string()));
    let start = host_web_get_u16(&host, 5, 0);
    let second = (reflected.run(&mut host, start), wide_text(&host));
    assert_eq!(first, second);
    assert_eq!(first, (Outcome::Reply(Reply::Text), "same \u{1f600}".to_string()));
}

#[test]
fn an_argument_that_only_the_page_reads_falls_back() {
    for (name, args) in [
        ("setProperty", vec![text("color"), text("red"), text("important")]),
        ("createElement", vec![text("p"), text("is")]),
        ("decode", vec![arg(2, 6.0), arg(2, 7.0)]),
    ] {
        let mut host = host_with(&[name]);
        let mut page = Page::new();
        let start = host_web_call_u16(&host, 5, 0, args);
        page.run(&mut host, start);
        assert_eq!(page.log.len(), 1);
        assert!(page.log[0].starts_with("callWide(5, 0, "));
    }
    let mut host = host_with(&["URL", "Event", "setProperty"]);
    let mut page = Page::new();
    let start = host_web_new_u16(&host, 0, vec![text("/a"), text("http://x/")]);
    page.run(&mut host, start);
    let start = host_web_new_u16(&host, 1, vec![text("click"), arg(2, 6.0)]);
    page.run(&mut host, start);
    let start =
        host_web_call_u16(&host, 5, 2, vec![text("color"), text("red"), text("important")]);
    page.run(&mut host, start);
    assert_eq!(
        page.log,
        vec![
            "newWide(0, 0, 0, '/a', 'http://x/')",
            "newWide(1, 2, 0, 'click', 6)",
            "callWide(5, 2, 0, 0, 'color', 'red', 'important')"
        ]
    );
}

#[test]
fn operations_are_given_their_texts_in_order() {
    let host = host_with(&["setProperty", "setItem", "textContent", "URL", "5"]);
    let (task, _) = host_web_call_u16(&host, 9, 0, vec![text("color"), text("red")]);
    assert!(matches!(task.member.operation(), Some(Operation::SetProperty(n, v)) if n == "color" && v == "red"));
    let (task, _) = host_web_call_u16(&host, 9, 1, vec![text("key"), text("value")]);
    assert!(matches!(task.member.operation(), Some(Operation::SetItem(k, v)) if k == "key" && v == "value"));
    let (task, _) = host_web_set_u16(&host, 9, 2, Some(text("t")));
    assert!(matches!(task.member.operation(), Some(Operation::SetTextContent(t)) if t == "t"));
    let (task, _) = host_web_get_u16(&host, 9, 2);
    assert!(matches!(task.member.operation(), Some(Operation::TextContent)));
    let (task, _) = host_web_new_u16(&host, 3, vec![text("http://x/")]);
    assert!(matches!(task.member.operation(), Some(Operation::NewUrl(u)) if u == "http://x/"));
    let (task, _) = host_web_get_u16(&host, 9, 4);
    assert!(matches!(task.member.operation(), Some(Operation::Item(5))));
    let (task, _) = host_web_call_u16(&host, 9, 2, vec![text("t")]);
    assert!(task.member.operation().is_none());
}

#[test]
fn an_appended_child_is_replied_alike_by_both_tiers() {
    fn object() -> Event<String> {
        Event::Returned(true, JsValue::Object)
    }
    fn child() -> Event<String> {
        Event::Returned(true, JsValue::Number(6.0f64.to_bits()))
    }
    for name in ["appendChild", "getRandomValues"] {
        let mut host = host_with(&[name]);
        let mut page = Page::new();
        let start = host_web_call_u16(&host, 5, 0, vec![arg(2, 6.0)]);
        let direct = page.run(&mut host, start);
        host.release(5);
        page.native = None;
        page.wide = object;
        page.handle_field = child;
        page.log.clear();
        let start = host_web_call_u16(&host, 5, 0, vec![arg(2, 6.0)]);
        let reflected = page.run(&mut host, start);
        assert_eq!(page.log[2], "callWide(5, 0, 1, 0, 6)");
        assert_eq!(direct, reflected);
        assert_eq!(direct, Outcome::Reply(Reply::Ref(6.0f64.to_bits())));
    }
}

#[test]
fn an_argument_that_nobody_reads_is_ignored() {
    let extra = || arg(4, 0.0);
    for (name, args, reply) in [
        ("appendChild", vec![arg(2, 6.0), extra()], Reply::Ref(6.0f64.to_bits())),
        ("getRandomValues", vec![arg(2, 6.0), extra()], Reply::Ref(6.0f64.to_bits())),
        ("dispatchEvent", vec![arg(2, 6.0), extra()], Reply::Nothing),
        ("contains", vec![text("a"), extra()], Reply::Nothing),
        ("getPropertyValue", vec![text("a"), extra()], Reply::Nothing),
        ("querySelectorAll", vec![text("a"), extra()], Reply::Nothing),
        ("encode", vec![text("a"), extra()], Reply::Nothing),
        ("getItem", vec![text("a"), extra()], Reply::Nothing),
        ("setItem", vec![text("a"), text("b"), extra()], Reply::Nothing),
        ("removeItem", vec![text("a"), extra()], Reply::Nothing),
    ] {
        let mut host = host_with(&[name]);
        let mut page = Page::new();
        let start = host_web_call_u16(&host, 5, 0, args);
        assert_eq!(page.run(&mut host, start), Outcome::Reply(reply));
        assert!(page.log.last().unwrap().starts_with("Invoke "));
        assert!(!page.log.iter().any(|entry| entry.starts_with("callWide")));
    }
}
