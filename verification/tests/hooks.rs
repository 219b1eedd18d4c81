use mersey_host::bridge::{cb_mask, refs_mask};
use mersey_host::calls::{
    host_web_call, host_web_call_scalars, host_web_call_str, host_web_get, host_web_get_id,
    host_web_global, host_web_instanceof, host_web_intern, host_web_iterate, host_web_new,
    host_web_new_scalars, host_web_release, host_web_set,
};
use mersey_host::host::Host;
use mersey_host::hot::{classify_name, Hot};
use mersey_host::natives::{Natives, Role};
use mersey_host::protocol::{field_name, method_name, Arg16, Field, JsArg, JsValue, Method, Reply, Scalar};
use mersey_host::task::{Action, Event, Outcome, Task};

/// A realm with a bridge that answers every method in one way.
struct Realm {
    context: bool,
    bridge: bool,
    memory: bool,
    answer: fn() -> Event<String>,
    calls: Vec<String>,
    args: Vec<String>,
}

impl Realm {
    fn new(answer: fn() -> Event<String>) -> Realm {
        Realm { context: true, bridge: true, memory: true, answer, calls: Vec::new(), args: Vec::new() }
    }

    fn run(&mut self, host: &mut Host, start: (Task, Action)) -> Outcome {
        let (mut task, mut action) = start;
        loop {
            let event = match action {
                Action::Finish(outcome) => return outcome,
                Action::Context => Event::Flag(self.context),
                Action::FetchBridge => {
                    self.args.clear();
                    Event::Fetched(true, self.bridge)
                }
                Action::Push => {
                    let text = match task.argument().unwrap() {
                        JsArg::Number(bits) => format!("{}", f64::from_bits(*bits)),
                        JsArg::Text(text) => format!("'{}'", text),
                        JsArg::Bool(b) => format!("{}", b),
                        JsArg::Null => "null".to_string(),
                        JsArg::Object => "object".to_string(),
                    };
                    let is_text = text.starts_with('\'');
                    self.args.push(text);
                    Event::Flag(self.memory || !is_text)
                }
                Action::Invoke(method) => {
                    self.calls.push(format!("{}({})", method_name(method), self.args.join(", ")));
                    (self.answer)()
                }
                Action::FormatNumber(bits) => Event::Formatted(f64::from_bits(bits).to_string()),
                Action::ParseNumber => {
                    Event::Parsed(task.text.parse::<f64>().ok().map(|d| d.to_bits()))
                }
                _ => panic!("unexpected action {:?}", action),
            };
            action = task.step(host, event);
        }
    }
}

fn running() -> Host {
    let mut host = Host::new();
    host.ensure_runner(1);
    host
}

fn scratch(host: &Host) -> &str {
    host.runner.as_ref().unwrap().scratch.as_str()
}

fn text_answer() -> Event<String> {
    Event::Returned(true, JsValue::Text("ok".to_string()))
}

fn number_answer() -> Event<String> {
    Event::Returned(true, JsValue::Number(2.5f64.to_bits()))
}

fn seven() -> Event<String> {
    Event::Returned(true, JsValue::Number(7.0f64.to_bits()))
}

fn null_answer() -> Event<String> {
    Event::Returned(true, JsValue::Null)
}

fn throws() -> Event<String> {
    Event::Returned(false, JsValue::Undefined)
}

#[test]
fn a_property_is_read_by_name() {
    let mut host = running();
    let mut realm = Realm::new(text_answer);
    let start = host_web_get(&host, -5, b"title");
    assert_eq!(realm.run(&mut host, start), Outcome::Scratch);
    assert_eq!(scratch(&host), "ok");
    assert_eq!(realm.calls, vec!["get('-5', 'title')"]);
}

#[test]
fn the_hooks_by_name_pass_their_texts() {
    let mut host = running();
    let mut realm = Realm::new(text_answer);
    let start = host_web_set(&host, 1, b"a", b"\"x\"");
    realm.run(&mut host, start);
    let start = host_web_call(&host, 2, b"m", b"[1]");
    realm.run(&mut host, start);
    let start = host_web_new(&host, b"Date", b"[]");
    realm.run(&mut host, start);
    let start = host_web_iterate(&host, 3);
    realm.run(&mut host, start);
    assert_eq!(
        realm.calls,
        vec!["set('1', 'a', '\"x\"')", "call('2', 'm', '[1]')", "construct('Date', '[]')", "iterate('3')"]
    );
}

#[test]
fn a_string_reply_is_empty_for_anything_else() {
    for answer in [number_answer as fn() -> Event<String>, null_answer, throws] {
        let mut host = running();
        let mut realm = Realm::new(answer);
        let start = host_web_get(&host, 1, b"x");
        assert_eq!(realm.run(&mut host, start), Outcome::Scratch);
        assert_eq!(scratch(&host), "");
    }
}

#[test]
fn an_unreachable_bridge_replies_nothing() {
    for broken in 0..3 {
        let mut host = running();
        let mut realm = Realm::new(text_answer);
        realm.context = broken != 0;
        realm.bridge = broken != 1;
        realm.memory = broken != 2;
        let start = host_web_get(&host, 1, b"x");
        assert_eq!(realm.run(&mut host, start), Outcome::Scratch);
        assert_eq!(scratch(&host), "");
        let start = host_web_global(&host, b"document");
        assert_eq!(realm.run(&mut host, start), Outcome::Integer(-1));
        let start = host_web_instanceof(&host, 1, 2);
        assert_eq!(realm.run(&mut host, start), Outcome::Narrow(-1));
        let start = host_web_intern(&host, b"style");
        assert_eq!(realm.run(&mut host, start), Outcome::Id(u32::MAX));
        assert!(realm.calls.is_empty());
        assert!(host.runner.as_ref().unwrap().hot.is_empty());
    }
}

#[test]
fn without_a_runner_there_is_no_call() {
    let host = Host::new();
    assert_eq!(host_web_get(&host, 1, b"x").1, Action::Finish(Outcome::NoText));
    assert_eq!(host_web_get_id(&host, 1, 2).1, Action::Finish(Outcome::NoText));
    assert_eq!(host_web_global(&host, b"x").1, Action::Finish(Outcome::Integer(-1)));
    assert_eq!(host_web_instanceof(&host, 1, 2).1, Action::Finish(Outcome::Narrow(-1)));
    assert_eq!(host_web_intern(&host, b"x").1, Action::Finish(Outcome::Id(u32::MAX)));
}

#[test]
fn a_number_reply_reads_as_a_handle() {
    let mut host = running();
    let mut realm = Realm::new(number_answer);
    let start = host_web_global(&host, b"document");
    assert_eq!(realm.run(&mut host, start), Outcome::Integer(2));
    let mut realm = Realm::new(text_answer);
    let start = host_web_global(&host, b"document");
    assert_eq!(realm.run(&mut host, start), Outcome::Integer(-1));
    assert_eq!(realm.calls, vec!["global('document')"]);
}

#[test]
fn an_instance_test_replies_in_32_bits() {
    fn wide() -> Event<String> {
        Event::Returned(true, JsValue::Number(4_294_967_297.0f64.to_bits()))
    }
    fn negative() -> Event<String> {
        Event::Returned(true, JsValue::Number((-4_294_967_298.0f64).to_bits()))
    }
    fn high() -> Event<String> {
        Event::Returned(true, JsValue::Number(2_147_483_648.0f64.to_bits()))
    }
    for (answer, expected) in [
        (wide as fn() -> Event<String>, 4_294_967_297i64 as i32),
        (negative, -4_294_967_298i64 as i32),
        (high, 2_147_483_648i64 as i32),
        (throws, -1),
    ] {
        let mut host = running();
        let mut realm = Realm::new(answer);
        let start = host_web_instanceof(&host, 1, 2);
        assert_eq!(realm.run(&mut host, start), Outcome::Narrow(expected));
        assert_eq!(realm.calls, vec!["instanceOf('1', '2')"]);
    }
}

#[test]
fn scalars_cross_as_values() {
    let mut host = running();
    let mut realm = Realm::new(number_answer);
    let args = vec![
        Scalar { is_num: 1, num: 1.5f64.to_bits(), bytes: vec![] },
        Scalar { is_num: 0, num: 0, bytes: b"x".to_vec() },
        Scalar { is_num: 0, num: 0, bytes: vec![0xff] },
    ];
    let start = host_web_call_scalars(&host, 9, 4, &args);
    assert_eq!(realm.run(&mut host, start), Outcome::Scratch);
    assert_eq!(scratch(&host), "2.5");
    let start = host_web_new_scalars(&host, 6, &args);
    realm.run(&mut host, start);
    let start = host_web_call_str(&host, 9, 4, b"s");
    realm.run(&mut host, start);
    let start = host_web_get_id(&host, 9, 4);
    realm.run(&mut host, start);
    assert_eq!(
        realm.calls,
        vec![
            "callScalars(9, 4, 1.5, 'x', '')",
            "newScalars(6, 1.5, 'x', '')",
            "callStr(9, 4, 's')",
            "getId(9, 4)"
        ]
    );
    let mut realm = Realm::new(null_answer);
    let start = host_web_get_id(&host, 9, 4);
    realm.run(&mut host, start);
    assert_eq!(scratch(&host), "");
}

#[test]
fn an_interned_name_is_classified() {
    let mut host = running();
    let mut realm = Realm::new(seven);
    let start = host_web_intern(&host, b"classList");
    assert_eq!(realm.run(&mut host, start), Outcome::Id(7));
    assert_eq!(realm.calls, vec!["intern('classList')"]);
    assert_eq!(host.hot_of(7), Hot::ClassList);
    assert_eq!(host.hot_of(6), Hot::Cold);
    assert_eq!(host.hot_of(8), Hot::Cold);
    host.intern("length", 2);
    assert_eq!(host.hot_of(7), Hot::ClassList);
    assert_eq!(host.hot_of(2), Hot::Length);
}

#[test]
fn an_id_given_as_text_is_read() {
    fn text_id() -> Event<String> {
        Event::Returned(true, JsValue::Text("3.9".to_string()))
    }
    let mut host = running();
    let mut realm = Realm::new(text_id);
    let start = host_web_intern(&host, b"12");
    assert_eq!(realm.run(&mut host, start), Outcome::Id(3));
    assert_eq!(host.hot_of(3), Hot::Index(12));
    let mut realm = Realm::new(null_answer);
    let start = host_web_intern(&host, b"style");
    assert_eq!(realm.run(&mut host, start), Outcome::Id(u32::MAX));
    let mut realm = Realm::new(text_answer);
    let start = host_web_intern(&host, b"style");
    assert_eq!(realm.run(&mut host, start), Outcome::Id(u32::MAX));
}

#[test]
fn every_hot_name_has_its_member() {
    for (name, hot) in [
        ("URL", Hot::CtorUrl),
        ("pathname", Hot::Pathname),
        ("search", Hot::Search),
        ("createElement", Hot::CreateElement),
        ("appendChild", Hot::AppendChild),
        ("textContent", Hot::TextContent),
        ("Event", Hot::CtorEvent),
        ("dispatchEvent", Hot::DispatchEvent),
        ("className", Hot::ClassName),
        ("classList", Hot::ClassList),
        ("contains", Hot::Contains),
        ("style", Hot::Style),
        ("setProperty", Hot::SetProperty),
        ("getPropertyValue", Hot::GetPropertyValue),
        ("querySelectorAll", Hot::QuerySelectorAll),
        ("length", Hot::Length),
        ("getRandomValues", Hot::GetRandomValues),
        ("encode", Hot::Encode),
        ("decode", Hot::Decode),
        ("getItem", Hot::GetItem),
        ("setItem", Hot::SetItem),
        ("removeItem", Hot::RemoveItem),
        ("0", Hot::Index(0)),
        ("042", Hot::Index(42)),
        ("999999999", Hot::Index(999_999_999)),
        ("1000000000", Hot::Cold),
        ("", Hot::Cold),
        ("url", Hot::Cold),
        ("1x", Hot::Cold),
    ] {
        assert_eq!(classify_name(name), hot);
    }
}

#[test]
fn a_released_handle_is_forgotten_before_the_bridge_is_told() {
    let mut host = running();
    host.resolve(4, Role::Node, 64);
    host.resolve(4, Role::Element, 72);
    host.resolve(5, Role::Node, 80);
    let mut realm = Realm::new(null_answer);
    let start = host_web_release(&mut host, 4);
    assert_eq!(host.native(4, Role::Node), 0);
    assert_eq!(host.native(4, Role::Element), 0);
    assert_eq!(host.native(5, Role::Node), 80);
    assert_eq!(realm.run(&mut host, start), Outcome::Scratch);
    assert_eq!(realm.calls, vec!["release('4')"]);
}

#[test]
fn natives_are_kept_by_handle_and_role() {
    let mut host = running();
    assert_eq!(host.native(4, Role::Url), 0);
    host.resolve(4, Role::Url, 64);
    assert_eq!(host.native(4, Role::Url), 64);
    assert_eq!(host.native(4, Role::Document), 0);
    host.resolve(4, Role::Document, 72);
    assert_eq!(host.native(4, Role::Url), 64);
    assert_eq!(host.native(4, Role::Document), 72);
    let mut natives = Natives::default();
    assert_eq!(natives.get(Role::Canvas2d), 0);
    natives.set(Role::Canvas2d, 8);
    assert_eq!(natives.get(Role::Canvas2d), 8);
    assert_eq!(natives.get(Role::Decoder), 0);
}

#[test]
fn masks_mark_handles_and_callbacks() {
    let kinds = [2, 0, 5, 2, 1, 3, 4];
    let args: Vec<Arg16<Vec<u16>>> =
        kinds.iter().map(|k| Arg16 { kind: *k, num: 0, str16: vec![] }).collect();
    assert_eq!(refs_mask(&args), 0b1001);
    assert_eq!(cb_mask(&args), 0b100);
    let many: Vec<Arg16<Vec<u16>>> =
        (0..40).map(|_| Arg16 { kind: 2, num: 0, str16: vec![] }).collect();
    assert_eq!(refs_mask(&many), u32::MAX);
    assert_eq!(cb_mask(&many), 0);
    assert_eq!(refs_mask(&vec![]), 0);
}

#[test]
fn replies_carry_their_tags_and_numbers() {
    let one = 1.0f64.to_bits();
    assert_eq!(Reply::Untouched.tag(), None);
    assert_eq!((Reply::Nothing.tag(), Reply::Nothing.num()), (Some(0), None));
    assert_eq!((Reply::Number(5).tag(), Reply::Number(5).num()), (Some(1), Some(5)));
    assert_eq!((Reply::Text.tag(), Reply::Text.has_text()), (Some(2), true));
    assert_eq!((Reply::Ref(6).tag(), Reply::Ref(6).num()), (Some(3), Some(6)));
    assert_eq!((Reply::Bool(true).tag(), Reply::Bool(true).num()), (Some(4), Some(one)));
    assert_eq!(Reply::Bool(false).num(), Some(0));
    assert_eq!(Reply::Failed.tag(), Some(5));
    assert_eq!((Reply::Json.tag(), Reply::Json.has_text()), (Some(7), true));
}

#[test]
fn bridge_methods_have_their_names() {
    assert_eq!(method_name(Method::HandleObj), "handleObj");
    assert_eq!(method_name(Method::Register), "register");
    assert_eq!(method_name(Method::GetWide), "getWide");
    assert_eq!(method_name(Method::SetWide), "setWide");
    assert_eq!(method_name(Method::CallWide), "callWide");
    assert_eq!(method_name(Method::NewWide), "newWide");
    assert_eq!((field_name(Field::Handle), field_name(Field::Json)), ("r", "j"));
}

#[test]
fn a_finished_task_stays_finished() {
    let mut host = running();
    let (mut task, _) = host_web_get(&host, 1, b"x");
    assert_eq!(task.step(&mut host, Event::Flag(false)), Action::Finish(Outcome::Scratch));
    assert_eq!(task.step(&mut host, Event::Flag(true)), Action::Finish(Outcome::Spent));
}
