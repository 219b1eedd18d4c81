use mersey_host::host::Host;
use mersey_host::script::{end_repl, mersey_invoke, mersey_repl, Launch, ReplEnd};
use mersey_host::table::{host_caps, host_print, host_table, host_time_ms, Clock, Time};

fn launch(host: &mut Host, global: usize, ctx: usize) -> Vec<Launch> {
    let mut work = Vec::new();
    let mut script = host.run_mersey_script(global, "source");
    while script.next != Launch::Stop {
        work.push(script.next);
        host.launched(&mut script, ctx);
    }
    work
}

fn end(e: ReplEnd<String>) -> (u8, String) {
    match e {
        ReplEnd::Undefined => (0, String::new()),
        ReplEnd::Throw(text) => (1, text),
        ReplEnd::Echo(text) => (2, text),
    }
}

#[test]
fn the_first_script_sets_up() {
    let mut host = Host::new();
    assert_eq!(
        launch(&mut host, 7, 4096),
        vec![
            Launch::CreateContext,
            Launch::DefineInvoke,
            Launch::DefineRepl,
            Launch::EvaluateBridge,
            Launch::Run,
        ]
    );
    let runner = host.runner.as_ref().unwrap();
    assert_eq!(runner.ctx, 4096);
    assert_eq!(runner.global, 7);
    assert!(runner.bridge_ready);
}

#[test]
fn each_script_runs_once_from_its_own_source() {
    let mut host = Host::new();
    let mut set_up = 0;
    let mut runs = Vec::new();
    for (global, source) in [(7, "let a = 1"), (8, ""), (7, "h\u{e9}")] {
        let mut script = host.run_mersey_script(global, source);
        while script.next != Launch::Stop {
            match host.order(&script) {
                Some(o) => runs.push((o.engine, o.entry, o.source.to_string())),
                None => set_up += 1,
            }
            host.launched(&mut script, 4096);
        }
        assert!(host.order(&script).is_none());
    }
    assert_eq!(set_up, 4);
    assert_eq!(
        runs,
        vec![
            (4096, 7, "let a = 1".to_string()),
            (4096, 8, String::new()),
            (4096, 7, "h\u{e9}".to_string())
        ]
    );
}

#[test]
fn a_later_script_only_runs() {
    let mut host = Host::new();
    launch(&mut host, 7, 4096);
    host.intern("style", 3);
    assert_eq!(launch(&mut host, 8, 1), vec![Launch::Run]);
    let runner = host.runner.as_ref().unwrap();
    assert_eq!(runner.ctx, 4096);
    assert_eq!(runner.global, 8);
    assert_eq!(runner.hot.len(), 4);
}

#[test]
fn no_script_runs_without_an_engine() {
    let mut host = Host::new();
    assert_eq!(launch(&mut host, 7, 0), vec![Launch::CreateContext]);
    assert_eq!(launch(&mut host, 8, 0), Vec::<Launch>::new());
    assert!(!host.ensure_runner(9));
}

#[test]
fn a_rejected_console_turn_throws_its_diagnostics() {
    assert_eq!(end(mersey_repl(Some(b"!100% wrong"))), (1, "100%% wrong".to_string()));
    assert_eq!(end(mersey_repl(Some(b"!"))), (1, String::new()));
    assert_eq!(end(end_repl("!a\0b".to_string())), (1, String::new()));
}

#[test]
fn a_console_turn_echoes_its_value() {
    assert_eq!(end(mersey_repl(Some(b"42"))), (2, "42".to_string()));
    assert_eq!(end(mersey_repl(Some(b"50%"))), (2, "50%".to_string()));
    assert_eq!(end(mersey_repl(Some(b""))), (0, String::new()));
    assert_eq!(end(mersey_repl(None)), (0, String::new()));
    assert_eq!(end(mersey_repl(Some(&[0x61, 0xff, 0x62]))), (2, "a\u{fffd}b".to_string()));
}

#[test]
fn a_console_call_is_a_turn_with_a_runner_and_a_string() {
    let mut host = Host::new();
    assert!(!host.repl_accepts(1, true));
    host.ensure_runner(1);
    assert!(host.repl_accepts(1, true));
    assert!(!host.repl_accepts(0, true));
    assert!(!host.repl_accepts(1, false));
}

#[test]
fn a_console_turn_runs_its_source_in_the_engine() {
    let mut host = Host::new();
    assert!(host.repl_turn(1, Some("1 + 1")).is_none());
    launch(&mut host, 7, 4096);
    let turn = host.repl_turn(1, Some("1 + 1")).unwrap();
    assert_eq!((turn.engine, turn.source), (4096, "1 + 1"));
    assert!(host.repl_turn(0, Some("1 + 1")).is_none());
    assert!(host.repl_turn(1, None).is_none());
}

#[test]
fn a_closure_is_invoked_in_the_engine() {
    let mut host = Host::new();
    assert!(host.invocation(2, 0, None).is_none());
    launch(&mut host, 7, 4096);
    let call = host.invocation(2, 3.9f64.to_bits(), Some("[1]".to_string())).unwrap();
    assert_eq!((call.engine, call.callback, call.args), (4096, 3, "[1]".to_string()));
    let call = host.invocation(3, f64::NAN.to_bits(), None).unwrap();
    assert_eq!((call.engine, call.callback, call.args), (4096, 0, "[]".to_string()));
    assert!(host.invocation(1, 0, None).is_none());
}

#[test]
fn the_page_invokes_a_closure() {
    let mut host = Host::new();
    assert!(!host.invoke_accepts(2));
    host.ensure_runner(1);
    assert!(host.invoke_accepts(2));
    assert!(!host.invoke_accepts(1));
    assert_eq!(mersey_invoke(3.0f64.to_bits(), None), (3, "[]".to_string()));
    assert_eq!(
        mersey_invoke((-1.0f64).to_bits(), Some("[1]".to_string())),
        (0, "[1]".to_string())
    );
}

#[test]
fn the_clock_depends_on_the_epoch_and_the_runner() {
    let mut host = Host::new();
    assert_eq!(host_time_ms(&host, 1), Clock::Wall);
    assert_eq!(host_time_ms(&host, 0), Clock::Stopped);
    host.ensure_runner(1);
    assert_eq!(host_time_ms(&host, 0), Clock::Runner);
    assert_eq!(host_time_ms(&host, -1), Clock::Wall);
}

#[test]
fn a_clock_shows_its_own_time() {
    let zero = Time { secs: 0, nanos: 0 };
    let wall = Time { secs: 1_700_000_000, nanos: 5 };
    let run = Time { secs: 2, nanos: 7 };
    assert_eq!(Clock::Wall.read(Some(wall), run), wall);
    assert_eq!(Clock::Wall.read(None, run), zero);
    assert_eq!(Clock::Runner.read(Some(wall), run), run);
    assert_eq!(Clock::Stopped.read(Some(wall), run), zero);
}

#[test]
fn a_line_ends_in_a_newline() {
    assert_eq!(host_print(b"hi"), b"hi\n".to_vec());
    assert_eq!(host_print(b""), b"\n".to_vec());
}

#[test]
fn the_capabilities_cover_the_web() {
    assert_eq!(host_caps(), "[\"dom\",\"web\",\"time\",\"random\",\"net\",\"storage\"]");
}

#[test]
fn the_table_offers_the_web_and_not_the_rest() {
    let table = host_table();
    assert!(table.print && table.caps && table.time_ms && table.web_intern && table.web_bind);
    assert!(table.web_get_u16 && table.web_set_u16 && table.web_call_u16 && table.web_new_u16);
    assert!(!table.print_level && !table.error && !table.random_bytes);
    assert!(!table.web_bytes_read && !table.web_bytes_write);
    assert!(!table.web_set_str && !table.web_set_num);
    assert!(!table.dom_set_text && !table.dom_get_text && !table.dom_add_listener);
}
