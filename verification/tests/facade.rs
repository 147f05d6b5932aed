use rterm::logger::{
    debug, error, info, log, print_line, set_logger, success, warning, GlobalLogger,
};
use rterm::messages::MessageLogger;
use rterm::repl::{Context, Dispatch, Terminal, BANNER};

fn lines(slot: &GlobalLogger) -> Option<Vec<String>> {
    slot.logger().map(|l| l.snapshot())
}

#[test]
fn calls_before_binding_do_nothing() {
    let mut slot = GlobalLogger::new();
    log(&mut slot, "a".to_string());
    print_line(&mut slot, "b");
    info(&mut slot, "c");
    error(&mut slot, "d");
    success(&mut slot, "e");
    warning(&mut slot, "f");
    debug(&mut slot, "g");
    assert!(slot.logger().is_none());
}

#[test]
fn calls_after_binding_reach_the_log() {
    let mut slot = GlobalLogger::new();
    set_logger(&mut slot, MessageLogger::new());
    log(&mut slot, "a\nb".to_string());
    print_line(&mut slot, "c");
    info(&mut slot, "d");
    error(&mut slot, "e");
    success(&mut slot, "f");
    warning(&mut slot, "g");
    debug(&mut slot, "h");
    assert_eq!(
        lines(&slot).unwrap(),
        vec!["a", "b", "c", "[INFO] d", "[ERROR] e", "[SUCCESS] f", "[WARNING] g", "[DEBUG] h"]
    );
}

#[test]
fn binding_keeps_what_the_log_held() {
    let mut held = MessageLogger::with_capacity(2);
    held.log("old".to_string());
    let mut slot = GlobalLogger::new();
    set_logger(&mut slot, held);
    info(&mut slot, "x\ny");
    assert_eq!(lines(&slot).unwrap(), vec!["[INFO] x", "y"]);
    assert_eq!(slot.logger().unwrap().capacity(), 2);
}

#[test]
fn binding_again_replaces_the_log() {
    let mut slot = GlobalLogger::new();
    set_logger(&mut slot, MessageLogger::new());
    info(&mut slot, "first session");
    set_logger(&mut slot, MessageLogger::new());
    assert_eq!(lines(&slot).unwrap(), Vec::<String>::new());
}

#[test]
fn banner_is_seven_lines() {
    let mut log = MessageLogger::new();
    Terminal::new().add_banner(&mut log);
    let held = log.snapshot();
    assert_eq!(held.len(), 7);
    for (i, line) in held.iter().take(6).enumerate() {
        assert!(line.starts_with(&format!("[RUST{}] ", i + 1)), "{:?}", line);
    }
    assert_eq!(held[6], "");
    assert_eq!(held[..6], BANNER);
    assert_eq!(held[0], "[RUST1] ‚Ėą‚Ėą‚Ėą‚Ėą‚Ėą‚Ėą‚ēó ‚Ėą‚Ėą‚ēó‚Ėą‚Ėą‚Ėą‚Ėą‚Ėą‚Ėą‚Ėą‚ēó ‚Ėą‚Ėą‚Ėą‚Ėą‚Ėą‚Ėą‚ēó ‚Ėą‚Ėą‚Ėą‚Ėą‚Ėą‚Ėą‚Ėą‚ēó");
    assert_eq!(held[5], "[RUST6] ‚ēö‚ēź‚ēĚ  ‚ēö‚ēź‚ēĚ‚ēö‚ēź‚ēĚ‚ēö‚ēź‚ēź‚ēź‚ēź‚ēź‚ēź‚ēĚ ‚ēö‚ēź‚ēź‚ēź‚ēź‚ēź‚ēĚ ‚ēö‚ēź‚ēź‚ēź‚ēź‚ēź‚ēź‚ēĚ");
}

#[test]
fn banner_in_a_small_log_keeps_its_end() {
    let mut log = MessageLogger::with_capacity(2);
    log.log("before".to_string());
    Terminal::new().add_banner(&mut log);
    let held = log.snapshot();
    assert_eq!(held.len(), 2);
    assert!(held[0].starts_with("[RUST6] "));
    assert_eq!(held[1], "");
}

#[test]
fn open_session_binds_a_log_with_the_banner() {
    let mut ctx = Context::new();
    let ui = Terminal::new().open_session(&mut ctx);
    assert_eq!(ui.prompt().as_str(), "rmc > ");
    assert_eq!(ui.input(), "");
    assert_eq!(ui.history_len(), 0);
    let shown = ui.get_message_logger().snapshot();
    assert_eq!(shown.len(), 7);
    assert_eq!(lines(&ctx.logger).unwrap(), shown);
    assert_eq!(ctx.logger.logger().unwrap().capacity(), 1000);
    assert!(!ctx.shutdown_requested());
}

#[test]
fn fresh_context() {
    let ctx = Context::new();
    assert!(ctx.logger.logger().is_none());
    assert!(!ctx.shutdown_requested());
    assert!(ctx.candidates().is_empty());
}

#[test]
fn shutdown_request_is_remembered() {
    let mut ctx = Context::new();
    ctx.add_candidate("x".to_string());
    ctx.request_shutdown();
    assert!(ctx.shutdown_requested());
    assert_eq!(ctx.candidates(), vec!["x"]);
    ctx.request_shutdown();
    assert!(ctx.shutdown_requested());
}

#[test]
fn candidates_come_in_order_and_are_cleared() {
    let mut ctx = Context::new();
    ctx.add_candidate("foo".to_string());
    ctx.add_candidate("foobar".to_string());
    assert_eq!(ctx.candidates(), vec!["foo", "foobar"]);
    ctx.clear_candidates();
    assert!(ctx.candidates().is_empty());
    ctx.add_candidate("bar".to_string());
    assert_eq!(ctx.candidates(), vec!["bar"]);
}

#[test]
fn completion_round() {
    let mut ctx = Context::new();
    let mut ui = Terminal::new().open_session(&mut ctx);
    ui.handle_key(rterm::ui::KeyEvent { code: rterm::ui::KeyCode::Char('f'), control: false });
    ctx.clear_candidates();
    ctx.add_candidate("foo".to_string());
    ctx.add_candidate("foobar".to_string());
    ui.apply_suggestions(&ctx.candidates());
    assert_eq!((ui.input().as_str(), ui.cursor_position()), ("foo", 3));
}

fn bound_context() -> Context {
    let mut ctx = Context::new();
    set_logger(&mut ctx.logger, MessageLogger::new());
    ctx
}

#[test]
fn dispatch_exits_on_shutdown() {
    let mut ctx = bound_context();
    ctx.request_shutdown();
    let terminal = Terminal::new();
    assert_eq!(terminal.dispatch(&mut ctx, true, " stop "), Dispatch::Exit);
    assert_eq!(terminal.dispatch(&mut ctx, false, " stop "), Dispatch::Exit);
    assert_eq!(lines(&ctx.logger).unwrap(), Vec::<String>::new());
    assert!(ctx.shutdown_requested());
}

#[test]
fn dispatch_forwards_the_trimmed_line() {
    let mut ctx = bound_context();
    let terminal = Terminal::new();
    assert_eq!(
        terminal.dispatch(&mut ctx, true, "  say hello \t"),
        Dispatch::Forward("say hello".to_string())
    );
    assert_eq!(terminal.dispatch(&mut ctx, true, "   "), Dispatch::Forward(String::new()));
    assert_eq!(lines(&ctx.logger).unwrap(), Vec::<String>::new());
}

#[test]
fn dispatch_without_handler_logs_an_error() {
    let mut ctx = bound_context();
    let terminal = Terminal::new();
    assert_eq!(terminal.dispatch(&mut ctx, false, "help"), Dispatch::Dropped);
    assert_eq!(lines(&ctx.logger).unwrap(), vec!["[ERROR] Backend disconnected."]);
    let mut unbound = Context::new();
    assert_eq!(terminal.dispatch(&mut unbound, false, "help"), Dispatch::Dropped);
    assert!(unbound.logger.logger().is_none());
}
