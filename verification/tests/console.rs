use rye::console::builtin::Builtin;
use rye::console::command::{cmd, Command};
use rye::console::completion::{apply_completion, find_context, CompletionContext};
use rye::console::line::{CommandError, CommandResult, ConsoleWriter, HistoryLine, LineKind};
use rye::console::model::{MAX_HISTORY_LINES, MAX_INPUT_HISTORY};
use rye::console::parse::{parse_line, tokenize, tokenize_partial};
use rye::console::subcommands::{subcommands, FnHandler, SubcommandSet};
use rye::console::{key_text, Console, FrameKeys, PanelKeys};
use rye::keys::Key;

type Ctx = u32;

fn echo_cmd() -> Box<dyn Command<Ctx>> {
    Box::new(cmd(
        "echo",
        "echo args back",
        |args: &[&str], _ctx: &mut Ctx, out: &mut ConsoleWriter| -> CommandResult {
            out.line(&args.join(" "));
            Ok(())
        },
    ))
}

fn add_cmd() -> Box<dyn Command<Ctx>> {
    Box::new(cmd(
        "add",
        "add args to ctx",
        |args: &[&str], ctx: &mut Ctx, out: &mut ConsoleWriter| -> CommandResult {
            for a in args {
                match a.parse::<u32>() {
                    Ok(n) => *ctx += n,
                    Err(e) => return Err(CommandError::new(&e.to_string())),
                }
            }
            out.line(&format!("ctx={ctx}"));
            Ok(())
        },
    ))
}

fn nothing(_args: &[&str], _ctx: &mut Ctx, _out: &mut ConsoleWriter) -> CommandResult {
    Ok(())
}

fn matches_of<T>(c: &Console<T>) -> Vec<String> {
    let ctx = c.completion_context().unwrap();
    c.completion_matches(&ctx)
}

fn has(v: &[String], s: &str) -> bool {
    v.iter().any(|x| x == s)
}

#[test]
fn tab_preview_shows_first_match_suffix() {
    let mut c = Console::<Ctx>::new();

    c.input = String::new();
    assert_eq!(c.tab_preview(), None);

    c.input = "de".into();
    assert_eq!(c.tab_preview().as_deref(), Some("tach"));

    c.input = "do".into();
    assert_eq!(c.tab_preview().as_deref(), Some("ck"));

    c.input = "cl".into();
    assert_eq!(c.tab_preview().as_deref(), Some("ear"));

    c.input = "h".into();
    assert_eq!(c.tab_preview().as_deref(), Some("elp"));

    c.input = "d".into();
    assert_eq!(c.tab_preview().as_deref(), Some("etach"));

    c.input = "zzz".into();
    assert_eq!(c.tab_preview(), None);
}

#[test]
fn tab_preview_completes_declared_arg_choices() {
    let mut c = Console::<Ctx>::new();
    c.register(Box::new(cmd("capture", "", nothing).with_args(&[
        &["png", "frames", "toggle", "stop"],
        &["pre", "post", "both"],
    ])));

    c.input = "capture p".into();
    assert_eq!(c.tab_preview().as_deref(), Some("ng"));

    c.input = "capture t".into();
    assert_eq!(c.tab_preview().as_deref(), Some("oggle"));

    c.input = "capture png ".into();
    assert_eq!(c.tab_preview().as_deref(), Some("both"));

    c.input = "capture png po".into();
    assert_eq!(c.tab_preview().as_deref(), Some("st"));

    c.input = "capture png post extra ".into();
    assert_eq!(c.tab_preview(), None);
}

#[test]
fn two_step_kv_value_completion() {
    let mut c = Console::<Ctx>::new();
    c.register(Box::new(
        cmd("capture", "", nothing)
            .with_args(&[&["fps=", "palette="]])
            .with_value_choices("palette", &["local", "global"]),
    ));

    c.input = "capture pal".into();
    assert_eq!(c.tab_preview().as_deref(), Some("ette="));
    c.tab_complete();
    assert_eq!(c.input, "capture palette=");

    assert_eq!(matches_of(&c), vec!["palette=global", "palette=local"]);

    c.input = "capture fps=".into();
    let matches = matches_of(&c);
    assert!(matches.is_empty(), "fps= should suggest no values; got {matches:?}");
    assert_eq!(c.tab_preview(), None);
}

#[test]
fn arg_completion_filters_already_used_kv_prefixes() {
    let mut c = Console::<Ctx>::new();
    c.register(Box::new(cmd("rec", "", nothing).with_args(&[
        &["both", "fps=", "post", "scale="],
        &["fps=", "scale="],
        &["fps=", "scale="],
    ])));

    c.input = "rec ".into();
    let m = matches_of(&c);
    assert!(has(&m, "fps="));
    assert!(has(&m, "scale="));

    c.input = "rec fps=30 ".into();
    let m = matches_of(&c);
    assert!(!has(&m, "fps="), "got matches: {m:?}");
    assert!(has(&m, "scale="));

    c.input = "rec fps=30 scale=720 ".into();
    let m = matches_of(&c);
    assert!(m.is_empty(), "got matches: {m:?}");
}

#[test]
fn tab_complete_applies_arg_choice() {
    let mut c = Console::<Ctx>::new();
    c.register(Box::new(cmd("capture", "", nothing).with_args(&[
        &["png", "frames", "toggle", "stop"],
        &["pre", "post", "both"],
    ])));

    c.input = "capture p".into();
    c.tab_complete();
    assert_eq!(c.input, "capture png");

    c.input = "capture png p".into();
    c.tab_complete();
    assert_eq!(c.input, "capture png post");
    c.tab_complete();
    assert_eq!(c.input, "capture png pre");
}

#[test]
fn parse_line_handles_basic_cases() {
    assert_eq!(parse_line("foo"), Some(("foo".into(), vec![])));
    assert_eq!(
        parse_line("foo bar baz"),
        Some(("foo".into(), vec!["bar".into(), "baz".into()]))
    );
    assert_eq!(
        parse_line("  foo   bar  "),
        Some(("foo".into(), vec!["bar".into()]))
    );
    assert_eq!(parse_line(""), None);
    assert_eq!(parse_line("   "), None);
}

#[test]
fn execute_echoes_input_and_collects_output() {
    let mut c = Console::<Ctx>::new();
    c.register(echo_cmd());
    let mut ctx: Ctx = 0;
    c.execute("echo hello world", &mut ctx);

    let lines: Vec<&HistoryLine> = c.history.iter().collect();
    assert_eq!(lines.len(), 2);
    assert_eq!(lines[0].kind, LineKind::Input);
    assert_eq!(lines[0].text, "> echo hello world");
    assert_eq!(lines[1].kind, LineKind::Output);
    assert_eq!(lines[1].text, "hello world");
}

#[test]
fn execute_mutates_ctx() {
    let mut c = Console::<Ctx>::new();
    c.register(add_cmd());
    let mut ctx: Ctx = 10;
    c.execute("add 5 3", &mut ctx);
    assert_eq!(ctx, 18);
}

#[test]
fn unknown_command_produces_error_line() {
    let mut c = Console::<Ctx>::new();
    let mut ctx: Ctx = 0;
    c.execute("nope", &mut ctx);
    let last = c.history.back().unwrap();
    assert_eq!(last.kind, LineKind::Error);
    assert!(last.text.contains("nope"));
}

#[test]
fn builtin_help_lists_registered_and_builtin() {
    let mut c = Console::<Ctx>::new();
    c.register(echo_cmd());
    let mut ctx: Ctx = 0;
    c.execute("help", &mut ctx);
    let texts: Vec<&str> = c.history.iter().map(|l| l.text.as_str()).collect();
    assert!(texts.iter().any(|t| t.contains("commands:")));
    assert!(texts.iter().any(|t| t.contains("echo")));
    assert!(texts.iter().any(|t| t.contains("help")));
    assert!(texts.iter().any(|t| t.contains("clear")));
}

#[test]
fn builtin_help_describes_one_command() {
    let mut c = Console::<Ctx>::new();
    c.register(echo_cmd());
    let mut ctx: Ctx = 0;
    c.execute("help echo", &mut ctx);
    let last = c.history.back().unwrap();
    assert_eq!(last.kind, LineKind::Output);
    assert!(last.text.contains("echo"));
    assert!(last.text.contains("echo args back"));
}

#[test]
fn builtin_clear_empties_scrollback() {
    let mut c = Console::<Ctx>::new();
    c.register(echo_cmd());
    let mut ctx: Ctx = 0;
    c.execute("echo a", &mut ctx);
    c.execute("echo b", &mut ctx);
    assert!(!c.history.is_empty());
    c.execute("clear", &mut ctx);
    assert!(c.history.is_empty());
}

#[test]
fn input_history_appends_and_dedupes_consecutive() {
    let mut c = Console::<Ctx>::new();
    c.register(echo_cmd());
    let mut ctx: Ctx = 0;
    c.execute("echo a", &mut ctx);
    c.execute("echo a", &mut ctx);
    c.execute("echo b", &mut ctx);
    let h: Vec<&str> = c.input_history.iter().map(String::as_str).collect();
    assert_eq!(h, vec!["echo a", "echo b"]);
}

#[test]
fn input_history_caps_at_max() {
    let mut c = Console::<Ctx>::new();
    c.register(echo_cmd());
    let mut ctx: Ctx = 0;
    for i in 0..(MAX_INPUT_HISTORY + 50) {
        c.execute(&format!("echo n{i}"), &mut ctx);
    }
    assert_eq!(c.input_history.len(), MAX_INPUT_HISTORY);
    assert!(c.input_history.front().unwrap().starts_with("echo n50"));
}

#[test]
fn history_caps_at_max() {
    let mut c = Console::<Ctx>::new();
    c.register(echo_cmd());
    let mut ctx: Ctx = 0;
    for i in 0..(MAX_HISTORY_LINES + 100) {
        c.execute(&format!("echo {i}"), &mut ctx);
    }
    assert_eq!(c.history.len(), MAX_HISTORY_LINES);
}

#[test]
fn history_prev_walks_backwards_then_history_next_returns_to_blank() {
    let mut c = Console::<Ctx>::new();
    c.register(echo_cmd());
    let mut ctx: Ctx = 0;
    c.execute("echo first", &mut ctx);
    c.execute("echo second", &mut ctx);

    c.history_prev();
    assert_eq!(c.input, "echo second");
    c.history_prev();
    assert_eq!(c.input, "echo first");
    c.history_prev();
    assert_eq!(c.input, "echo first");
    c.history_next();
    assert_eq!(c.input, "echo second");
    c.history_next();
    assert_eq!(c.input, "");
}

#[test]
fn tab_complete_unique_prefix_completes_immediately() {
    let mut c = Console::<Ctx>::new();
    c.register(echo_cmd());
    c.input.clone_from(&"ec".to_string());
    c.tab_complete();
    assert_eq!(c.input, "echo");
    assert!(c.tab.is_none());
}

#[test]
fn tab_complete_ambiguous_prefix_cycles() {
    let mut c = Console::<Ctx>::new();
    c.register(Box::new(cmd("capture.start", "x", nothing)));
    c.register(Box::new(cmd("capture.stop", "x", nothing)));
    c.register(Box::new(cmd("capture.toggle", "x", nothing)));
    c.input.clone_from(&"capture.s".to_string());

    c.tab_complete();
    assert_eq!(c.input, "capture.start");
    c.tab_complete();
    assert_eq!(c.input, "capture.stop");
    c.tab_complete();
    assert_eq!(c.input, "capture.start");
}

#[test]
fn tab_complete_no_match_is_noop() {
    let mut c = Console::<Ctx>::new();
    c.register(echo_cmd());
    c.input.clone_from(&"xyz".to_string());
    c.tab_complete();
    assert_eq!(c.input, "xyz");
}

#[test]
fn bind_and_unbind() {
    let mut c = Console::<Ctx>::new();
    c.bind(Key::F(9), "echo hello");
    assert_eq!(
        c.binds.iter().find(|b| b.0 == Key::F(9)).map(|b| b.1.as_str()),
        Some("echo hello")
    );
    c.unbind(Key::F(9));
    assert!(!c.binds.iter().any(|b| b.0 == Key::F(9)));
}

#[test]
fn detach_and_dock_methods_flip_state() {
    let mut c = Console::<Ctx>::new();
    assert!(!c.is_detached());
    c.detach();
    assert!(c.is_detached());
    c.detach();
    assert!(c.is_detached());
    c.dock();
    assert!(!c.is_detached());
    c.dock();
    assert!(!c.is_detached());
}

#[test]
fn builtin_detach_command_flips_state_and_emits_system_line() {
    let mut c = Console::<Ctx>::new();
    let mut ctx: Ctx = 0;
    c.execute("detach", &mut ctx);
    assert!(c.is_detached());
    let last = c.history.back().unwrap();
    assert_eq!(last.kind, LineKind::System);
    assert!(last.text.contains("detached"));
    c.execute("dock", &mut ctx);
    assert!(!c.is_detached());
    let last = c.history.back().unwrap();
    assert_eq!(last.kind, LineKind::System);
    assert!(last.text.contains("docked"));
}

#[test]
fn builtin_help_lists_detach_and_dock() {
    let mut c = Console::<Ctx>::new();
    let mut ctx: Ctx = 0;
    c.execute("help", &mut ctx);
    let texts: Vec<&str> = c.history.iter().map(|l| l.text.as_str()).collect();
    assert!(texts.iter().any(|t| t.contains("detach")));
    assert!(texts.iter().any(|t| t.contains("dock")));
}

#[test]
fn tab_complete_includes_detach_and_dock() {
    let mut c = Console::<Ctx>::new();
    c.input.clone_from(&"de".to_string());
    c.tab_complete();
    assert_eq!(c.input, "detach");
}

#[test]
fn command_returning_err_pushes_error_line() {
    let mut c = Console::<Ctx>::new();
    c.register(Box::new(cmd(
        "fail",
        "always fails",
        |_a: &[&str], _c: &mut Ctx, _o: &mut ConsoleWriter| -> CommandResult {
            Err(CommandError::new("nope"))
        },
    )));
    let mut ctx: Ctx = 0;
    c.execute("fail", &mut ctx);
    let last = c.history.back().unwrap();
    assert_eq!(last.kind, LineKind::Error);
    assert!(last.text.contains("nope"));
}

// ----------------- SubcommandSet -----------------

type SubCtx = (u32, String);

fn sample_subset() -> SubcommandSet<SubCtx> {
    let set: SubcommandSet<SubCtx> = subcommands("tests", "umbrella");
    set.toggle(
        "axes",
        "toggle axes",
        Box::new(FnHandler {
            f: |c: &mut SubCtx, v: bool| -> CommandResult {
                c.0 = if v { 1 } else { 0 };
                c.1 = format!("axes={v}");
                Ok(())
            },
        }),
    )
    .toggle(
        "cube",
        "toggle cube",
        Box::new(FnHandler {
            f: |c: &mut SubCtx, v: bool| -> CommandResult {
                c.0 = if v { 2 } else { 0 };
                c.1 = format!("cube={v}");
                Ok(())
            },
        }),
    )
    .choice(
        "polytope",
        "set polytope",
        &["5cell", "tesseract", "off"],
        Box::new(FnHandler {
            f: |c: &mut SubCtx, name: &str| -> CommandResult {
                c.1 = format!("polytope={name}");
                Ok(())
            },
        }),
    )
}

#[test]
fn subcommand_dispatch_runs_correct_handler() {
    let mut con = Console::<SubCtx>::new();
    con.register(Box::new(sample_subset()));
    let mut ctx: SubCtx = (0, String::new());

    con.execute("tests axes on", &mut ctx);
    assert_eq!(ctx, (1, "axes=true".into()));

    con.execute("tests cube off", &mut ctx);
    assert_eq!(ctx, (0, "cube=false".into()));

    con.execute("tests polytope tesseract", &mut ctx);
    assert_eq!(ctx.1, "polytope=tesseract");
}

#[test]
fn subcommand_toggle_accepts_aliases() {
    let mut con = Console::<SubCtx>::new();
    con.register(Box::new(sample_subset()));
    let mut ctx: SubCtx = (0, String::new());
    for alias in &["on", "true", "1"] {
        con.execute(&format!("tests axes {alias}"), &mut ctx);
        assert_eq!(ctx.1, "axes=true", "alias `{alias}`");
    }
    for alias in &["off", "false", "0"] {
        con.execute(&format!("tests axes {alias}"), &mut ctx);
        assert_eq!(ctx.1, "axes=false", "alias `{alias}`");
    }
}

#[test]
fn subcommand_unknown_subcommand_errors() {
    let mut con = Console::<SubCtx>::new();
    con.register(Box::new(sample_subset()));
    let mut ctx: SubCtx = (0, String::new());
    con.execute("tests xyzzy on", &mut ctx);
    let last = con.history.back().unwrap();
    assert_eq!(last.kind, LineKind::Error);
    assert!(last.text.contains("unknown subcommand"), "got: {}", last.text);
}

#[test]
fn subcommand_missing_value_errors() {
    let mut con = Console::<SubCtx>::new();
    con.register(Box::new(sample_subset()));
    let mut ctx: SubCtx = (0, String::new());
    con.execute("tests axes", &mut ctx);
    let last = con.history.back().unwrap();
    assert_eq!(last.kind, LineKind::Error);
    assert!(last.text.contains("usage"), "got: {}", last.text);
}

#[test]
fn subcommand_value_completion_is_context_aware() {
    let mut con = Console::<SubCtx>::new();
    con.register(Box::new(sample_subset()));

    con.input = "tests axes ".into();
    assert_eq!(matches_of(&con), vec!["off".to_string(), "on".to_string()]);

    con.input = "tests polytope ".into();
    let m = matches_of(&con);
    assert_eq!(
        m,
        vec!["5cell".to_string(), "off".to_string(), "tesseract".to_string()]
    );
    assert!(!has(&m, "on"));
}

#[test]
fn subcommand_first_slot_completion_lists_subcommands() {
    let mut con = Console::<SubCtx>::new();
    con.register(Box::new(sample_subset()));
    con.input = "tests ".into();
    assert_eq!(
        matches_of(&con),
        vec!["axes".to_string(), "cube".to_string(), "polytope".to_string()]
    );
}

// ----------------- Custom subcommands -----------------

type CustomCtx = Vec<String>;

fn custom_subset() -> SubcommandSet<CustomCtx> {
    let set: SubcommandSet<CustomCtx> = subcommands("capture", "umbrella");
    set.custom(
        "stop",
        "stop running capture",
        &[],
        &[],
        Box::new(FnHandler {
            f: |c: &mut CustomCtx, rest: &[&str], _out: &mut ConsoleWriter| -> CommandResult {
                c.push(format!("stop;rest={}", rest.join(",")));
                Ok(())
            },
        }),
    )
    .custom(
        "png",
        "one-shot png",
        &[&["pre", "post", "both"]],
        &[],
        Box::new(FnHandler {
            f: |c: &mut CustomCtx, rest: &[&str], _out: &mut ConsoleWriter| -> CommandResult {
                c.push(format!("png;rest={}", rest.join(",")));
                Ok(())
            },
        }),
    )
    .custom(
        "gif",
        "gif sequence",
        &[
            &["pre", "post", "both"],
            &["fps=", "palette=", "scale="],
            &["fps=", "palette=", "scale="],
        ],
        &[("palette", &["local", "global"])],
        Box::new(FnHandler {
            f: |c: &mut CustomCtx, rest: &[&str], _out: &mut ConsoleWriter| -> CommandResult {
                c.push(format!("gif;rest={}", rest.join(",")));
                Ok(())
            },
        }),
    )
}

#[test]
fn custom_subcommand_dispatch_receives_full_rest() {
    let mut con = Console::<CustomCtx>::new();
    con.register(Box::new(custom_subset()));
    let mut ctx: CustomCtx = Vec::new();

    con.execute("capture png post", &mut ctx);
    con.execute("capture gif both fps=30 palette=global", &mut ctx);
    con.execute("capture stop", &mut ctx);

    assert_eq!(
        ctx,
        vec![
            "png;rest=post".to_string(),
            "gif;rest=both,fps=30,palette=global".to_string(),
            "stop;rest=".to_string(),
        ]
    );
}

#[test]
fn custom_multi_slot_completion_per_slot() {
    let mut con = Console::<CustomCtx>::new();
    con.register(Box::new(custom_subset()));

    con.input = "capture gif ".into();
    assert_eq!(
        matches_of(&con),
        vec!["both".to_string(), "post".to_string(), "pre".to_string()]
    );

    con.input = "capture gif post ".into();
    let m = matches_of(&con);
    assert!(has(&m, "fps="));
    assert!(has(&m, "palette="));
    assert!(has(&m, "scale="));

    con.input = "capture png ".into();
    let m = matches_of(&con);
    assert!(has(&m, "post"));
    assert!(!has(&m, "fps="), "got: {m:?}");

    con.input = "capture stop ".into();
    let m = matches_of(&con);
    assert!(m.is_empty(), "got: {m:?}");
}

#[test]
fn custom_subcommand_kv_value_completion_is_context_aware() {
    let mut con = Console::<CustomCtx>::new();
    con.register(Box::new(custom_subset()));

    con.input = "capture gif post palette=".into();
    assert_eq!(
        matches_of(&con),
        vec!["palette=global".to_string(), "palette=local".to_string()]
    );
}

// ----------------- Quoted-string tokenizer -----------------

#[test]
fn tokenize_handles_bare_words() {
    assert_eq!(tokenize("foo bar baz"), vec!["foo", "bar", "baz"]);
    assert_eq!(tokenize("   foo    bar  "), vec!["foo", "bar"]);
    assert_eq!(tokenize(""), Vec::<String>::new());
}

#[test]
fn tokenize_preserves_spaces_in_double_quotes() {
    assert_eq!(tokenize(r#"foo "bar baz" qux"#), vec!["foo", "bar baz", "qux"]);
}

#[test]
fn tokenize_preserves_spaces_in_single_quotes() {
    assert_eq!(tokenize("foo 'bar baz' qux"), vec!["foo", "bar baz", "qux"]);
}

#[test]
fn tokenize_handles_double_quote_escapes() {
    assert_eq!(
        tokenize(r#"a "he said \"hi\"" b"#),
        vec!["a", r#"he said "hi""#, "b"]
    );
    assert_eq!(tokenize(r#""back\\slash""#), vec![r"back\slash"]);
}

#[test]
fn tokenize_single_quotes_are_literal() {
    assert_eq!(tokenize(r"'a \n b'"), vec![r"a \n b"]);
}

#[test]
fn tokenize_unterminated_quote_consumes_to_end() {
    assert_eq!(tokenize(r#"foo "unterminated"#), vec!["foo", "unterminated"]);
}

#[test]
fn parse_line_routes_quoted_args_to_handler() {
    let mut con = Console::<Vec<String>>::new();
    con.register(Box::new(cmd(
        "echoargs",
        "record args",
        |args: &[&str], c: &mut Vec<String>, _out: &mut ConsoleWriter| -> CommandResult {
            for a in args {
                c.push((*a).to_string());
            }
            Ok(())
        },
    )));
    let mut ctx: Vec<String> = Vec::new();
    con.execute(r#"echoargs "5 cell" off"#, &mut ctx);
    assert_eq!(ctx, vec!["5 cell".to_string(), "off".to_string()]);
}

// ----------------- Built-ins -----------------

#[test]
fn builtin_from_name_round_trips() {
    for b in Builtin::all() {
        assert_eq!(Builtin::from_name(b.name()), Some(b));
    }
    assert_eq!(Builtin::from_name("nope"), None);
}

#[test]
fn help_lists_user_commands_and_builtins_sorted() {
    let mut con = Console::<Ctx>::new();
    con.register(Box::new(cmd("zebra", "fast horse", nothing)));
    con.register(Box::new(cmd("alpha", "first letter", nothing)));
    let mut ctx: Ctx = 0;
    con.execute("help", &mut ctx);
    let texts: Vec<&str> = con.history.iter().map(|h| h.text.as_str()).collect();
    let i_alpha = texts.iter().position(|t| t.contains("alpha")).unwrap();
    let i_clear = texts.iter().position(|t| t.contains("clear")).unwrap();
    let i_zebra = texts.iter().position(|t| t.contains("zebra")).unwrap();
    assert!(i_alpha < i_clear);
    assert!(i_clear < i_zebra);
}

#[test]
fn clear_builtin_empties_history() {
    let mut con = Console::<Ctx>::new();
    let mut ctx: Ctx = 0;
    con.push_history(HistoryLine::output("first"));
    con.push_history(HistoryLine::output("second"));
    con.execute("clear", &mut ctx);
    assert!(con.history.is_empty());
}

#[test]
fn detach_dock_builtins_flip_flag() {
    let mut con = Console::<Ctx>::new();
    let mut ctx: Ctx = 0;
    assert!(!con.detached);
    con.execute("detach", &mut ctx);
    assert!(con.detached);
    con.execute("dock", &mut ctx);
    assert!(!con.detached);
}

// ----------------- Whole-console behaviour -----------------

fn no_panel_keys() -> PanelKeys {
    PanelKeys { escape: false, up: false, down: false, tab: false, clear_history: false, clear_input: false }
}

#[test]
fn blank_line_is_not_echoed() {
    let mut c = Console::<Ctx>::new();
    let mut ctx: Ctx = 3;
    c.execute(" \t ", &mut ctx);
    assert!(c.history.is_empty());
    assert!(c.input_history.is_empty());
    assert_eq!(ctx, 3);
}

#[test]
fn exact_lines_of_help_and_errors() {
    let mut c = Console::<Ctx>::new();
    c.register(echo_cmd());
    let mut ctx: Ctx = 0;
    c.execute("help", &mut ctx);
    let texts: Vec<&str> = c.history.iter().map(|l| l.text.as_str()).collect();
    assert_eq!(
        texts,
        vec![
            "> help",
            "commands:",
            "  clear            clear the scrollback buffer",
            "  detach           render as a draggable window",
            "  dock             render as a half-screen drop-down (default)",
            "  echo             echo args back",
            "  help             list commands or describe one",
        ]
    );
    c.execute("nope", &mut ctx);
    assert_eq!(c.history.back().unwrap().text, "no command 'nope'. try: help");
    c.execute("help nope", &mut ctx);
    assert_eq!(c.history.back().unwrap().text, "no command 'nope'");
    assert_eq!(c.history.back().unwrap().kind, LineKind::Error);
}

#[test]
fn registering_a_name_again_replaces_the_command() {
    let mut c = Console::<Ctx>::new();
    c.register(add_cmd());
    assert!(c.has_command("add"));
    c.register(Box::new(cmd("add", "other", nothing)));
    let mut ctx: Ctx = 1;
    c.execute("add 5", &mut ctx);
    assert_eq!(ctx, 1);
    assert_eq!(c.commands.len(), 1);
    assert!(!c.has_command("sub"));
}

#[test]
fn open_close_toggle() {
    let mut c = Console::<Ctx>::new();
    assert!(!c.is_open());
    c.toggle();
    assert!(c.is_open());
    assert!(c.take_focus(true));
    assert!(!c.take_focus(true));
    assert!(c.take_focus(false));
    c.pointer_pressed(false);
    assert!(!c.take_focus(false));
    c.open();
    assert!(c.is_open());
    c.close();
    assert!(!c.is_open());
    c.open();
    assert!(!c.user_defocused);
    assert!(c.is_visible(true));
    c.detach();
    assert!(c.is_visible(false));
}

#[test]
fn keys_drive_the_console() {
    let mut c = Console::<Ctx>::new();
    c.register(add_cmd());
    c.bind(Key::F(9), "add 4");
    let mut ctx: Ctx = 0;
    let bound = FrameKeys { toggle: false, pressed: vec![Key::F(9)], panel: no_panel_keys() };
    c.ui(&bound, &mut ctx);
    assert_eq!(ctx, 4);
    let toggle = FrameKeys { toggle: true, pressed: vec![], panel: no_panel_keys() };
    c.ui(&toggle, &mut ctx);
    assert!(c.is_open());
    c.edit_input("add 6");
    c.submit(&mut ctx);
    assert_eq!(ctx, 10);
    assert_eq!(c.input, "");
    let up = FrameKeys {
        toggle: false,
        pressed: vec![],
        panel: PanelKeys { up: true, ..no_panel_keys() },
    };
    c.ui(&up, &mut ctx);
    assert_eq!(c.input, "add 6");
    assert!(c.take_cursor_to_end());
    assert!(!c.take_cursor_to_end());
    let esc = FrameKeys {
        toggle: false,
        pressed: vec![],
        panel: PanelKeys { escape: true, ..no_panel_keys() },
    };
    c.ui(&esc, &mut ctx);
    assert!(!c.is_open());
}

#[test]
fn completion_after_a_wide_space_keeps_what_was_typed() {
    let mut c = Console::<Ctx>::new();
    c.register(Box::new(cmd("rec", "", nothing).with_args(&[&["post"]])));
    c.input = "rec\u{3000}po".into();
    c.tab_complete();
    assert_eq!(c.input, "rec\u{3000}post");
}

#[test]
fn completion_keeps_quoted_arguments() {
    let mut c = Console::<Ctx>::new();
    c.register(Box::new(cmd("rec", "", nothing).with_args(&[&["x"], &["post", "pre"]])));
    c.input = r#"rec "5 cell" p"#.into();
    c.tab_complete();
    assert_eq!(c.input, r#"rec "5 cell" post"#);
}

#[test]
fn quoting_reads_back() {
    assert_eq!(tokenize(r#""" "a \"b\" \\" 'c "d"'"#), vec!["", r#"a "b" \"#, r#"c "d""#]);
    assert_eq!(tokenize("'open"), vec!["open"]);
    assert_eq!(tokenize(r#""a\tb""#), vec![r"a\tb"]);
    assert_eq!(tokenize("a\"b c\"d"), vec!["ab cd"]);
}

#[test]
fn toggle_key_text() {
    assert_eq!(key_text(Key::Backtick), Some("`"));
    assert_eq!(key_text(Key::F(1)), None);
    let c = Console::<Ctx>::new().with_toggle_key(Key::F(1));
    assert_eq!(c.toggle_key, Key::F(1));
}

#[test]
fn status_and_write() {
    let mut c = Console::<Ctx>::default();
    c.set_status("recording");
    assert_eq!(c.status, "recording");
    c.write(HistoryLine::system("hi"));
    assert_eq!(c.history.back().unwrap().kind, LineKind::System);
}

#[test]
fn completion_inside_an_open_quote_replaces_the_quoted_word() {
    let input = r#"tests "5 c"#;
    let ctx = find_context(input).unwrap();
    match &ctx {
        CompletionContext::Arg { cmd_name, arg_index, prior, prefix } => {
            assert_eq!(cmd_name, "tests");
            assert_eq!(*arg_index, 0);
            assert!(prior.is_empty());
            assert_eq!(prefix, "5 c");
        }
        _ => panic!("expected an argument"),
    }
    assert_eq!(apply_completion(input, &ctx, "5 cell"), "tests 5 cell");
    let ctx = find_context("tests 'a b' ").unwrap();
    match &ctx {
        CompletionContext::Arg { arg_index, prior, prefix, .. } => {
            assert_eq!(*arg_index, 1);
            assert_eq!(prior, &["a b"]);
            assert_eq!(prefix, "");
        }
        _ => panic!("expected an argument"),
    }
    assert_eq!(apply_completion("tests 'a b' ", &ctx, "x"), "tests 'a b' x");
}

#[test]
fn cycling_starts_over_from_what_was_typed() {
    let mut c = Console::<Ctx>::new();
    c.register(Box::new(cmd("tests", "", nothing).with_args(&[&["5 cell", "5 cube"]])));
    c.input = r#"tests "5 c"#.into();
    c.tab_complete();
    assert_eq!(c.input, "tests 5 cell");
    c.tab_complete();
    assert_eq!(c.input, "tests 5 cube");
    c.tab_complete();
    assert_eq!(c.input, "tests 5 cell");
}

#[test]
fn the_word_being_typed_starts_at_its_quote() {
    assert_eq!(tokenize_partial(r#"tests "5 c"#), (vec!["tests".into(), "5 c".into()], 6));
    assert_eq!(tokenize_partial("tests "), (vec!["tests".into()], 6));
    assert_eq!(tokenize_partial("a bc"), (vec!["a".into(), "bc".into()], 2));
    assert_eq!(tokenize_partial(""), (vec![], 0));
}

#[test]
fn plain_text_splits_at_a_space() {
    let mut both = tokenize("one two");
    both.extend(tokenize("three  four "));
    assert_eq!(tokenize("one two three  four "), both);
    let mut after_quote = tokenize("say 'a b'");
    after_quote.extend(tokenize("c"));
    assert_eq!(tokenize("say 'a b' c"), after_quote);
}

fn fail_cmd() -> Box<dyn Command<Ctx>> {
    Box::new(cmd(
        "fail",
        "print, then fail",
        |_args: &[&str], _ctx: &mut Ctx, out: &mut ConsoleWriter| -> CommandResult {
            out.line("part");
            Err(CommandError::new("nope"))
        },
    ))
}

#[test]
fn executed_lines_leave_what_the_commands_wrote() {
    let mut c = Console::<Ctx>::new();
    c.register(echo_cmd());
    c.register(fail_cmd());
    let mut ctx: Ctx = 0;
    for line in ["echo hello world", "   ", "zzz", "fail"] {
        c.execute(line, &mut ctx);
    }
    let got: Vec<(LineKind, &str)> = c.history.iter().map(|l| (l.kind, l.text.as_str())).collect();
    assert_eq!(
        got,
        vec![
            (LineKind::Input, "> echo hello world"),
            (LineKind::Output, "hello world"),
            (LineKind::Input, "> zzz"),
            (LineKind::Error, "no command 'zzz'. try: help"),
            (LineKind::Input, "> fail"),
            (LineKind::Output, "part"),
            (LineKind::Error, "error: nope"),
        ]
    );
}

#[test]
fn remembered_lines_are_trimmed_and_the_newest() {
    let mut c = Console::<Ctx>::new();
    let mut ctx: Ctx = 0;
    c.execute("  help  ", &mut ctx);
    assert_eq!(c.input_history.back().map(String::as_str), Some("help"));
    for i in 0..150 {
        c.execute(&format!(" n{i}\t"), &mut ctx);
    }
    let kept: Vec<String> = c.input_history.iter().cloned().collect();
    let newest: Vec<String> = (50..150).map(|i| format!("n{i}")).collect();
    assert_eq!(kept, newest);
}

#[test]
fn a_stateful_command_keeps_its_state_between_lines() {
    let mut count = 0;
    let mut c = Console::<Ctx>::new();
    c.register(Box::new(cmd(
        "count",
        "",
        move |_args: &[&str], ctx: &mut Ctx, _out: &mut ConsoleWriter| -> CommandResult {
            count += 1;
            *ctx = count;
            Ok(())
        },
    )));
    let mut ctx: Ctx = 0;
    c.execute("count", &mut ctx);
    c.execute("count", &mut ctx);
    assert_eq!(ctx, 2);
}

#[test]
fn a_mirrored_console_hands_every_line_on() {
    let mut c = Console::<Ctx>::new();
    c.register(echo_cmd());
    let mut ctx: Ctx = 0;
    c.execute("echo before", &mut ctx);
    assert!(c.take_unsent().is_empty());
    c.set_mirrored(true);
    c.execute("echo one", &mut ctx);
    c.execute("clear", &mut ctx);
    c.write(HistoryLine::system("two"));
    let sent: Vec<String> = c.take_unsent().into_iter().map(|l| l.text).collect();
    assert_eq!(sent, ["> echo one", "one", "> clear", "two"]);
    assert!(c.take_unsent().is_empty());
    for i in 0..MAX_HISTORY_LINES + 5 {
        c.write(HistoryLine::output(&format!("{i}")));
    }
    assert_eq!(c.take_unsent().len(), MAX_HISTORY_LINES + 5);
    c.set_mirrored(false);
    c.write(HistoryLine::output("after"));
    assert!(c.take_unsent().is_empty());
}

#[test]
fn typing_into_a_blank_input_ends_recalling() {
    let mut c = Console::<Ctx>::new();
    let mut ctx: Ctx = 0;
    c.execute("help", &mut ctx);
    c.execute("clear", &mut ctx);
    c.history_prev();
    c.history_prev();
    assert_eq!(c.input, "help");
    c.edit_input("hel");
    assert_eq!(c.input_history_pos, Some(0));
    c.edit_input("");
    c.edit_input("x");
    assert_eq!(c.input_history_pos, None);
    c.history_prev();
    assert_eq!(c.input, "clear");
}

#[test]
fn tab_on_a_blank_prompt_cycles_through_the_commands() {
    let mut c = Console::<Ctx>::new();
    assert_eq!(c.tab_preview(), None);
    c.tab_complete();
    assert_eq!(c.input, "clear");
    c.tab_complete();
    assert_eq!(c.input, "detach");
}
