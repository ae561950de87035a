use todo_rust::command::Command;
use todo_rust::session::{Effect, Reply};
use todo_rust::tasks::Config;

fn run(c: &mut Config, line: &str) -> Reply {
    c.step(line)
}

fn descriptions(c: &Config) -> Vec<String> {
    c.listing()
}

#[test]
fn add_two_then_list() {
    let mut c = Config::new("");
    run(&mut c, "ADD buy milk");
    run(&mut c, "ADD walk dog");
    let r = run(&mut c, "ALL");
    assert_eq!(
        r.out,
        vec![
            "<=============================================>".to_string(),
            "1. buy milk".to_string(),
            "2. walk dog".to_string(),
            "".to_string(),
        ]
    );
    assert!(r.err.is_empty());
    assert_eq!(r.effect, Effect::Nothing);
}

#[test]
fn finish_first_renumbers() {
    let mut c = Config::new("");
    run(&mut c, "ADD buy milk");
    run(&mut c, "ADD walk dog");
    let f = run(&mut c, "FINISH 1");
    assert!(f.err.is_empty());
    assert_eq!(f.out, vec!["".to_string()]);
    let r = run(&mut c, "ALL");
    assert_eq!(r.out[1..r.out.len() - 1].to_vec(), vec!["1. walk dog".to_string()]);
}

#[test]
fn finish_missing_task() {
    let mut c = Config::new("");
    run(&mut c, "ADD buy milk");
    run(&mut c, "ADD walk dog");
    let r = run(&mut c, "FINISH 5");
    assert_eq!(r.err, vec!["Can't finish what doesn't exist".to_string()]);
    assert_eq!(c.len(), 2);
    assert_eq!(descriptions(&c), vec!["1. buy milk".to_string(), "2. walk dog".to_string()]);
}

#[test]
fn empty_line_is_input_error() {
    let mut c = Config::new("");
    let r = run(&mut c, "");
    assert_eq!(r.err, vec!["Input error!".to_string()]);
    assert_eq!(r.out, vec!["".to_string()]);
    let r = run(&mut c, "   \t ");
    assert_eq!(r.err, vec!["Input error!".to_string()]);
    assert_eq!(c.len(), 0);
}

#[test]
fn finish_bounds_not_found() {
    let mut c = Config::new("a\nb\nc\n");
    for line in ["FINISH 0", "FINISH 4"] {
        let r = run(&mut c, line);
        assert_eq!(r.err, vec!["Can't finish what doesn't exist".to_string()]);
        assert_eq!(c.len(), 3);
    }
}

#[test]
fn finish_without_number_is_parse_error() {
    let mut c = Config::new("a\n");
    for line in ["FINISH", "FINISH x", "FINISH 1 2", "FINISH -1", "FINISH 99999999999"] {
        let r = run(&mut c, line);
        assert_eq!(r.err, vec!["Input error!".to_string()], "{}", line);
        assert_eq!(c.len(), 1);
    }
}

#[test]
fn list_twice_same_output() {
    let mut c = Config::new("one\ntwo\n");
    let a = run(&mut c, "all");
    let b = run(&mut c, "ALL");
    assert_eq!(a.out, b.out);
    assert_eq!(a.err, b.err);
}

#[test]
fn save_then_reload_keeps_tasks() {
    let mut c = Config::new("");
    run(&mut c, "ADD first  task");
    run(&mut c, "ADD second");
    run(&mut c, "ADD third");
    run(&mut c, "FINISH 2");
    let saved = c.save_contents();
    assert_eq!(saved, "first task\nthird\n");
    let d = Config::new(&saved);
    assert_eq!(descriptions(&d), descriptions(&c));
    assert_eq!(descriptions(&d), vec!["1. first task".to_string(), "2. third".to_string()]);
}

#[test]
fn finish_keeps_order_and_ids_dense() {
    let mut c = Config::new("a\nb\nc\nd\ne\n");
    assert!(c.finish(3));
    assert!(c.finish(1));
    assert_eq!(
        descriptions(&c),
        vec!["1. b".to_string(), "2. d".to_string(), "3. e".to_string()]
    );
    assert!(!c.finish(4));
    assert!(c.finish(3));
    assert_eq!(descriptions(&c), vec!["1. b".to_string(), "2. d".to_string()]);
}

#[test]
fn load_skips_empty_lines_and_line_ends() {
    let c = Config::new("x\r\n\n\r\ny z\nlast");
    assert_eq!(
        descriptions(&c),
        vec!["1. x".to_string(), "2. y z".to_string(), "3. last".to_string()]
    );
    assert_eq!(Config::new("").len(), 0);
    assert_eq!(Config::new("\n\n").len(), 0);
}

#[test]
fn effects_of_commands() {
    let mut c = Config::new("");
    assert_eq!(run(&mut c, "clear").effect, Effect::ClearScreen);
    assert_eq!(run(&mut c, "Save extra").effect, Effect::Save);
    let q = run(&mut c, "QUIT");
    assert_eq!(q.effect, Effect::Quit);
    assert!(q.out.is_empty());
    let h = run(&mut c, "help");
    assert_eq!(h.out.len(), 10);
    assert_eq!(h.out[1], "Type 'ALL' to list all tasks");
    assert_eq!(h.out[7], "Type 'QUIT' to exit");
    assert_eq!(h.effect, Effect::Nothing);
}

#[test]
fn unknown_and_empty_add() {
    let mut c = Config::new("");
    assert_eq!(run(&mut c, "REMOVE 1").err, vec!["Input error!".to_string()]);
    assert_eq!(run(&mut c, "ADD").err, vec!["Input error!".to_string()]);
    assert_eq!(run(&mut c, "ADD    ").err, vec!["Input error!".to_string()]);
    assert_eq!(c.len(), 0);
}

#[test]
fn parse_commands() {
    assert!(matches!(Command::from_input("  aLl  "), Some(Command::All)));
    match Command::from_input("add  a \t b\u{3000}c ") {
        Some(Command::Add(t)) => assert_eq!(t, "a b c"),
        _ => panic!("expected an add"),
    }
    assert!(matches!(Command::from_input("finish 12"), Some(Command::Finish(12))));
    assert!(matches!(Command::from_input("FINISH 4294967295"), Some(Command::Finish(4294967295))));
    assert!(Command::from_input("FINISH 4294967296").is_none());
    assert!(Command::from_input("FINISH ²").is_none());
    assert!(Command::from_input("ALLX").is_none());
    assert!(matches!(Command::from_input("quit now"), Some(Command::Quit)));
}

#[test]
fn numeric_check() {
    assert!(Command::is_numeric(&"0123456789".to_string()));
    assert!(Command::is_numeric(&String::new()));
    assert!(!Command::is_numeric(&"12a".to_string()));
    assert!(!Command::is_numeric(&"١٢".to_string()));
}

#[test]
fn listing_large_ids() {
    let mut text = String::new();
    for i in 0..12 {
        text.push_str(&format!("t{}\n", i));
    }
    let c = Config::new(&text);
    let l = c.listing();
    assert_eq!(l[9], "10. t9");
    assert_eq!(l[11], "12. t11");
}

#[test]
fn help_text_lines() {
    let h = Command::help();
    assert_eq!(h.len(), 9);
    assert_eq!(h[0], "");
    assert_eq!(h[3], "Type 'FINISH <id>' finishes a task");
    assert_eq!(h[8], "");
}

#[test]
fn added_text_saves_and_reloads() {
    let mut c = Config::new("");
    run(&mut c, "ADD tea\r");
    run(&mut c, "add  a\u{a0}b  ");
    let saved = c.save_contents();
    assert_eq!(saved, "tea\na b\n");
    assert_eq!(descriptions(&Config::new(&saved)), descriptions(&c));
}

#[test]
fn keywords_use_unicode_upper_case() {
    assert!(matches!(Command::from_input("\u{17f}ave"), Some(Command::Save)));
    assert!(matches!(Command::from_input("qu\u{131}t"), Some(Command::Quit)));
    assert!(matches!(Command::from_input("\u{fb01}nish 1"), Some(Command::Finish(1))));
    assert!(matches!(Command::from_input("save"), Some(Command::Save)));
    let mut c = Config::new("");
    assert_eq!(run(&mut c, "\u{17f}ave").effect, Effect::Save);
}

#[test]
fn keyword_decision() {
    assert!(matches!(Command::from_keyword("SAVE", String::new()), Some(Command::Save)));
    assert!(Command::from_keyword("save", String::new()).is_none());
    match Command::from_keyword("ADD", "x y".to_string()) {
        Some(Command::Add(t)) => assert_eq!(t, "x y"),
        _ => panic!("expected an add"),
    }
    assert!(Command::from_keyword("ADD", String::new()).is_none());
    assert!(matches!(Command::from_keyword("FINISH", "07".to_string()), Some(Command::Finish(7))));
    assert!(Command::from_keyword("FINISH", "7 8".to_string()).is_none());
    assert!(Command::from_keyword("FINISH", String::new()).is_none());
    assert!(matches!(Command::from_keyword("ALL", "ignored".to_string()), Some(Command::All)));
    assert!(Command::from_keyword("REMOVE", "1".to_string()).is_none());
}
