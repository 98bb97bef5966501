use cargo_ptest::config::config;
use cargo_ptest::display::{green, Display, DisplayType, Pipes, StringBuilder};
use cargo_ptest::parse::parse;
use cargo_ptest::run::{split_command_line, wants_help};

fn strings(v: &[&str]) -> Vec<String> {
    v.iter().map(|s| s.to_string()).collect()
}

#[test]
fn config_accepts_no_color() {
    let c = config(strings(&["--no-color"])).ok().unwrap();
    assert!(c.no_color);
    assert!(!c.debug);
    let c = config(Vec::new()).ok().unwrap();
    assert!(!c.no_color);
}

#[test]
fn config_rejects_other() {
    assert_eq!(
        config(strings(&["--no-color", "--debug"])).err(),
        Some("Invalid argument --debug".to_string())
    );
}

#[test]
fn command_line_split() {
    let (own, fwd) =
        split_command_line(&strings(&["cargo-ptest", "--no-color", "--", "-v", "foo", "--color=auto"]))
            .ok()
            .unwrap();
    assert_eq!(own, strings(&["--no-color"]));
    assert_eq!(fwd, strings(&["foo", "--color=never"]));
    let (own, fwd) = split_command_line(&strings(&["/bin/cargo-ptest", "ptest"])).ok().unwrap();
    assert!(own.is_empty());
    assert_eq!(fwd, strings(&["--color=never"]));
    assert_eq!(
        split_command_line(&strings(&["x"])).err().map(|e| e.error),
        Some("Run Error: how did you manage to see this error".to_string())
    );
    assert!(wants_help(&strings(&["a", "-h"])));
    assert!(!wants_help(&strings(&["a"])));
}

#[test]
fn pipes_and_colours() {
    assert_eq!(Pipes::T.d(), "├");
    assert_eq!(Pipes::L.d(), "└");
    assert_eq!(green("ok"), "\x1b[32mok\x1b[0m");
    let mut sb = StringBuilder::new("start\n", "> ", "\n");
    sb.add("one");
    sb.add("two");
    assert_eq!(sb.string(), "start\n> one\n> two\n");
}

#[test]
fn linear_view() {
    let out = "running 2 tests\ntest a::x ... ok\ntest a::y ... ignored, slow\n\ntest result: ok. 1 passed; 0 failed; 1 ignored; 0 measured; 0 filtered out; finished in 0.01s\n";
    let err = "Running unittests src/lib.rs (target/debug/deps/c-1)\n";
    let gs = parse(out.to_string(), err.to_string()).ok().unwrap();
    let d = Display::new("Results", gs);
    assert_eq!(
        d.render(DisplayType::Linear),
        "Results\n├ \x1b[32mPass\x1b[0m - a::x\n├ \x1b[33mIgnored\x1b[0m - a::y (slow)\n"
    );
    assert_eq!(d.render(DisplayType::Tree), "");
}
