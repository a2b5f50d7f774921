use hdl_parser::parse_module;
use hdl_parser::parser::parse_assignment;
use hdl_parser::parser::parse_identifier;
use hdl_parser::parser::parse_signal_decl;
use hdl_parser::parser::parse_signal_type;
use hdl_parser::parser::parse_type_width;
use hdl_parser::SignalType;

#[test]
fn adder_module_parses_to_expected_ir() {
    let m = parse_module(
        "module adder { input a: u8; input b: u8; output sum: u8; sum = a + b; }",
    )
    .unwrap();
    assert_eq!(m.name, "adder");
    assert_eq!(m.signals.len(), 3);
    assert_eq!(m.signals[0].name, "a");
    assert!(m.signals[0].sig_type == SignalType::Input);
    assert_eq!(m.signals[0].width, 8);
    assert_eq!(m.signals[1].name, "b");
    assert!(m.signals[1].sig_type == SignalType::Input);
    assert_eq!(m.signals[1].width, 8);
    assert_eq!(m.signals[2].name, "sum");
    assert!(m.signals[2].sig_type == SignalType::Output);
    assert_eq!(m.signals[2].width, 8);
    assert_eq!(m.assignments.len(), 1);
    assert_eq!(m.assignments[0].lhs, "sum");
    assert_eq!(m.assignments[0].rhs, "a + b");
}

#[test]
fn reg_decl_with_spaces_before_colon() {
    let m = parse_module("module m { reg x : u1 ; }").unwrap();
    assert_eq!(m.name, "m");
    assert_eq!(m.signals.len(), 1);
    assert_eq!(m.signals[0].name, "x");
    assert!(m.signals[0].sig_type == SignalType::Reg);
    assert_eq!(m.signals[0].width, 1);
    assert_eq!(m.assignments.len(), 0);
}

#[test]
fn missing_semicolon_fails() {
    assert!(parse_module("module bad { output y: u8 }").is_err());
}

#[test]
fn declaration_order_is_preserved() {
    let m = parse_module(
        "module t { output z: u2; reg a: u3; input q: u4; z = a + q; a = q + z; }",
    )
    .unwrap();
    let names: Vec<&str> = m.signals.iter().map(|s| s.name.as_str()).collect();
    assert_eq!(names, ["z", "a", "q"]);
    assert!(m.signals[0].sig_type == SignalType::Output);
    assert!(m.signals[1].sig_type == SignalType::Reg);
    assert!(m.signals[2].sig_type == SignalType::Input);
    assert_eq!(m.assignments[0].lhs, "z");
    assert_eq!(m.assignments[1].lhs, "a");
}

#[test]
fn width_bounds() {
    let m = parse_module("module w { input a: u0; output b: u255; }").unwrap();
    assert_eq!(m.signals[0].width, 0);
    assert_eq!(m.signals[1].width, 255);
}

#[test]
fn width_with_leading_zeros() {
    let m = parse_module("module w { reg r: u0008; }").unwrap();
    assert_eq!(m.signals[0].width, 8);
}

#[test]
fn width_overflow_fails_cleanly() {
    assert!(parse_module("module w { input a: u256; }").is_err());
    assert!(parse_module("module w { input a: u999; }").is_err());
    assert!(parse_module("module w { input a: u00256; }").is_err());
    assert!(parse_module("module w { input a: u99999999999999999999; }").is_err());
}

#[test]
fn rhs_is_insensitive_to_whitespace() {
    let tight = parse_assignment("a=b+c;", 0).unwrap().1;
    let spaced = parse_assignment("a = b  +  c ;", 0).unwrap().1;
    assert_eq!(tight.lhs, "a");
    assert_eq!(tight.rhs, "b + c");
    assert_eq!(spaced.lhs, "a");
    assert_eq!(spaced.rhs, "b + c");
}

#[test]
fn rhs_is_canonical_through_parse_module() {
    let m = parse_module("module m { s=a+b; }").unwrap();
    assert_eq!(m.assignments[0].rhs, "a + b");
    let m2 = parse_module("module m { s =\ta\n+ b\r; }").unwrap();
    assert_eq!(m2.assignments[0].rhs, "a + b");
}

#[test]
fn missing_close_brace_fails() {
    assert!(parse_module("module m { input a: u8;").is_err());
    assert!(parse_module("module m {").is_err());
    assert!(parse_module("module m ").is_err());
}

#[test]
fn declaration_after_assignment_is_rejected() {
    assert!(parse_module("module m { a = b + c; input d: u8; }").is_err());
}

#[test]
fn trailing_text_after_close_brace_is_ignored() {
    let m = parse_module("module m { input a: u1; } trailing nonsense").unwrap();
    assert_eq!(m.signals.len(), 1);
    let m2 = parse_module("module m {} input d: u8;").unwrap();
    assert_eq!(m2.signals.len(), 0);
}

#[test]
fn empty_module_parses_without_inner_whitespace() {
    let m = parse_module("module m {}").unwrap();
    assert_eq!(m.name, "m");
    assert_eq!(m.signals.len(), 0);
    assert_eq!(m.assignments.len(), 0);
    // whitespace inside the braces belongs to the declarations and
    // assignments; with none of either, `{ }` does not match the grammar
    assert!(parse_module("module m { }").is_err());
}

#[test]
fn leading_whitespace_before_module_is_allowed() {
    let m = parse_module("  \n\t module m {}").unwrap();
    assert_eq!(m.name, "m");
}

#[test]
fn module_keyword_needs_following_whitespace() {
    assert!(parse_module("modulem {}").is_err());
    // no whitespace is needed between the name and the brace
    assert!(parse_module("module m{}").is_ok());
}

#[test]
fn malformed_assignments_fail() {
    assert!(parse_module("module m { x = a - b; }").is_err());
    assert!(parse_module("module m { x = 1 + b; }").is_err());
    assert!(parse_module("module m { x = a + b }").is_err());
    assert!(parse_module("module m { x = a; }").is_err());
    assert!(parse_module("module m { = a + b; }").is_err());
}

#[test]
fn non_ascii_input_is_rejected_without_panicking() {
    assert!(parse_module("module café {}").is_err());
    assert!(parse_module("módule m {}").is_err());
}

#[test]
fn identifier_recognizer() {
    let (end, name) = parse_identifier("foo_1 bar", 0).unwrap();
    assert_eq!(end, 5);
    assert_eq!(name, "foo_1");
    assert!(parse_identifier("1abc", 0).is_none());
    assert!(parse_identifier("_abc", 0).is_none());
    assert!(parse_identifier("", 0).is_none());
}

#[test]
fn signal_type_recognizer() {
    let (end, st) = parse_signal_type(" output x", 0).unwrap();
    assert_eq!(end, 7);
    assert!(st == SignalType::Output);
    assert!(parse_signal_type("inp x", 0).is_none());
    assert!(parse_signal_type("wire x", 0).is_none());
}

#[test]
fn width_recognizer() {
    let (end, w) = parse_type_width(" : u15 rest", 0).unwrap();
    assert_eq!(end, 6);
    assert_eq!(w, 15);
    assert!(parse_type_width(": v8;", 0).is_none());
    assert!(parse_type_width(": u;", 0).is_none());
    assert!(parse_type_width("u8;", 0).is_none());
}

#[test]
fn decl_recognizer_consumes_whole_declaration() {
    let text = "input a: u8; output b: u4;";
    let (end, sig) = parse_signal_decl(text, 0).unwrap();
    assert_eq!(end, 12);
    assert_eq!(sig.name, "a");
    assert!(sig.sig_type == SignalType::Input);
    assert_eq!(sig.width, 8);
    let (end2, sig2) = parse_signal_decl(text, end).unwrap();
    assert_eq!(end2, text.chars().count());
    assert_eq!(sig2.name, "b");
    assert!(parse_signal_decl("input: u8;", 0).is_none());
    assert!(parse_signal_decl("input a u8;", 0).is_none());
}

#[test]
fn assignment_recognizer_positions() {
    let text = "s = a + b; next";
    let (end, a) = parse_assignment(text, 0).unwrap();
    assert_eq!(end, 10);
    assert_eq!(a.lhs, "s");
    assert_eq!(a.rhs, "a + b");
    assert!(parse_assignment("s = a + ;", 0).is_none());
}
