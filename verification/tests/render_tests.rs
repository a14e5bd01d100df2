use chisel::cli::{AppArguments, AppCommand, PrintCommand};
use chisel::display_lists::{DisplayListCommand, DisplayListMode, Draw};
use chisel::errors::ChiselError;
use chisel::json_numbers::is_json_number;
use chisel::options::RenderOptions;
use chisel::parser_coords::ParserCoords;
use chisel::pretty_printer::{FormatOptions, JsonValue, PrettyPrinter};
use chisel::sax::{bit_filter, matched_to_bit, matched_to_char, MatchKind, PointerType};

fn flatten_draws(printer: &PrettyPrinter) -> Vec<Draw> {
    let mut out: Vec<Draw> = vec![];
    for list in &printer.pipeline {
        assert_eq!(list.mode, DisplayListMode::Immediate);
        for cmd in &list.cmds {
            match cmd {
                DisplayListCommand::Draw(d) => out.push(d.clone()),
                DisplayListCommand::ChangeState(_) => {}
            }
        }
    }
    out
}

#[test]
fn renders_scalars_exactly() {
    let mut printer = PrettyPrinter::new(FormatOptions::default());
    printer.render_json(JsonValue::Integer(-42)).unwrap();
    printer.render_json(JsonValue::Boolean(true)).unwrap();
    printer.render_json(JsonValue::Null).unwrap();
    printer.render_json(JsonValue::String("hi".to_string())).unwrap();
    printer.render_json(JsonValue::Float("2.5".to_string())).unwrap();
    assert_eq!(
        flatten_draws(&printer),
        vec![
            Draw::Text("-42".to_string()),
            Draw::Slice("true"),
            Draw::Slice("null"),
            Draw::Text("hi".to_string()),
            Draw::Text("2.5".to_string()),
        ]
    );
}

#[test]
fn renders_an_object_with_indentation() {
    let mut printer = PrettyPrinter::new(FormatOptions::default());
    let value = JsonValue::Object(vec![
        ("a".to_string(), JsonValue::Integer(1)),
        ("b".to_string(), JsonValue::Array(vec![JsonValue::Null])),
    ]);
    printer.render_json(value).unwrap();
    assert_eq!(
        flatten_draws(&printer),
        vec![
            Draw::Char('{'),
            Draw::NewLine,
            // pair "a": 1, with a trailing comma
            Draw::Indent(2),
            Draw::Text("a".to_string()),
            Draw::Indent(1),
            Draw::Slice(":"),
            Draw::Indent(1),
            Draw::Text("1".to_string()),
            Draw::Char(','),
            Draw::NewLine,
            // pair "b": [null], the last pair
            Draw::Indent(2),
            Draw::Text("b".to_string()),
            Draw::Indent(1),
            Draw::Slice(":"),
            Draw::Indent(1),
            Draw::Char('['),
            Draw::NewLine,
            Draw::Indent(4),
            Draw::Slice("null"),
            Draw::NewLine,
            Draw::Indent(2),
            Draw::Char(']'),
            Draw::NewLine,
            Draw::Indent(0),
            Draw::Char('}'),
        ]
    );
}

#[test]
fn renders_empty_containers_without_newlines() {
    let mut printer = PrettyPrinter::new(FormatOptions::default());
    printer.render_json(JsonValue::Array(vec![])).unwrap();
    printer.render_json(JsonValue::Object(vec![])).unwrap();
    assert_eq!(
        flatten_draws(&printer),
        vec![Draw::Char('['), Draw::Char(']'), Draw::Char('{'), Draw::Char('}')]
    );
}

#[test]
fn bit_filter_combines_type_bits() {
    assert_eq!(bit_filter(&vec![]), 0b1111_1111);
    assert_eq!(bit_filter(&vec![PointerType::Objects]), 0b0000_0001);
    assert_eq!(
        bit_filter(&vec![PointerType::Objects, PointerType::Nulls]),
        0b1000_0001
    );
    assert_eq!(
        bit_filter(&vec![PointerType::Keys, PointerType::Strings, PointerType::Keys]),
        0b0000_1100
    );
}

#[test]
fn match_kinds_map_to_bits_and_chars() {
    assert_eq!(matched_to_bit(&MatchKind::StartObject), 0b0000_0001);
    assert_eq!(matched_to_bit(&MatchKind::Integer), 0b0010_0000);
    assert_eq!(matched_to_bit(&MatchKind::EndOfDocument), 0);
    assert_eq!(matched_to_char(&MatchKind::StartObject), 'o');
    assert_eq!(matched_to_char(&MatchKind::EndArray), 'A');
    assert_eq!(matched_to_char(&MatchKind::StartOfDocument), '?');
}

#[test]
fn json_number_grammar_accepts_and_rejects() {
    for good in ["0", "-1", "10", "3.25", "3e8", "0.5E-2", "-0.0"] {
        assert!(is_json_number(good), "{:?} should be accepted", good);
    }
    for bad in ["", "-", "00", "+1", ".5", "5.", "1e", "1ee4", "0x10"] {
        assert!(!is_json_number(bad), "{:?} should be rejected", bad);
    }
}

#[test]
fn coordinates_subtract_on_absolute_offsets() {
    let a = ParserCoords { absolute: 10, line: 2, column: 3 };
    let b = ParserCoords { absolute: 4, line: 1, column: 4 };
    assert_eq!(a.delta(b), 6);
    assert_eq!(ParserCoords::default(), ParserCoords { absolute: 0, line: 1, column: 0 });
}

#[test]
fn render_options_default_to_cooked_mode() {
    assert!(!RenderOptions::default().raw);
}

#[test]
fn chisel_errors_have_messages() {
    assert_eq!(ChiselError::NoTty.message(), "Not a tty!");
    assert_eq!(
        ChiselError::InvalidFile.message(),
        "An invalid file has been specified"
    );
}

#[test]
fn app_arguments_carry_a_command() {
    let args = AppArguments {
        command: AppCommand::Print(PrintCommand { file: None, indent: 2, kvpadding: 1 }),
    };
    match args.command {
        AppCommand::Print(cmd) => {
            assert_eq!(cmd.indent, 2);
            assert_eq!(cmd.kvpadding, 1);
        }
        _ => panic!(),
    }
}
