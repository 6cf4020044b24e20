//! Literals, numbers as text, and the texts of findings.

use tn_typecheck::diagnostics::{report, Finding};
use tn_typecheck::hir::{role_of, DeclarationId, Intrinsic, ModuleRole, PrimitiveType, Type};
use tn_typecheck::list::List;
use tn_typecheck::lowering::constants::{encoded_length, encoded_size};
use tn_typecheck::lowering::literals::{
    decode_quoted_literal, literal_suffix_type, parse_integer, parse_length,
};
use tn_typecheck::mir::RawOperation;
use tn_typecheck::names::{BuiltinName, CScalar, Name, Names};
use tn_typecheck::syntax::{empty_span, path_place, File, PathPlace, TokenKind};
use tn_typecheck::text::{append_decimal, append_signed_decimal, characters};

#[test]
fn integers_are_read_in_every_radix() {
    assert_eq!(parse_integer("0"), Some(0));
    assert_eq!(parse_integer("42"), Some(42));
    assert_eq!(parse_integer("1_000_000"), Some(1_000_000));
    assert_eq!(parse_integer("0xff"), Some(255));
    assert_eq!(parse_integer("0xFF"), Some(255));
    assert_eq!(parse_integer("0o17"), Some(15));
    assert_eq!(parse_integer("0b1010"), Some(10));
    assert_eq!(parse_integer("-5"), Some(-5));
    assert_eq!(parse_integer("+5"), Some(5));
}

#[test]
fn the_suffix_of_an_integer_is_no_part_of_its_value() {
    assert_eq!(parse_integer("42u8"), Some(42));
    assert_eq!(parse_integer("42usize"), Some(42));
    assert_eq!(parse_integer("42_i128"), Some(42));
    assert_eq!(parse_integer("0x1fu64"), Some(31));
    // Only the suffixes of integer types are taken off.
    assert_eq!(parse_integer("42f32"), None);
}

#[test]
fn what_is_no_integer_has_no_value() {
    assert_eq!(parse_integer(""), None);
    assert_eq!(parse_integer("u8"), None);
    assert_eq!(parse_integer("0x"), None);
    assert_eq!(parse_integer("0b2"), None);
    assert_eq!(parse_integer("4a"), None);
    assert_eq!(parse_integer("170141183460469231731687303715884105727"), Some(i128::MAX));
    assert_eq!(parse_integer("170141183460469231731687303715884105728"), None);
    assert_eq!(parse_integer("-170141183460469231731687303715884105728"), Some(i128::MIN));
}

#[test]
fn lengths_that_cannot_be_read_are_zero() {
    assert_eq!(parse_length("12"), 12);
    assert_eq!(parse_length("1_2"), 12);
    assert_eq!(parse_length("18446744073709551615"), u64::MAX);
    assert_eq!(parse_length("18446744073709551616"), 0);
    assert_eq!(parse_length("N"), 0);
}

#[test]
fn suffixes_name_types() {
    let primitive = |ty: PrimitiveType| Some(Type::Primitive(ty));
    assert_eq!(
        literal_suffix_type("1u8", TokenKind::IntegerLiteral),
        primitive(PrimitiveType::U8)
    );
    assert_eq!(
        literal_suffix_type("1i128", TokenKind::IntegerLiteral),
        primitive(PrimitiveType::I128)
    );
    assert_eq!(
        literal_suffix_type("1.5f32", TokenKind::FloatLiteral),
        primitive(PrimitiveType::F32)
    );
    assert_eq!(literal_suffix_type("1", TokenKind::IntegerLiteral), None);
    assert_eq!(literal_suffix_type("f32", TokenKind::Identifier), None);
}

#[test]
fn quoted_literals_are_decoded() {
    assert_eq!(decode_quoted_literal("\"\""), Some(String::new()));
    assert_eq!(decode_quoted_literal("\"plain\""), Some("plain".to_string()));
    assert_eq!(decode_quoted_literal(r#""a\n\r\t\0\\\"\'b""#), Some("a\n\r\t\0\\\"'b".to_string()));
    assert_eq!(decode_quoted_literal(r#""\x41""#), Some("A".to_string()));
    assert_eq!(decode_quoted_literal(r#""\xff""#), Some("\u{ff}".to_string()));
    assert_eq!(decode_quoted_literal(r#""\u{1F600}!""#), Some("\u{1F600}!".to_string()));
    assert_eq!(decode_quoted_literal("'\u{e9}'"), Some("\u{e9}".to_string()));
}

#[test]
fn malformed_escapes_are_not_decoded() {
    assert_eq!(decode_quoted_literal(""), None);
    assert_eq!(decode_quoted_literal("\""), None);
    assert_eq!(decode_quoted_literal(r#""\q""#), None);
    assert_eq!(decode_quoted_literal(r#""\x4""#), None);
    assert_eq!(decode_quoted_literal(r#""\xzz""#), None);
    assert_eq!(decode_quoted_literal(r#""\u41""#), None);
    assert_eq!(decode_quoted_literal(r#""\u{41""#), None);
    // A surrogate is no character, and there is none behind the last one.
    assert_eq!(decode_quoted_literal(r#""\u{d800}""#), None);
    assert_eq!(decode_quoted_literal(r#""\u{110000}""#), None);
    assert_eq!(decode_quoted_literal(r#""\u{10ffff}""#), Some("\u{10ffff}".to_string()));
}

#[test]
fn characters_take_one_to_four_bytes() {
    assert_eq!(encoded_size('a'), 1);
    assert_eq!(encoded_size('\u{e9}'), 2);
    assert_eq!(encoded_size('\u{20ac}'), 3);
    assert_eq!(encoded_size('\u{1F600}'), 4);
    assert_eq!(encoded_length(&List::from_vec(characters("a\u{e9}\u{20ac}\u{1F600}"))), 10);
}

#[test]
fn numbers_are_written_in_decimal() {
    let mut text = "n = ".to_string();
    append_decimal(&mut text, 0);
    append_decimal(&mut text, 1203);
    assert_eq!(text, "n = 01203");
    let mut signed = String::new();
    append_signed_decimal(&mut signed, -17);
    append_signed_decimal(&mut signed, i128::MIN);
    assert_eq!(signed, "-17-170141183460469231731687303715884105728");
    assert_eq!(parse_integer("-170141183460469231731687303715884105728"), Some(i128::MIN));
}

#[test]
fn names_have_texts() {
    let names = Names { texts: vec!["width".to_string()] };
    assert_eq!(names.text(Name::Other(0)), "width");
    assert_eq!(names.text(Name::Other(1)), "");
    assert_eq!(names.text(Name::Builtin(BuiltinName::OwnedString)), "string");
    assert_eq!(names.text(Name::Scalar(CScalar::SignedSize)), "c_ssize");
    assert_eq!(names.text(Name::AsyncDispose), "[Symbol.asyncDispose]");
}

#[test]
fn findings_have_messages() {
    let names = Names { texts: vec!["left".to_string(), "right".to_string()] };
    let message = |finding: Finding| report(finding, empty_span(File::Compiler)).message(&names);
    assert_eq!(
        message(Finding::GenericArgumentArity { expected: 2, supplied: 10 }),
        "generic type expects 2 argument(s), but 10 were supplied"
    );
    assert_eq!(
        message(Finding::DuplicateEnumDiscriminant {
            previous: Name::Other(0),
            name: Name::Other(1),
            discriminant: -3,
        }),
        "enum variants `left` and `right` share discriminant -3"
    );
    assert_eq!(
        message(Finding::UninitializedField(Name::Other(0))),
        "constructor does not initialize field `left`"
    );
    let diagnostic = report(Finding::UseAfterMove, empty_span(File::Compiler));
    assert_eq!(diagnostic.finding.condition(), "OWNERSHIP_USE_AFTER_MOVE");
    assert_eq!(diagnostic.code(), "ownership/use/after/move");
    assert_eq!(diagnostic.finding.label(), "this access requires the moved ownership path");
    assert_eq!(
        Finding::UseAfterMove.secondary_label(),
        Some("the ownership path was moved here")
    );
}

#[test]
fn lists_are_counted_and_indexed() {
    let list = List::from_vec(vec![4u32, 5, 6]);
    assert_eq!(list.length(), Some(3));
    assert_eq!(list.nth(1), Some(&5));
    assert_eq!(list.nth(3), None);
    assert!(!list.is_empty());
}

#[test]
fn written_integers_are_read_back() {
    for number in [0, 1, 9, 10, 255, 0xf32, 0xf64, -1, -10, i128::MAX, i128::MIN] {
        assert_eq!(parse_integer(&format!("{number}")), Some(number));
        if number >= 0 {
            assert_eq!(parse_integer(&format!("{number:#x}")), Some(number));
            assert_eq!(parse_integer(&format!("{number:#o}")), Some(number));
            assert_eq!(parse_integer(&format!("{number:#b}")), Some(number));
        }
    }
}

#[test]
fn raw_operations_have_texts() {
    let text = |operation: RawOperation| operation.text();
    let named = |name: &str| Some(name.to_string());
    assert_eq!(text(RawOperation::Dereference), named("dereference"));
    assert_eq!(text(RawOperation::BindingRest), named("binding_rest"));
    assert_eq!(text(RawOperation::StringFromStatic), named("string_from_static"));
    assert_eq!(text(RawOperation::StringByteLength), named("string_byte_length"));
    assert_eq!(text(RawOperation::StringScalarLength), named("string_scalar_length"));
    assert_eq!(text(RawOperation::TaskIntoPromise), named("task_into_promise"));
    assert_eq!(text(RawOperation::GlobalLoad(DeclarationId(0))), named("global_load:0"));
    assert_eq!(text(RawOperation::GlobalStore(DeclarationId(7))), named("global_store:7"));
    assert_eq!(text(RawOperation::GlobalAddress(DeclarationId(12))), named("global_address:12"));
    assert_eq!(
        text(RawOperation::Intrinsic(Intrinsic::AtomicUsizeCompareExchange)),
        named("atomic_usize_compare_exchange")
    );
    assert_eq!(text(RawOperation::Intrinsic(Intrinsic::CheckedU16)), named("checked_u16"));
    assert_eq!(text(RawOperation::Intrinsic(Intrinsic::Called)), None);
}

#[test]
fn the_module_for_asynchronous_code_is_known_by_its_path() {
    for path in ["std/async.tn", "/opt/lib/std/async.tn", "./std//./async.tn", "std/async.tn/"] {
        assert_eq!(role_of(path), ModuleRole::Asynchronous);
    }
    for path in ["", "async.tn", "mystd/async.tn", "std/async.tn.bak", "std/x/async.tn", "std"] {
        assert_eq!(role_of(path), ModuleRole::Ordinary);
    }
}

#[test]
fn paths_stand_before_or_behind_names_that_were_made_up() {
    assert_eq!(path_place("/home/m.tn"), PathPlace::BeforeBinding);
    assert_eq!(path_place("m.tn"), PathPlace::BehindGenerator);
    assert_eq!(path_place(""), PathPlace::BeforeBinding);
    assert_eq!(path_place("<bl.tn"), PathPlace::BeforeBody);
    assert_eq!(path_place("<c.tn"), PathPlace::BeforeCompiler);
    assert_eq!(path_place("<d.tn"), PathPlace::BeforeGenerator);
}
