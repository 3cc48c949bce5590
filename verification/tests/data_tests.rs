use mlc_core::bounded::{BoundedValue, DynamicUSize, One, Zero};
use mlc_core::dmx::DmxGranularity;
use mlc_core::loader::{BsonLoader, Json5Loader, JsonLoader, ProjectLoaderManager};
use mlc_core::misc::ContextError;
use mlc_core::project::{project_file_name, ProjectType, ToFileName};
use mlc_core::text::{parse_u64, str_eq, str_le, u64_to_string};

type Percent = BoundedValue<Zero, DynamicUSize<100>, ()>;

#[test]
fn bounded_value_clamps_low() {
    let v: Percent = BoundedValue::create(0);
    assert_eq!(v.take(), 0);
    let v: BoundedValue<One, DynamicUSize<100>, ()> = BoundedValue::create(0);
    assert_eq!(v.take(), 1);
}

#[test]
fn bounded_value_clamps_high() {
    assert_eq!(Percent::once(250), 100);
    assert_eq!(Percent::once(55), 55);
}

#[test]
fn bounded_value_bounds() {
    assert_eq!(Percent::min(), 0);
    assert_eq!(Percent::max(), 100);
}

#[test]
fn dmx_granularity_ranges() {
    assert_eq!(DmxGranularity::Single.min(), 0);
    assert_eq!(DmxGranularity::Single.max(), 255);
    assert_eq!(DmxGranularity::Double.max(), 65535);
    assert_eq!(DmxGranularity::Tripple.max(), 16777215);
}

#[test]
fn decimal_rendering() {
    assert_eq!(u64_to_string(0), "0");
    assert_eq!(u64_to_string(12345), "12345");
    assert_eq!(u64_to_string(u64::MAX), "18446744073709551615");
}

#[test]
fn parse_u64_accepts_digits() {
    assert_eq!(parse_u64("126"), Some(126));
    assert_eq!(parse_u64("+5"), Some(5));
    assert_eq!(parse_u64("0007"), Some(7));
    assert_eq!(parse_u64("18446744073709551615"), Some(u64::MAX));
}

#[test]
fn parse_u64_rejects_junk() {
    assert_eq!(parse_u64(""), None);
    assert_eq!(parse_u64("+"), None);
    assert_eq!(parse_u64("12a"), None);
    assert_eq!(parse_u64("-3"), None);
    assert_eq!(parse_u64("18446744073709551616"), None);
}

#[test]
fn string_order_and_equality() {
    assert!(str_le("abc", "abd"));
    assert!(str_le("ab", "abc"));
    assert!(!str_le("b", "ab"));
    assert!(str_le("", "a"));
    assert!(str_eq("same", "same"));
    assert!(!str_eq("same", "sam"));
}

#[test]
fn slug_of_plain_name() {
    assert_eq!(project_file_name("My Project 7 "), "my_project_7");
    assert_eq!(project_file_name("Demo"), "demo");
}

#[test]
fn slug_drops_foreign_characters() {
    // Underscores in the name are not alphanumeric: they are dropped
    // before runs collapse, so only the spaces survive as one each.
    assert_eq!(project_file_name(" __a__b__ "), "ab");
    assert_eq!(project_file_name("a - b"), "a_b");
    assert_eq!(project_file_name("  "), "");
    assert_eq!(project_file_name(""), "");
}

#[test]
fn slug_through_trait() {
    assert_eq!("My Project 7 ".to_project_file_name(), "my_project_7");
    assert_eq!(String::from("Tour 2024").to_project_file_name(), "tour_2024");
}

#[test]
fn project_type_extensions() {
    assert_eq!(ProjectType::Json.extension(), "json");
    assert_eq!(ProjectType::Binary.extension(), "mbp");
    assert_eq!(ProjectType::Json.dotted_extension(), ".json");
    assert_eq!(ProjectType::Invalid.dotted_extension(), ".");
    assert_eq!(ProjectType::all(), [ProjectType::Json, ProjectType::Binary]);
    assert_eq!(ProjectType::default(), ProjectType::Json);
}

#[test]
fn loader_for_file_by_extension() {
    assert_eq!(ProjectLoaderManager::for_file("demo.json"), Some(ProjectType::Json));
    assert_eq!(ProjectLoaderManager::for_file("demo.mbp"), Some(ProjectType::Binary));
    assert_eq!(ProjectLoaderManager::for_file("demo.txt"), None);
    assert_eq!(ProjectLoaderManager::for_file("demo"), None);
    assert_eq!(ProjectLoaderManager::for_file(".json"), None);
    assert_eq!(ProjectLoaderManager::for_file("a.b.mbp"), Some(ProjectType::Binary));
}

#[test]
fn loader_kinds() {
    assert_eq!(Json5Loader.kind(), ProjectType::Json);
    assert_eq!(JsonLoader.kind(), ProjectType::Json);
    assert_eq!(BsonLoader.kind(), ProjectType::Binary);
    assert_eq!(ProjectLoaderManager::loaders(), vec![ProjectType::Json, ProjectType::Binary]);
    assert_eq!(ProjectLoaderManager::for_kind(&ProjectType::Binary), Some(ProjectType::Binary));
    assert_eq!(ProjectLoaderManager::for_kind(&ProjectType::Invalid), None);
}

#[test]
fn context_error_rendering() {
    let e = ContextError { filename: "parser", line: 3, error: String::from("boom") };
    assert_eq!(e.to_generic(), "[parser:3] boom");
}
