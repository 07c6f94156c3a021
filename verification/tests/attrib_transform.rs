use svg::attrib::make_attribs;
use svg::common::insert_attribs;
use svg::numfmt::i32_to_string;
use svg::numfmt::u32_to_string;
use svg::transform::rotate;
use svg::transform::scale;
use svg::transform::skew_x;
use svg::transform::skew_y;
use svg::transform::translate;
use svg::AttributeMap;
use svg::Transform;

fn rendered(m: &AttributeMap) -> String {
    insert_attribs(String::new(), m)
}

#[test]
fn distinct_keys_render_once_each() {
    let mut m = AttributeMap::new();
    m.insert(String::from("a"), String::from("1"));
    m.insert(String::from("b"), String::from("2"));
    m.insert(String::from("c"), String::from("3"));
    let out = rendered(&m);
    assert_eq!(out, " a=\"1\" b=\"2\" c=\"3\"");
    assert_eq!(out.matches("a=").count(), 1);
    assert_eq!(out.matches("b=").count(), 1);
    assert_eq!(out.matches("c=").count(), 1);
}

#[test]
fn repeated_key_keeps_last_value_in_place() {
    let mut m = AttributeMap::new();
    m.insert(String::from("fill"), String::from("red"));
    m.insert(String::from("stroke"), String::from("blue"));
    m.insert(String::from("fill"), String::from("green"));
    let out = rendered(&m);
    assert_eq!(out, " fill=\"green\" stroke=\"blue\"");
    assert_eq!(out.matches("fill=").count(), 1);
}

#[test]
fn make_attribs_splits_tokens() {
    let m = make_attribs("fill=red stroke=blue stroke-width=10");
    assert_eq!(rendered(&m), " fill=\"red\" stroke=\"blue\" stroke-width=\"10\"");
}

#[test]
fn make_attribs_ignores_tokens_without_equals() {
    let m = make_attribs("novalue fill=red alsobad");
    assert_eq!(rendered(&m), " fill=\"red\"");
}

#[test]
fn make_attribs_empty_input_gives_empty_map() {
    let m = make_attribs("");
    assert_eq!(m.len(), 0);
    assert_eq!(rendered(&m), "");
}

#[test]
fn make_attribs_splits_at_first_equals_only() {
    let m = make_attribs("a=b=c");
    assert_eq!(rendered(&m), " a=\"b=c\"");
}

#[test]
fn make_attribs_empty_key_and_empty_value() {
    let leading = make_attribs("=v");
    assert_eq!(rendered(&leading), " =\"v\"");
    let trailing = make_attribs("k=");
    assert_eq!(rendered(&trailing), " k=\"\"");
}

#[test]
fn make_attribs_repeated_key_last_token_wins() {
    let m = make_attribs("k=1 k=2");
    assert_eq!(rendered(&m), " k=\"2\"");
}

#[test]
fn make_attribs_consecutive_spaces_ignored() {
    let m = make_attribs("a=1  b=2");
    assert_eq!(rendered(&m), " a=\"1\" b=\"2\"");
}

#[test]
fn transform_operations_in_order_single_spaces() {
    let mut t = Transform::new();
    t.translate(10, 20);
    t.rotate(45);
    t.scale(2, 3);
    t.skew_x(5);
    t.skew_y(-6);
    assert_eq!(
        t.get(),
        "transform=\"translate(10, 20) rotate(45) scale(2, 3) skewX(5) skewY(-6)\""
    );
}

#[test]
fn transform_empty_accumulator() {
    let t = Transform::new();
    assert_eq!(t.get(), "transform=\"\"");
}

#[test]
fn transform_single_operation_no_separator() {
    let mut t = Transform::new();
    t.rotate(90);
    assert_eq!(t.get(), "transform=\"rotate(90)\"");
}

#[test]
fn free_operation_fragments() {
    assert_eq!(translate(10, 20), "translate(10, 20)");
    assert_eq!(rotate(-45), "rotate(-45)");
    assert_eq!(skew_x(7), "skewX(7)");
    assert_eq!(skew_y(8), "skewY(8)");
    assert_eq!(scale(-2, 0), "scale(-2, 0)");
}

#[test]
fn decimal_formatting() {
    assert_eq!(u32_to_string(0), "0");
    assert_eq!(u32_to_string(10), "10");
    assert_eq!(u32_to_string(u32::MAX), "4294967295");
    assert_eq!(i32_to_string(0), "0");
    assert_eq!(i32_to_string(-1), "-1");
    assert_eq!(i32_to_string(i32::MIN), "-2147483648");
    assert_eq!(i32_to_string(i32::MAX), "2147483647");
}
