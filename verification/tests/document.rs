use svg::AttributeMap;
use svg::Circle;
use svg::Head;
use svg::Shape;
use svg::Transform;
use svg::SVG;

#[test]
fn head_new_defaults() {
    let h = Head::new(3, 4);
    assert_eq!(h.width, 3);
    assert_eq!(h.height, 4);
    assert!(!h.standalone);
    assert!(h.view_box.is_none());
    assert!(h.title.is_none());
    assert!(h.desc.is_none());
}

#[test]
fn scenario_view_box_and_circle() {
    let mut doc = SVG::new(12, 12);
    doc.view_box(0, 0, 1200, 400);
    doc.circle(600, 200, 100, "fill=red");
    let out = doc.finalize();
    let root_at = out.find("width=\"12cm\" height=\"12cm\" viewBox=\"0 0 1200 400 \"").unwrap();
    let circle_at = out.find("<circle cx=\"600\" cy=\"200\" r=\"100\" fill=\"red\" />").unwrap();
    assert!(root_at < circle_at);
}

#[test]
fn finalize_full_output_exact() {
    let mut doc = SVG::new(12, 12);
    doc.view_box(0, 0, 1200, 400);
    doc.circle(600, 200, 100, "fill=red");
    let mut expected = String::new();
    expected.push_str("<?xml version=\"1.0\" standalone=\"no\"?>\n");
    expected.push_str("<!DOCTYPE svg PUBLIC \"-//W3C//DTD SVG 1.1//EN\" ");
    expected.push_str("\"http://www.w3.org/Graphics/SVG/1.1/DTD/svg11.dtd\">\n");
    expected.push_str("<svg width=\"12cm\" height=\"12cm\" viewBox=\"0 0 1200 400 \" ");
    expected.push_str("version=\"1.1\" xmlns=\"http://www.w3.org/2000/svg\" ");
    expected.push_str("xmlns:xlink=\"http://www.w3.org/1999/xlink\">\n");
    expected.push_str("<circle cx=\"600\" cy=\"200\" r=\"100\" fill=\"red\" />\n");
    expected.push_str("</svg>\n");
    assert_eq!(doc.finalize(), expected);
}

#[test]
fn title_then_desc_before_content() {
    let mut doc = SVG::new(5, 5);
    doc.title("T");
    doc.desc("D");
    doc.circle(1, 1, 1, "fill=red");
    let out = doc.finalize();
    assert!(out.contains("<title>T</title>\n<desc>D</desc>\n"));
    let desc_at = out.find("<desc>D</desc>").unwrap();
    let circle_at = out.find("<circle").unwrap();
    assert!(desc_at < circle_at);
}

#[test]
fn title_and_desc_last_write_wins() {
    let mut doc = SVG::new(5, 5);
    doc.title("first");
    doc.title("second");
    doc.desc("one");
    doc.desc("two");
    let out = doc.finalize();
    assert!(out.contains("<title>second</title>"));
    assert!(!out.contains("<title>first</title>"));
    assert!(out.contains("<desc>two</desc>"));
}

#[test]
fn group_wraps_circle() {
    let mut doc = SVG::new(5, 5);
    doc.g_begin(Some("grp"), None, None);
    doc.circle(1, 2, 3, "fill=red");
    doc.g_end();
    let out = doc.finalize();
    let open_at = out.find("<g ").unwrap();
    let circle_at = out.find("<circle").unwrap();
    let close_at = out.find("</g>").unwrap();
    assert!(open_at < circle_at);
    assert!(circle_at < close_at);
    let open_tag = &out[open_at..out[open_at..].find('\n').unwrap() + open_at];
    assert!(open_tag.contains("id=\"grp\""));
}

#[test]
fn group_open_with_everything() {
    let mut doc = SVG::new(5, 5);
    let mut t = Transform::new();
    t.translate(1, 2);
    let mut a = AttributeMap::new();
    a.insert(String::from("fill"), String::from("red"));
    doc.g_begin(Some("g1"), Some(&t), Some(&a));
    doc.g_end();
    let out = doc.finalize();
    assert!(out.contains("<g id=\"g1\" transform=\"translate(1, 2)\" fill=\"red\" >\n"));
    assert!(out.contains("</g>\n"));
}

#[test]
fn group_helpers() {
    let mut doc = SVG::new(5, 5);
    doc.g_id("named");
    doc.g_end();
    doc.g_translate(10, 20);
    doc.g_end();
    doc.g_rotate(30);
    doc.g_end();
    doc.g_scale(2, 3);
    doc.g_end();
    doc.g_skew(4, 5);
    doc.g_end();
    let mut t = Transform::new();
    t.rotate(7);
    doc.g_transform(&t);
    doc.g_end();
    let mut a = AttributeMap::new();
    a.insert(String::from("opacity"), String::from("0.5"));
    doc.g_attribs(&a);
    doc.g_end();
    let out = doc.finalize();
    assert!(out.contains("<g id=\"named\" >\n"));
    assert!(out.contains("<g transform=\"translate(10, 20)\" >\n"));
    assert!(out.contains("<g transform=\"rotate(30)\" >\n"));
    assert!(out.contains("<g transform=\"scale(2, 3)\" >\n"));
    assert!(out.contains("<g transform=\"skewX(4) skewY(5)\" >\n"));
    assert!(out.contains("<g transform=\"rotate(7)\" >\n"));
    assert!(out.contains("<g opacity=\"0.5\" >\n"));
    assert_eq!(out.matches("</g>\n").count(), 7);
}

#[test]
fn standalone_selects_first_line() {
    let mut yes = SVG::new(1, 1);
    yes.standalone(true);
    assert!(yes.finalize().starts_with("<?xml version=\"1.0\" standalone=\"yes\"?>\n"));
    let no = SVG::new(1, 1);
    assert!(no.finalize().starts_with("<?xml version=\"1.0\" standalone=\"no\"?>\n"));
}

#[test]
fn equivalent_builds_yield_identical_output() {
    let build = || {
        let mut doc = SVG::new(12, 12);
        doc.view_box(0, 0, 1200, 400);
        doc.title("T");
        doc.circle(600, 200, 100, "fill=red stroke=blue stroke-width=10");
        doc.rect(700, 200, 200, 200, "fill=red");
        doc.g_begin(Some("grp"), None, None);
        doc.polygon(&vec![(0, 0), (1, 0), (1, 1)], "fill=blue");
        doc.g_end();
        doc
    };
    let a = build();
    let b = build();
    assert_eq!(a.finalize(), b.finalize());
}

#[test]
fn finalize_repeats_same_text() {
    let mut doc = SVG::new(2, 2);
    doc.text(1, 2, "hi", "fill=red");
    let first = doc.finalize();
    let second = doc.finalize();
    assert_eq!(first, second);
}

#[test]
fn polygon_method_scenario() {
    let mut doc = SVG::new(5, 5);
    doc.polygon(&vec![(0, 0), (1, 0), (1, 1)], "fill=blue");
    let out = doc.finalize();
    let points_at = out.find("points=\"0,0 1,0 1,1 \"").unwrap();
    let fill_at = out.find("fill=\"blue\"").unwrap();
    assert!(points_at < fill_at);
}

#[test]
fn polyline_method_appends_fragment() {
    let mut doc = SVG::new(5, 5);
    doc.polyline(&vec![(1, 2), (3, 4)], "stroke=black");
    let out = doc.finalize();
    assert!(out.contains("<polyline points=\"1,2 3,4 \" stroke=\"black\" />\n"));
}

#[test]
fn text_method_appends_fragment() {
    let mut doc = SVG::new(5, 5);
    doc.text(10, 20, "label", "fill=black");
    let out = doc.finalize();
    assert!(out.contains("<text x=\"10\" y=\"20\" fill=\"black\" >label</text>"));
}

#[test]
fn ellipse_line_rounded_rect_methods() {
    let mut doc = SVG::new(5, 5);
    doc.ellipse(1, 2, 3, 4, "fill=a");
    doc.line(5, 6, 7, 8, "stroke=b");
    doc.rounded_rect(9, 10, 11, 12, 13, 14, "fill=c");
    let out = doc.finalize();
    assert!(out.contains("<ellipse cx=\"1\" cy=\"2\" rx=\"3\" ry=\"4\" fill=\"a\" />\n"));
    assert!(out.contains("<line x1=\"5\" y1=\"6\" x2=\"7\" y2=\"8\" stroke=\"b\" />\n"));
    assert!(out.contains(
        "<rect x=\"9\" y=\"10\" width=\"11\" height=\"12\" rx=\"13\" ry=\"14\" fill=\"c\" />\n"
    ));
}

#[test]
fn add_appends_prebuilt_shape() {
    let mut doc = SVG::new(5, 5);
    let mut attribs = AttributeMap::new();
    attribs.insert(String::from("fill"), String::from("green"));
    doc.add(&Shape::Circle(Circle { x: 100, y: 100, radius: 50, attribs, transform: None }));
    let out = doc.finalize();
    assert!(out.contains("<circle cx=\"100\" cy=\"100\" r=\"50\" fill=\"green\" />\n"));
}

#[test]
fn no_view_box_when_unset() {
    let doc = SVG::new(1, 1);
    assert!(!doc.finalize().contains("viewBox"));
}
