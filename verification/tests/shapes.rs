use svg::attrib::make_attribs;
use svg::common::finalize;
use svg::common::insert_attribs;
use svg::common::insert_transform;
use svg::common::rgb;
use svg::AttributeMap;
use svg::Circle;
use svg::Ellipse;
use svg::Line;
use svg::PolyLine;
use svg::Polygon;
use svg::Rect;
use svg::RoundedRect;
use svg::Shape;
use svg::Text;
use svg::Transform;

#[test]
fn circle_fragment_exact() {
    let c = Circle {
        x: 600,
        y: 200,
        radius: 100,
        attribs: make_attribs("fill=red stroke=blue stroke-width=10"),
        transform: None,
    };
    assert_eq!(
        c.gen_output(),
        "<circle cx=\"600\" cy=\"200\" r=\"100\" fill=\"red\" stroke=\"blue\" stroke-width=\"10\" />\n"
    );
}

#[test]
fn circle_rendering_deterministic() {
    let a = Circle { x: 3, y: -4, radius: 5, attribs: make_attribs("fill=red"), transform: None };
    let b = Circle { x: 3, y: -4, radius: 5, attribs: make_attribs("fill=red"), transform: None };
    assert_eq!(a.gen_output(), b.gen_output());
    assert_eq!(a.gen_output(), a.gen_output());
}

#[test]
fn ellipse_fragment_exact() {
    let e = Ellipse {
        x: 10,
        y: 20,
        x_radius: 30,
        y_radius: 40,
        attribs: make_attribs("fill=green"),
        transform: None,
    };
    assert_eq!(
        e.gen_output(),
        "<ellipse cx=\"10\" cy=\"20\" rx=\"30\" ry=\"40\" fill=\"green\" />\n"
    );
}

#[test]
fn line_fragment_exact() {
    let l = Line { x1: 1, y1: 2, x2: 3, y2: 4, attribs: make_attribs("stroke=black"), transform: None };
    assert_eq!(
        l.gen_output(),
        "<line x1=\"1\" y1=\"2\" x2=\"3\" y2=\"4\" stroke=\"black\" />\n"
    );
}

#[test]
fn rect_fragment_exact() {
    let r = Rect {
        x: 700,
        y: 200,
        width: 200,
        height: 200,
        attribs: make_attribs("fill=red"),
        transform: None,
    };
    assert_eq!(
        r.gen_output(),
        "<rect x=\"700\" y=\"200\" width=\"200\" height=\"200\" fill=\"red\" />\n"
    );
}

#[test]
fn rounded_rect_fragment_exact() {
    let r = RoundedRect {
        x: 800,
        y: 600,
        width: 200,
        height: 200,
        x_round: 60,
        y_round: 30,
        attribs: make_attribs("fill=red"),
        transform: None,
    };
    assert_eq!(
        r.gen_output(),
        "<rect x=\"800\" y=\"600\" width=\"200\" height=\"200\" rx=\"60\" ry=\"30\" fill=\"red\" />\n"
    );
}

#[test]
fn polygon_points_trailing_space() {
    let p = Polygon {
        points: vec![(0, 0), (1, 0), (1, 1)],
        attribs: make_attribs("fill=blue"),
        transform: None,
    };
    let out = p.gen_output();
    assert_eq!(out, "<polygon points=\"0,0 1,0 1,1 \" fill=\"blue\" />\n");
    let points_at = out.find("points=\"0,0 1,0 1,1 \"").unwrap();
    let fill_at = out.find("fill=\"blue\"").unwrap();
    assert!(points_at < fill_at);
}

#[test]
fn polyline_fragment_exact() {
    let p = PolyLine {
        points: vec![(-1, 2), (3, -4)],
        attribs: make_attribs("stroke=red"),
        transform: None,
    };
    assert_eq!(p.gen_output(), "<polyline points=\"-1,2 3,-4 \" stroke=\"red\" />\n");
}

#[test]
fn polyline_add_point() {
    let mut p = PolyLine { points: vec![(0, 0)], attribs: AttributeMap::new(), transform: None };
    p.add_point(5, 6);
    assert_eq!(p.gen_output(), "<polyline points=\"0,0 5,6 \" />\n");
}

#[test]
fn polygon_add_point() {
    let mut p = Polygon { points: Vec::new(), attribs: AttributeMap::new(), transform: None };
    p.add_point(7, 8);
    assert_eq!(p.gen_output(), "<polygon points=\"7,8 \" />\n");
}

#[test]
fn text_fragment_exact() {
    let t = Text {
        x: 1,
        y: 2,
        text: String::from("hello"),
        attribs: make_attribs("fill=red"),
        transform: None,
    };
    assert_eq!(t.gen_output(), "<text x=\"1\" y=\"2\" fill=\"red\" >hello</text>");
}

#[test]
fn shape_enum_dispatch() {
    let s = Shape::Circle(Circle {
        x: 0,
        y: 0,
        radius: 1,
        attribs: AttributeMap::new(),
        transform: None,
    });
    assert_eq!(s.gen_output(), "<circle cx=\"0\" cy=\"0\" r=\"1\" />\n");
}

#[test]
fn shape_with_transform() {
    let mut t = Transform::new();
    t.translate(10, 20);
    t.rotate(45);
    let c = Circle { x: 0, y: 0, radius: 2, attribs: make_attribs("fill=red"), transform: Some(t) };
    assert_eq!(
        c.gen_output(),
        "<circle cx=\"0\" cy=\"0\" r=\"2\" transform=\"translate(10, 20) rotate(45)\" fill=\"red\" />\n"
    );
}

#[test]
fn negative_and_extreme_coordinates() {
    let l = Line {
        x1: i32::MIN,
        y1: i32::MAX,
        x2: 0,
        y2: -1,
        attribs: AttributeMap::new(),
        transform: None,
    };
    assert_eq!(
        l.gen_output(),
        "<line x1=\"-2147483648\" y1=\"2147483647\" x2=\"0\" y2=\"-1\" />\n"
    );
}

#[test]
fn insert_attribs_appends_entries() {
    let mut m = AttributeMap::new();
    m.insert(String::from("fill"), String::from("red"));
    m.insert(String::from("stroke"), String::from("blue"));
    let out = insert_attribs(String::from("<x"), &m);
    assert_eq!(out, "<x fill=\"red\" stroke=\"blue\"");
}

#[test]
fn insert_transform_some_and_none() {
    let mut t = Transform::new();
    t.scale(2, 3);
    let with = insert_transform(String::from("<x"), &Some(t));
    assert_eq!(with, "<x transform=\"scale(2, 3)\"");
    let without = insert_transform(String::from("<x"), &None);
    assert_eq!(without, "<x");
}

#[test]
fn finalize_closes_fragment() {
    assert_eq!(finalize(String::from("<x")), "<x />\n");
}

#[test]
fn rgb_formula() {
    assert_eq!(rgb(1, 2, 3), "rgb(1, 2, 3)");
    assert_eq!(rgb(255, 0, 128), "rgb(255, 0, 128)");
}
