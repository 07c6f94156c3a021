//! The closed set of shape variants.
//!
//! The renderer matches exhaustively over this sum type; a new shape kind is
//! added by extending the variant set.

use crate::shapes::Circle;
use crate::shapes::Ellipse;
use crate::shapes::Line;
use crate::shapes::PolyLine;
use crate::shapes::Polygon;
use crate::shapes::Rect;
use crate::shapes::RoundedRect;
use crate::text::Text;
use vstd::prelude::*;

verus! {

/// Any one of the primitive shapes.
pub enum Shape {
    Circle(Circle),
    Ellipse(Ellipse),
    Line(Line),
    Rect(Rect),
    RoundedRect(RoundedRect),
    PolyLine(PolyLine),
    Polygon(Polygon),
    Text(Text),
}

/// Both shapes are the same variant with equal field values: equal
/// geometry, equal attribute entries and equal transform operations.
pub open spec fn same_fields(a: Shape, b: Shape) -> bool {
    match (a, b) {
        (Shape::Circle(p), Shape::Circle(q)) => p.x == q.x && p.y == q.y && p.radius == q.radius
            && p.attribs@ == q.attribs@ && p.transform.deep_view() == q.transform.deep_view(),
        (Shape::Ellipse(p), Shape::Ellipse(q)) => p.x == q.x && p.y == q.y && p.x_radius
            == q.x_radius && p.y_radius == q.y_radius && p.attribs@ == q.attribs@
            && p.transform.deep_view() == q.transform.deep_view(),
        (Shape::Line(p), Shape::Line(q)) => p.x1 == q.x1 && p.y1 == q.y1 && p.x2 == q.x2 && p.y2
            == q.y2 && p.attribs@ == q.attribs@ && p.transform.deep_view()
            == q.transform.deep_view(),
        (Shape::Rect(p), Shape::Rect(q)) => p.x == q.x && p.y == q.y && p.width == q.width
            && p.height == q.height && p.attribs@ == q.attribs@ && p.transform.deep_view()
            == q.transform.deep_view(),
        (Shape::RoundedRect(p), Shape::RoundedRect(q)) => p.x == q.x && p.y == q.y && p.width
            == q.width && p.height == q.height && p.x_round == q.x_round && p.y_round == q.y_round
            && p.attribs@ == q.attribs@ && p.transform.deep_view() == q.transform.deep_view(),
        (Shape::PolyLine(p), Shape::PolyLine(q)) => p.points@ == q.points@ && p.attribs@
            == q.attribs@ && p.transform.deep_view() == q.transform.deep_view(),
        (Shape::Polygon(p), Shape::Polygon(q)) => p.points@ == q.points@ && p.attribs@ == q.attribs@
            && p.transform.deep_view() == q.transform.deep_view(),
        (Shape::Text(p), Shape::Text(q)) => p.x == q.x && p.y == q.y && p.text@ == q.text@
            && p.attribs@ == q.attribs@ && p.transform.deep_view() == q.transform.deep_view(),
        _ => false,
    }
}

impl Shape {
    /// The fragment this shape renders to.
    pub open spec fn fragment(self) -> Seq<char> {
        match self {
            Shape::Circle(p) => p.fragment(),
            Shape::Ellipse(p) => p.fragment(),
            Shape::Line(p) => p.fragment(),
            Shape::Rect(p) => p.fragment(),
            Shape::RoundedRect(p) => p.fragment(),
            Shape::PolyLine(p) => p.fragment(),
            Shape::Polygon(p) => p.fragment(),
            Shape::Text(p) => p.fragment(),
        }
    }

    /// Renders this shape to its markup fragment.
    pub fn gen_output(&self) -> (r: String)
        ensures
            r@ == self.fragment(),
    {
        match self {
            Shape::Circle(p) => p.gen_output(),
            Shape::Ellipse(p) => p.gen_output(),
            Shape::Line(p) => p.gen_output(),
            Shape::Rect(p) => p.gen_output(),
            Shape::RoundedRect(p) => p.gen_output(),
            Shape::PolyLine(p) => p.gen_output(),
            Shape::Polygon(p) => p.gen_output(),
            Shape::Text(p) => p.gen_output(),
        }
    }
}

/// Law: rendering is deterministic.  Two shapes of the same variant with
/// equal field values render to identical fragments, so rendering a shape
/// twice yields byte-identical text.
pub proof fn lemma_render_deterministic(a: Shape, b: Shape)
    requires
        same_fields(a, b),
    ensures
        a.fragment() == b.fragment(),
{
}

} // verus!
