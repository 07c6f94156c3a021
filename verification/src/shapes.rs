//! The primitive shape entities and their rendering.
//!
//! Each shape renders itself to one markup fragment: an opening tag, its
//! geometry attributes in a fixed per-shape order, the optional transform
//! attribute, the free-form attributes in entry order, and a self-closing
//! terminator.  The `*_text` spec functions state each fragment exactly.

use crate::attrib::attribs_text;
use crate::attrib::AttributeMap;
use crate::common::finalize;
use crate::common::insert_attribs;
use crate::common::insert_transform;
use crate::numfmt::dec_int;
use crate::numfmt::dec_nat;
use crate::numfmt::i32_to_string;
use crate::numfmt::u32_to_string;
use crate::transform::transform_part;
use crate::transform::Transform;
use vstd::prelude::*;

verus! {

/// A circle at `(x, y)` with the given radius.
pub struct Circle {
    pub x: i32,
    pub y: i32,
    pub radius: u32,
    pub attribs: AttributeMap,
    pub transform: Option<Transform>,
}

/// An ellipse at `(x, y)` with one radius per axis.
pub struct Ellipse {
    pub x: i32,
    pub y: i32,
    pub x_radius: u32,
    pub y_radius: u32,
    pub attribs: AttributeMap,
    pub transform: Option<Transform>,
}

/// A straight line from `(x1, y1)` to `(x2, y2)`.
pub struct Line {
    pub x1: i32,
    pub y1: i32,
    pub x2: i32,
    pub y2: i32,
    pub attribs: AttributeMap,
    pub transform: Option<Transform>,
}

/// A rectangle with rounded corners.
pub struct RoundedRect {
    pub x: i32,
    pub y: i32,
    pub width: i32,
    pub height: i32,
    pub x_round: u32,
    pub y_round: u32,
    pub attribs: AttributeMap,
    pub transform: Option<Transform>,
}

/// An axis-aligned rectangle.
pub struct Rect {
    pub x: i32,
    pub y: i32,
    pub width: i32,
    pub height: i32,
    pub attribs: AttributeMap,
    pub transform: Option<Transform>,
}

/// An open chain of straight segments through the given points.
pub struct PolyLine {
    pub points: Vec<(i32, i32)>,
    pub attribs: AttributeMap,
    pub transform: Option<Transform>,
}

/// A closed chain of straight segments through the given points.
pub struct Polygon {
    pub points: Vec<(i32, i32)>,
    pub attribs: AttributeMap,
    pub transform: Option<Transform>,
}

impl PolyLine {
    /// Appends one point to the chain.
    pub fn add_point(&mut self, x: i32, y: i32)
        ensures
            final(self).points@ == old(self).points@.push((x, y)),
            final(self).attribs == old(self).attribs,
            final(self).transform == old(self).transform,
    {
        self.points.push((x, y))
    }
}

impl Polygon {
    /// Appends one point to the chain.
    pub fn add_point(&mut self, x: i32, y: i32)
        ensures
            final(self).points@ == old(self).points@.push((x, y)),
            final(self).attribs == old(self).attribs,
            final(self).transform == old(self).transform,
    {
        self.points.push((x, y))
    }
}

/// The text of one point inside a `points` attribute: `x,y` and a space.
pub open spec fn point_text(p: (i32, i32)) -> Seq<char> {
    dec_int(p.0 as int) + ","@ + dec_int(p.1 as int) + " "@
}

/// The text of all points, in sequence order; every point, the last one
/// included, is followed by a space.
pub open spec fn points_body_text(ps: Seq<(i32, i32)>) -> Seq<char>
    decreases ps.len(),
{
    if ps.len() == 0 {
        Seq::<char>::empty()
    } else {
        point_text(ps[0]) + points_body_text(ps.drop_first())
    }
}

/// The whole `points="..."` attribute, with a trailing space before the
/// closing quote whenever there is at least one point.
pub open spec fn points_attr_text(ps: Seq<(i32, i32)>) -> Seq<char> {
    "points=\""@ + points_body_text(ps) + "\""@
}

/// Appending a point extends the points text by that point's fragment.
pub proof fn lemma_points_body_text_push(ps: Seq<(i32, i32)>, p: (i32, i32))
    ensures
        points_body_text(ps.push(p)) == points_body_text(ps) + point_text(p),
    decreases ps.len(),
{
    if ps.len() == 0 {
        assert(ps.push(p).drop_first() =~= ps);
        assert(points_body_text(ps.push(p)) =~= points_body_text(ps) + point_text(p));
    } else {
        assert(ps.push(p).drop_first() =~= ps.drop_first().push(p));
        lemma_points_body_text_push(ps.drop_first(), p);
        assert(points_body_text(ps.push(p)) =~= points_body_text(ps) + point_text(p));
    }
}

/// The `points="..."` attribute rendered from a point sequence.
fn get_points(points: &Vec<(i32, i32)>) -> (r: String)
    ensures
        r@ == points_attr_text(points@),
{
    let mut s = String::from_str("points=\"");
    let n = points.len();
    let mut i: usize = 0;
    proof {
        assert(points@.take(0) =~= Seq::<(i32, i32)>::empty());
        assert(s@ =~= "points=\""@ + points_body_text(points@.take(0)));
    }
    while i < n
        invariant
            i <= n,
            n == points@.len(),
            s@ == "points=\""@ + points_body_text(points@.take(i as int)),
        decreases n - i,
    {
        let p = points[i];
        let tx = i32_to_string(p.0);
        s.append(tx.as_str());
        s.append(",");
        let ty = i32_to_string(p.1);
        s.append(ty.as_str());
        s.append(" ");
        proof {
            assert(points@.take(i as int).push(points@[i as int]) =~= points@.take(i as int + 1));
            lemma_points_body_text_push(points@.take(i as int), points@[i as int]);
            assert(s@ =~= "points=\""@ + points_body_text(points@.take(i as int + 1)));
        }
        i += 1;
    }
    s.append("\"");
    proof {
        assert(points@.take(n as int) =~= points@);
    }
    s
}

/// The fragment of a circle with the given field values.
pub open spec fn circle_text(
    x: int,
    y: int,
    radius: nat,
    t: Option<Seq<Seq<char>>>,
    attrs: Seq<(Seq<char>, Seq<char>)>,
) -> Seq<char> {
    "<circle cx=\""@ + dec_int(x) + "\" cy=\""@ + dec_int(y) + "\" r=\""@ + dec_nat(radius)
        + "\""@ + transform_part(t) + attribs_text(attrs) + " />\n"@
}

/// The fragment of an ellipse with the given field values.
pub open spec fn ellipse_text(
    x: int,
    y: int,
    x_radius: nat,
    y_radius: nat,
    t: Option<Seq<Seq<char>>>,
    attrs: Seq<(Seq<char>, Seq<char>)>,
) -> Seq<char> {
    "<ellipse cx=\""@ + dec_int(x) + "\" cy=\""@ + dec_int(y) + "\" rx=\""@ + dec_nat(x_radius)
        + "\" ry=\""@ + dec_nat(y_radius) + "\""@ + transform_part(t) + attribs_text(attrs)
        + " />\n"@
}

/// The fragment of a line with the given field values.
pub open spec fn line_text(
    x1: int,
    y1: int,
    x2: int,
    y2: int,
    t: Option<Seq<Seq<char>>>,
    attrs: Seq<(Seq<char>, Seq<char>)>,
) -> Seq<char> {
    "<line x1=\""@ + dec_int(x1) + "\" y1=\""@ + dec_int(y1) + "\" x2=\""@ + dec_int(x2)
        + "\" y2=\""@ + dec_int(y2) + "\""@ + transform_part(t) + attribs_text(attrs) + " />\n"@
}

/// The fragment of a rectangle with the given field values.
pub open spec fn rect_text(
    x: int,
    y: int,
    width: int,
    height: int,
    t: Option<Seq<Seq<char>>>,
    attrs: Seq<(Seq<char>, Seq<char>)>,
) -> Seq<char> {
    "<rect x=\""@ + dec_int(x) + "\" y=\""@ + dec_int(y) + "\" width=\""@ + dec_int(width)
        + "\" height=\""@ + dec_int(height) + "\""@ + transform_part(t) + attribs_text(attrs)
        + " />\n"@
}

/// The fragment of a rounded rectangle with the given field values.
pub open spec fn rounded_rect_text(
    x: int,
    y: int,
    width: int,
    height: int,
    x_round: nat,
    y_round: nat,
    t: Option<Seq<Seq<char>>>,
    attrs: Seq<(Seq<char>, Seq<char>)>,
) -> Seq<char> {
    "<rect x=\""@ + dec_int(x) + "\" y=\""@ + dec_int(y) + "\" width=\""@ + dec_int(width)
        + "\" height=\""@ + dec_int(height) + "\" rx=\""@ + dec_nat(x_round) + "\" ry=\""@
        + dec_nat(y_round) + "\""@ + transform_part(t) + attribs_text(attrs) + " />\n"@
}

/// The fragment of a polyline with the given field values.
pub open spec fn polyline_text(
    points: Seq<(i32, i32)>,
    t: Option<Seq<Seq<char>>>,
    attrs: Seq<(Seq<char>, Seq<char>)>,
) -> Seq<char> {
    "<polyline "@ + points_attr_text(points) + transform_part(t) + attribs_text(attrs) + " />\n"@
}

/// The fragment of a polygon with the given field values.
pub open spec fn polygon_text(
    points: Seq<(i32, i32)>,
    t: Option<Seq<Seq<char>>>,
    attrs: Seq<(Seq<char>, Seq<char>)>,
) -> Seq<char> {
    "<polygon "@ + points_attr_text(points) + transform_part(t) + attribs_text(attrs) + " />\n"@
}

impl Circle {
    /// The fragment this circle renders to; it depends on the field values
    /// alone.
    pub open spec fn fragment(self) -> Seq<char> {
        circle_text(
            self.x as int,
            self.y as int,
            self.radius as nat,
            self.transform.deep_view(),
            self.attribs@,
        )
    }

    /// Renders this circle to its markup fragment.
    pub fn gen_output(&self) -> (r: String)
        ensures
            r@ == self.fragment(),
    {
        let mut s = String::from_str("<circle cx=\"");
        let tx = i32_to_string(self.x);
        s.append(tx.as_str());
        s.append("\" cy=\"");
        let ty = i32_to_string(self.y);
        s.append(ty.as_str());
        s.append("\" r=\"");
        let tr = u32_to_string(self.radius);
        s.append(tr.as_str());
        s.append("\"");
        let s = insert_attribs(insert_transform(s, &self.transform), &self.attribs);
        let out = finalize(s);
        proof {
            assert(out@ =~= self.fragment());
        }
        out
    }
}

impl Ellipse {
    /// The fragment this ellipse renders to; it depends on the field values
    /// alone.
    pub open spec fn fragment(self) -> Seq<char> {
        ellipse_text(
            self.x as int,
            self.y as int,
            self.x_radius as nat,
            self.y_radius as nat,
            self.transform.deep_view(),
            self.attribs@,
        )
    }

    /// Renders this ellipse to its markup fragment.
    pub fn gen_output(&self) -> (r: String)
        ensures
            r@ == self.fragment(),
    {
        let mut s = String::from_str("<ellipse cx=\"");
        let tx = i32_to_string(self.x);
        s.append(tx.as_str());
        s.append("\" cy=\"");
        let ty = i32_to_string(self.y);
        s.append(ty.as_str());
        s.append("\" rx=\"");
        let trx = u32_to_string(self.x_radius);
        s.append(trx.as_str());
        s.append("\" ry=\"");
        let try_ = u32_to_string(self.y_radius);
        s.append(try_.as_str());
        s.append("\"");
        let s = insert_attribs(insert_transform(s, &self.transform), &self.attribs);
        let out = finalize(s);
        proof {
            assert(out@ =~= self.fragment());
        }
        out
    }
}

impl Line {
    /// The fragment this line renders to; it depends on the field values
    /// alone.
    pub open spec fn fragment(self) -> Seq<char> {
        line_text(
            self.x1 as int,
            self.y1 as int,
            self.x2 as int,
            self.y2 as int,
            self.transform.deep_view(),
            self.attribs@,
        )
    }

    /// Renders this line to its markup fragment.
    pub fn gen_output(&self) -> (r: String)
        ensures
            r@ == self.fragment(),
    {
        let mut s = String::from_str("<line x1=\"");
        let tx1 = i32_to_string(self.x1);
        s.append(tx1.as_str());
        s.append("\" y1=\"");
        let ty1 = i32_to_string(self.y1);
        s.append(ty1.as_str());
        s.append("\" x2=\"");
        let tx2 = i32_to_string(self.x2);
        s.append(tx2.as_str());
        s.append("\" y2=\"");
        let ty2 = i32_to_string(self.y2);
        s.append(ty2.as_str());
        s.append("\"");
        let s = insert_attribs(insert_transform(s, &self.transform), &self.attribs);
        let out = finalize(s);
        proof {
            assert(out@ =~= self.fragment());
        }
        out
    }
}

impl Rect {
    /// The fragment this rectangle renders to; it depends on the field
    /// values alone.
    pub open spec fn fragment(self) -> Seq<char> {
        rect_text(
            self.x as int,
            self.y as int,
            self.width as int,
            self.height as int,
            self.transform.deep_view(),
            self.attribs@,
        )
    }

    /// Renders this rectangle to its markup fragment.
    pub fn gen_output(&self) -> (r: String)
        ensures
            r@ == self.fragment(),
    {
        let mut s = String::from_str("<rect x=\"");
        let tx = i32_to_string(self.x);
        s.append(tx.as_str());
        s.append("\" y=\"");
        let ty = i32_to_string(self.y);
        s.append(ty.as_str());
        s.append("\" width=\"");
        let tw = i32_to_string(self.width);
        s.append(tw.as_str());
        s.append("\" height=\"");
        let th = i32_to_string(self.height);
        s.append(th.as_str());
        s.append("\"");
        let s = insert_attribs(insert_transform(s, &self.transform), &self.attribs);
        let out = finalize(s);
        proof {
            assert(out@ =~= self.fragment());
        }
        out
    }
}

impl RoundedRect {
    /// The fragment this rounded rectangle renders to; it depends on the
    /// field values alone.
    pub open spec fn fragment(self) -> Seq<char> {
        rounded_rect_text(
            self.x as int,
            self.y as int,
            self.width as int,
            self.height as int,
            self.x_round as nat,
            self.y_round as nat,
            self.transform.deep_view(),
            self.attribs@,
        )
    }

    /// Renders this rounded rectangle to its markup fragment.
    pub fn gen_output(&self) -> (r: String)
        ensures
            r@ == self.fragment(),
    {
        let mut s = String::from_str("<rect x=\"");
        let tx = i32_to_string(self.x);
        s.append(tx.as_str());
        s.append("\" y=\"");
        let ty = i32_to_string(self.y);
        s.append(ty.as_str());
        s.append("\" width=\"");
        let tw = i32_to_string(self.width);
        s.append(tw.as_str());
        s.append("\" height=\"");
        let th = i32_to_string(self.height);
        s.append(th.as_str());
        s.append("\" rx=\"");
        let trx = u32_to_string(self.x_round);
        s.append(trx.as_str());
        s.append("\" ry=\"");
        let try_ = u32_to_string(self.y_round);
        s.append(try_.as_str());
        s.append("\"");
        let s = insert_attribs(insert_transform(s, &self.transform), &self.attribs);
        let out = finalize(s);
        proof {
            assert(out@ =~= self.fragment());
        }
        out
    }
}

impl PolyLine {
    /// The fragment this polyline renders to; it depends on the field
    /// values alone.
    pub open spec fn fragment(self) -> Seq<char> {
        polyline_text(self.points@, self.transform.deep_view(), self.attribs@)
    }

    /// Renders this polyline to its markup fragment.
    pub fn gen_output(&self) -> (r: String)
        ensures
            r@ == self.fragment(),
    {
        let mut s = String::from_str("<polyline ");
        let pts = get_points(&self.points);
        s.append(pts.as_str());
        let s = insert_attribs(insert_transform(s, &self.transform), &self.attribs);
        let out = finalize(s);
        proof {
            assert(out@ =~= self.fragment());
        }
        out
    }
}

impl Polygon {
    /// The fragment this polygon renders to; it depends on the field values
    /// alone.
    pub open spec fn fragment(self) -> Seq<char> {
        polygon_text(self.points@, self.transform.deep_view(), self.attribs@)
    }

    /// Renders this polygon to its markup fragment.
    pub fn gen_output(&self) -> (r: String)
        ensures
            r@ == self.fragment(),
    {
        let mut s = String::from_str("<polygon ");
        let pts = get_points(&self.points);
        s.append(pts.as_str());
        let s = insert_attribs(insert_transform(s, &self.transform), &self.attribs);
        let out = finalize(s);
        proof {
            assert(out@ =~= self.fragment());
        }
        out
    }
}

} // verus!
