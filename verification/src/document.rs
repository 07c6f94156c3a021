//! The document: header metadata plus an append-only content stream.
//!
//! Every append renders its argument to a markup fragment at once and pushes
//! it onto the content stream; `finalize` assembles the header, the content
//! and the closing tag into the full document text.  Group open/close is an
//! unchecked flat append: balanced nesting is the caller's obligation.

use crate::attrib::group_attr_text;
use crate::attrib::group_attribs_text;
use crate::attrib::lemma_group_attribs_text_push;
use crate::attrib::make_attribs;
use crate::attrib::parse_attribs;
use crate::attrib::AttributeMap;
use crate::entity::Shape;
use crate::numfmt::dec_int;
use crate::numfmt::i32_to_string;
use crate::shapes::circle_text;
use crate::shapes::ellipse_text;
use crate::shapes::line_text;
use crate::shapes::polygon_text;
use crate::shapes::polyline_text;
use crate::shapes::rect_text;
use crate::shapes::rounded_rect_text;
use crate::shapes::Circle;
use crate::shapes::Ellipse;
use crate::shapes::Line;
use crate::shapes::PolyLine;
use crate::shapes::Polygon;
use crate::shapes::Rect;
use crate::shapes::RoundedRect;
use crate::text::text_text;
use crate::text::Text;
use crate::transform::rotate_text;
use crate::transform::scale_text;
use crate::transform::skew_x_text;
use crate::transform::skew_y_text;
use crate::transform::transform_text;
use crate::transform::translate_text;
use crate::transform::Transform;
use vstd::prelude::*;

verus! {

/// The document's header metadata: canvas size, optional view box,
/// optional title and description, and the standalone flag.
pub struct Head {
    pub standalone: bool,
    pub width: i32,
    pub height: i32,
    pub view_box: Option<(i32, i32, i32, i32)>,
    pub desc: Option<String>,
    pub title: Option<String>,
}

impl Head {
    /// A header with the given canvas size and every optional field absent;
    /// the standalone flag defaults to false.
    pub fn new(width: i32, height: i32) -> (h: Head)
        ensures
            h.standalone == false,
            h.width == width,
            h.height == height,
            h.view_box is None,
            h.desc is None,
            h.title is None,
    {
        Head {
            standalone: false,
            width: width,
            height: height,
            view_box: None,
            desc: None,
            title: None,
        }
    }
}

/// The first line of the document, selected by the standalone flag.
pub open spec fn standalone_text(standalone: bool) -> Seq<char> {
    if standalone {
        "<?xml version=\"1.0\" standalone=\"yes\"?>\n"@
    } else {
        "<?xml version=\"1.0\" standalone=\"no\"?>\n"@
    }
}

/// The fixed document-type declaration line.
pub open spec fn doc_type_text() -> Seq<char> {
    "<!DOCTYPE svg PUBLIC \"-//W3C//DTD SVG 1.1//EN\" \"http://www.w3.org/Graphics/SVG/1.1/DTD/svg11.dtd\">\n"@
}

/// The view-box attribute when present: the four numbers separated by
/// single spaces, a trailing space before the closing quote, and a space
/// after it; nothing when absent.
pub open spec fn view_box_text(vb: Option<(int, int, int, int)>) -> Seq<char> {
    match vb {
        Some(b) => "viewBox=\""@ + dec_int(b.0) + " "@ + dec_int(b.1) + " "@ + dec_int(b.2) + " "@
            + dec_int(b.3) + " \" "@,
        None => Seq::<char>::empty(),
    }
}

/// The fixed version and namespace declarations closing the root tag.
pub open spec fn xmlns_text() -> Seq<char> {
    "version=\"1.1\" xmlns=\"http://www.w3.org/2000/svg\" xmlns:xlink=\"http://www.w3.org/1999/xlink\">\n"@
}

/// The title element when a title is present; nothing when absent.
pub open spec fn title_text(t: Option<Seq<char>>) -> Seq<char> {
    match t {
        Some(s) => "<title>"@ + s + "</title>\n"@,
        None => Seq::<char>::empty(),
    }
}

/// The description element when a description is present; nothing when
/// absent.
pub open spec fn desc_text(d: Option<Seq<char>>) -> Seq<char> {
    match d {
        Some(s) => "<desc>"@ + s + "</desc>\n"@,
        None => Seq::<char>::empty(),
    }
}

/// The fragment appended by opening a group: the identifier, the composite
/// transform and the free-form attributes, in this fixed order, each only
/// when present, then the closing bracket and a newline.
pub open spec fn group_open_text(
    id: Option<Seq<char>>,
    t: Option<Seq<Seq<char>>>,
    attrs: Option<Seq<(Seq<char>, Seq<char>)>>,
) -> Seq<char> {
    "<g "@ + (match id {
        Some(i) => "id=\""@ + i + "\" "@,
        None => Seq::<char>::empty(),
    }) + (match t {
        Some(ops) => transform_text(ops) + " "@,
        None => Seq::<char>::empty(),
    }) + (match attrs {
        Some(es) => group_attribs_text(es),
        None => Seq::<char>::empty(),
    }) + ">\n"@
}

/// The fragment appended by closing a group.
pub open spec fn group_close_text() -> Seq<char> {
    "</g>\n"@
}

/// The document under construction: one header and one append-only,
/// already-rendered content stream.
pub struct SVG {
    head: Head,
    content: String,
}

/// The two documents hold equal header fields.
pub open spec fn same_head(a: SVG, b: SVG) -> bool {
    a.spec_standalone() == b.spec_standalone() && a.spec_width() == b.spec_width()
        && a.spec_height() == b.spec_height() && a.spec_view_box() == b.spec_view_box()
        && a.spec_title() == b.spec_title() && a.spec_desc() == b.spec_desc()
}

impl SVG {
    /// The standalone flag of the header.
    pub closed spec fn spec_standalone(self) -> bool {
        self.head.standalone
    }

    /// The canvas width of the header.
    pub closed spec fn spec_width(self) -> int {
        self.head.width as int
    }

    /// The canvas height of the header.
    pub closed spec fn spec_height(self) -> int {
        self.head.height as int
    }

    /// The view box of the header, when set.
    pub closed spec fn spec_view_box(self) -> Option<(int, int, int, int)> {
        match self.head.view_box {
            Some(b) => Some((b.0 as int, b.1 as int, b.2 as int, b.3 as int)),
            None => None,
        }
    }

    /// The title of the header, when set.
    pub closed spec fn spec_title(self) -> Option<Seq<char>> {
        self.head.title.deep_view()
    }

    /// The description of the header, when set.
    pub closed spec fn spec_desc(self) -> Option<Seq<char>> {
        self.head.desc.deep_view()
    }

    /// The accumulated content stream.
    pub closed spec fn spec_content(self) -> Seq<char> {
        self.content@
    }

    /// The header part of the final document text.
    pub open spec fn head_text(self) -> Seq<char> {
        standalone_text(self.spec_standalone()) + doc_type_text() + "<svg width=\""@ + dec_int(
            self.spec_width(),
        ) + "cm\" height=\""@ + dec_int(self.spec_height()) + "cm\" "@ + view_box_text(
            self.spec_view_box(),
        ) + xmlns_text() + title_text(self.spec_title()) + desc_text(self.spec_desc())
    }

    /// The full final document text: header, content stream, closing tag.
    pub open spec fn doc_text(self) -> Seq<char> {
        self.head_text() + self.spec_content() + "</svg>\n"@
    }

    /// An empty document with the given canvas size.
    pub fn new(width: i32, height: i32) -> (s: SVG)
        ensures
            s.spec_content() == Seq::<char>::empty(),
            s.spec_standalone() == false,
            s.spec_width() == width as int,
            s.spec_height() == height as int,
            s.spec_view_box() is None,
            s.spec_title() is None,
            s.spec_desc() is None,
    {
        SVG { head: Head::new(width, height), content: String::new() }
    }

    /// Sets the standalone flag; the content and every other header field
    /// are unchanged.
    pub fn standalone(&mut self, standalone: bool)
        ensures
            final(self).spec_standalone() == standalone,
            final(self).spec_width() == old(self).spec_width(),
            final(self).spec_height() == old(self).spec_height(),
            final(self).spec_view_box() == old(self).spec_view_box(),
            final(self).spec_title() == old(self).spec_title(),
            final(self).spec_desc() == old(self).spec_desc(),
            final(self).spec_content() == old(self).spec_content(),
    {
        self.head.standalone = standalone;
    }

    /// Sets the view box; the content and every other header field are
    /// unchanged.  The last write wins.
    pub fn view_box(&mut self, orig_x: i32, orig_y: i32, width: i32, height: i32)
        ensures
            final(self).spec_view_box() == Some(
                (orig_x as int, orig_y as int, width as int, height as int),
            ),
            final(self).spec_standalone() == old(self).spec_standalone(),
            final(self).spec_width() == old(self).spec_width(),
            final(self).spec_height() == old(self).spec_height(),
            final(self).spec_title() == old(self).spec_title(),
            final(self).spec_desc() == old(self).spec_desc(),
            final(self).spec_content() == old(self).spec_content(),
    {
        self.head.view_box = Some((orig_x, orig_y, width, height));
    }

    /// Sets the description; the content and every other header field are
    /// unchanged.  The last write wins.
    pub fn desc(&mut self, text: &str)
        ensures
            final(self).spec_desc() == Some(text@),
            final(self).spec_standalone() == old(self).spec_standalone(),
            final(self).spec_width() == old(self).spec_width(),
            final(self).spec_height() == old(self).spec_height(),
            final(self).spec_view_box() == old(self).spec_view_box(),
            final(self).spec_title() == old(self).spec_title(),
            final(self).spec_content() == old(self).spec_content(),
    {
        self.head.desc = Some(text.to_owned())
    }

    /// Sets the title; the content and every other header field are
    /// unchanged.  The last write wins.
    pub fn title(&mut self, text: &str)
        ensures
            final(self).spec_title() == Some(text@),
            final(self).spec_standalone() == old(self).spec_standalone(),
            final(self).spec_width() == old(self).spec_width(),
            final(self).spec_height() == old(self).spec_height(),
            final(self).spec_view_box() == old(self).spec_view_box(),
            final(self).spec_desc() == old(self).spec_desc(),
            final(self).spec_content() == old(self).spec_content(),
    {
        self.head.title = Some(text.to_owned())
    }

    /// Renders an already-constructed shape and appends its fragment to the
    /// content stream.
    pub fn add(&mut self, new_entity: &Shape)
        ensures
            same_head(*old(self), *final(self)),
            final(self).spec_content() == old(self).spec_content() + new_entity.fragment(),
    {
        let frag = new_entity.gen_output();
        self.content.append(frag.as_str());
    }

    /// Renders a circle built from the given geometry and free-form
    /// attribute string, and appends its fragment.
    pub fn circle(&mut self, x: i32, y: i32, radius: u32, attribs: &str)
        ensures
            same_head(*old(self), *final(self)),
            final(self).spec_content() == old(self).spec_content() + circle_text(
                x as int,
                y as int,
                radius as nat,
                None,
                parse_attribs(attribs@),
            ),
    {
        let shape = Circle { x: x, y: y, radius: radius, attribs: make_attribs(attribs), transform: None };
        let frag = shape.gen_output();
        self.content.append(frag.as_str());
    }

    /// Renders a rectangle built from the given geometry and free-form
    /// attribute string, and appends its fragment.
    pub fn rect(&mut self, x: i32, y: i32, width: i32, height: i32, attribs: &str)
        ensures
            same_head(*old(self), *final(self)),
            final(self).spec_content() == old(self).spec_content() + rect_text(
                x as int,
                y as int,
                width as int,
                height as int,
                None,
                parse_attribs(attribs@),
            ),
    {
        let shape = Rect {
            x: x,
            y: y,
            width: width,
            height: height,
            attribs: make_attribs(attribs),
            transform: None,
        };
        let frag = shape.gen_output();
        self.content.append(frag.as_str());
    }

    /// Renders a rounded rectangle built from the given geometry and
    /// free-form attribute string, and appends its fragment.
    pub fn rounded_rect(
        &mut self,
        x: i32,
        y: i32,
        width: i32,
        height: i32,
        x_round: u32,
        y_round: u32,
        attribs: &str,
    )
        ensures
            same_head(*old(self), *final(self)),
            final(self).spec_content() == old(self).spec_content() + rounded_rect_text(
                x as int,
                y as int,
                width as int,
                height as int,
                x_round as nat,
                y_round as nat,
                None,
                parse_attribs(attribs@),
            ),
    {
        let shape = RoundedRect {
            x: x,
            y: y,
            width: width,
            height: height,
            x_round: x_round,
            y_round: y_round,
            attribs: make_attribs(attribs),
            transform: None,
        };
        let frag = shape.gen_output();
        self.content.append(frag.as_str());
    }

    /// Renders an ellipse built from the given geometry and free-form
    /// attribute string, and appends its fragment.
    pub fn ellipse(&mut self, x: i32, y: i32, x_radius: u32, y_radius: u32, attribs: &str)
        ensures
            same_head(*old(self), *final(self)),
            final(self).spec_content() == old(self).spec_content() + ellipse_text(
                x as int,
                y as int,
                x_radius as nat,
                y_radius as nat,
                None,
                parse_attribs(attribs@),
            ),
    {
        let shape = Ellipse {
            x: x,
            y: y,
            x_radius: x_radius,
            y_radius: y_radius,
            attribs: make_attribs(attribs),
            transform: None,
        };
        let frag = shape.gen_output();
        self.content.append(frag.as_str());
    }

    /// Renders a line built from the given geometry and free-form attribute
    /// string, and appends its fragment.
    pub fn line(&mut self, x1: i32, y1: i32, x2: i32, y2: i32, attribs: &str)
        ensures
            same_head(*old(self), *final(self)),
            final(self).spec_content() == old(self).spec_content() + line_text(
                x1 as int,
                y1 as int,
                x2 as int,
                y2 as int,
                None,
                parse_attribs(attribs@),
            ),
    {
        let shape = Line {
            x1: x1,
            y1: y1,
            x2: x2,
            y2: y2,
            attribs: make_attribs(attribs),
            transform: None,
        };
        let frag = shape.gen_output();
        self.content.append(frag.as_str());
    }

    /// Renders a polyline through the given points with the given free-form
    /// attribute string, and appends its fragment.
    pub fn polyline(&mut self, points: &Vec<(i32, i32)>, attribs: &str)
        ensures
            same_head(*old(self), *final(self)),
            final(self).spec_content() == old(self).spec_content() + polyline_text(
                points@,
                None,
                parse_attribs(attribs@),
            ),
    {
        let shape = PolyLine {
            points: copy_points(points),
            attribs: make_attribs(attribs),
            transform: None,
        };
        let frag = shape.gen_output();
        self.content.append(frag.as_str());
    }

    /// Renders a polygon through the given points with the given free-form
    /// attribute string, and appends its fragment.
    pub fn polygon(&mut self, points: &Vec<(i32, i32)>, attribs: &str)
        ensures
            same_head(*old(self), *final(self)),
            final(self).spec_content() == old(self).spec_content() + polygon_text(
                points@,
                None,
                parse_attribs(attribs@),
            ),
    {
        let shape = Polygon {
            points: copy_points(points),
            attribs: make_attribs(attribs),
            transform: None,
        };
        let frag = shape.gen_output();
        self.content.append(frag.as_str());
    }

    /// Renders a text element with the given anchor, content and free-form
    /// attribute string, and appends its fragment.
    pub fn text(&mut self, x: i32, y: i32, text: &str, attribs: &str)
        ensures
            same_head(*old(self), *final(self)),
            final(self).spec_content() == old(self).spec_content() + text_text(
                x as int,
                y as int,
                text@,
                None,
                parse_attribs(attribs@),
            ),
    {
        let shape = Text {
            x: x,
            y: y,
            text: text.to_owned(),
            attribs: make_attribs(attribs),
            transform: None,
        };
        let frag = shape.gen_output();
        self.content.append(frag.as_str());
    }

    /// Appends an opening group tag carrying, in this fixed order, the
    /// identifier, the composite transform and the free-form attributes,
    /// each only when present.
    pub fn g_begin(
        &mut self,
        id: Option<&str>,
        transform: Option<&Transform>,
        attribs: Option<&AttributeMap>,
    )
        ensures
            same_head(*old(self), *final(self)),
            final(self).spec_content() == old(self).spec_content() + group_open_text(
                id.deep_view(),
                transform.deep_view(),
                attribs.deep_view(),
            ),
    {
        self.content.append("<g ");
        match id {
            Some(i) => {
                self.content.append("id=\"");
                self.content.append(i);
                self.content.append("\" ");
            },
            None => {},
        }
        match transform {
            Some(t) => {
                let g = t.get();
                self.content.append(g.as_str());
                self.content.append(" ");
            },
            None => {},
        }
        match attribs {
            Some(a) => {
                let ghost base = self.content@;
                let ghost pre_head = self.head;
                let n = a.len();
                let mut i: usize = 0;
                proof {
                    assert(a@.take(0) =~= Seq::<(Seq<char>, Seq<char>)>::empty());
                    assert(self.content@ =~= base + group_attribs_text(a@.take(0)));
                }
                while i < n
                    invariant
                        i <= n,
                        n == a@.len(),
                        self.head == pre_head,
                        self.content@ == base + group_attribs_text(a@.take(i as int)),
                    decreases n - i,
                {
                    self.content.append(a.key_at(i).as_str());
                    self.content.append("=\"");
                    self.content.append(a.value_at(i).as_str());
                    self.content.append("\" ");
                    proof {
                        assert(a@[i as int] == (a@[i as int].0, a@[i as int].1));
                        assert(a@.take(i as int).push(a@[i as int]) =~= a@.take(i as int + 1));
                        lemma_group_attribs_text_push(
                            a@.take(i as int),
                            a@[i as int].0,
                            a@[i as int].1,
                        );
                        assert(self.content@ =~= base + group_attribs_text(a@.take(i as int + 1)));
                    }
                    i += 1;
                }
                proof {
                    assert(a@.take(n as int) =~= a@);
                }
            },
            None => {},
        }
        self.content.append(">\n");
        proof {
            assert(self.content@ =~= old(self).spec_content() + group_open_text(
                id.deep_view(),
                transform.deep_view(),
                attribs.deep_view(),
            ));
        }
    }

    /// Opens a group carrying only an identifier.
    pub fn g_id(&mut self, id: &str)
        ensures
            same_head(*old(self), *final(self)),
            final(self).spec_content() == old(self).spec_content() + group_open_text(
                Some(id@),
                None,
                None,
            ),
    {
        self.g_begin(Some(id), None, None)
    }

    /// Opens a group carrying only a composite transform.
    pub fn g_transform(&mut self, transform: &Transform)
        ensures
            same_head(*old(self), *final(self)),
            final(self).spec_content() == old(self).spec_content() + group_open_text(
                None,
                Some(transform@),
                None,
            ),
    {
        self.g_begin(None, Some(transform), None)
    }

    /// Opens a group carrying only free-form attributes.
    pub fn g_attribs(&mut self, attribs: &AttributeMap)
        ensures
            same_head(*old(self), *final(self)),
            final(self).spec_content() == old(self).spec_content() + group_open_text(
                None,
                None,
                Some(attribs@),
            ),
    {
        self.g_begin(None, None, Some(attribs))
    }

    /// Opens a group carrying a single translate operation.
    pub fn g_translate(&mut self, x: i32, y: i32)
        ensures
            same_head(*old(self), *final(self)),
            final(self).spec_content() == old(self).spec_content() + group_open_text(
                None,
                Some(seq![translate_text(x as int, y as int)]),
                None,
            ),
    {
        let mut t = Transform::new();
        t.translate(x, y);
        proof {
            assert(t@ =~= seq![translate_text(x as int, y as int)]);
        }
        self.g_begin(None, Some(&t), None)
    }

    /// Opens a group carrying a single rotate operation.
    pub fn g_rotate(&mut self, angle: i32)
        ensures
            same_head(*old(self), *final(self)),
            final(self).spec_content() == old(self).spec_content() + group_open_text(
                None,
                Some(seq![rotate_text(angle as int)]),
                None,
            ),
    {
        let mut t = Transform::new();
        t.rotate(angle);
        proof {
            assert(t@ =~= seq![rotate_text(angle as int)]);
        }
        self.g_begin(None, Some(&t), None)
    }

    /// Opens a group carrying a single scale operation.
    pub fn g_scale(&mut self, x_scale: i32, y_scale: i32)
        ensures
            same_head(*old(self), *final(self)),
            final(self).spec_content() == old(self).spec_content() + group_open_text(
                None,
                Some(seq![scale_text(x_scale as int, y_scale as int)]),
                None,
            ),
    {
        let mut t = Transform::new();
        t.scale(x_scale, y_scale);
        proof {
            assert(t@ =~= seq![scale_text(x_scale as int, y_scale as int)]);
        }
        self.g_begin(None, Some(&t), None)
    }

    /// Opens a group carrying a horizontal and a vertical skew operation,
    /// in that order.
    pub fn g_skew(&mut self, x_factor: i32, y_factor: i32)
        ensures
            same_head(*old(self), *final(self)),
            final(self).spec_content() == old(self).spec_content() + group_open_text(
                None,
                Some(seq![skew_x_text(x_factor as int), skew_y_text(y_factor as int)]),
                None,
            ),
    {
        let mut t = Transform::new();
        t.skew_x(x_factor);
        t.skew_y(y_factor);
        proof {
            assert(t@ =~= seq![skew_x_text(x_factor as int), skew_y_text(y_factor as int)]);
        }
        self.g_begin(None, Some(&t), None)
    }

    /// Appends a closing group tag.  Matching it to a prior open is the
    /// caller's obligation: the content stream is a flat append log.
    pub fn g_end(&mut self)
        ensures
            same_head(*old(self), *final(self)),
            final(self).spec_content() == old(self).spec_content() + group_close_text(),
    {
        self.content.append("</g>\n");
    }

    /// Assembles the full document text: the header lines, the root tag
    /// with its size and optional view box, the namespace declarations, the
    /// optional title and description, the whole content stream in append
    /// order, and the closing root tag.  The document itself is unchanged,
    /// so calling this again yields the same text.
    #[verifier::rlimit(60)]
    pub fn finalize(&self) -> (r: String)
        ensures
            r@ == self.doc_text(),
    {
        let mut o = String::new();
        if self.head.standalone {
            o.append("<?xml version=\"1.0\" standalone=\"yes\"?>\n");
        } else {
            o.append("<?xml version=\"1.0\" standalone=\"no\"?>\n");
        }
        o.append(
            "<!DOCTYPE svg PUBLIC \"-//W3C//DTD SVG 1.1//EN\" \"http://www.w3.org/Graphics/SVG/1.1/DTD/svg11.dtd\">\n",
        );
        o.append("<svg width=\"");
        let tw = i32_to_string(self.head.width);
        o.append(tw.as_str());
        o.append("cm\" height=\"");
        let th = i32_to_string(self.head.height);
        o.append(th.as_str());
        o.append("cm\" ");
        match self.head.view_box {
            Some((x, y, width, height)) => {
                o.append("viewBox=\"");
                let tx = i32_to_string(x);
                o.append(tx.as_str());
                o.append(" ");
                let ty = i32_to_string(y);
                o.append(ty.as_str());
                o.append(" ");
                let tvw = i32_to_string(width);
                o.append(tvw.as_str());
                o.append(" ");
                let tvh = i32_to_string(height);
                o.append(tvh.as_str());
                o.append(" \" ");
            },
            None => {},
        }
        o.append(
            "version=\"1.1\" xmlns=\"http://www.w3.org/2000/svg\" xmlns:xlink=\"http://www.w3.org/1999/xlink\">\n",
        );
        match &self.head.title {
            Some(t) => {
                o.append("<title>");
                o.append(t.as_str());
                o.append("</title>\n");
            },
            None => {},
        }
        match &self.head.desc {
            Some(d) => {
                o.append("<desc>");
                o.append(d.as_str());
                o.append("</desc>\n");
            },
            None => {},
        }
        o.append(self.content.as_str());
        o.append("</svg>\n");
        proof {
            assert(o@ =~= self.doc_text());
        }
        o
    }
}

/// Law: the final document text is a function of the accumulated state
/// alone.  Two documents that hold equal header fields and equal content
/// streams — as two documents built by equivalent builder-call sequences do
/// — yield byte-identical output.
pub proof fn lemma_finalize_deterministic(a: SVG, b: SVG)
    requires
        same_head(a, b),
        a.spec_content() == b.spec_content(),
    ensures
        a.doc_text() == b.doc_text(),
{
}

/// An owned copy of a point sequence.
fn copy_points(points: &Vec<(i32, i32)>) -> (r: Vec<(i32, i32)>)
    ensures
        r@ == points@,
{
    let mut pts: Vec<(i32, i32)> = Vec::new();
    let n = points.len();
    let mut i: usize = 0;
    while i < n
        invariant
            i <= n,
            n == points@.len(),
            pts@ == points@.take(i as int),
        decreases n - i,
    {
        let p = points[i];
        pts.push(p);
        proof {
            assert(points@.take(i as int).push(points@[i as int]) =~= points@.take(i as int + 1));
        }
        i += 1;
    }
    proof {
        assert(points@.take(n as int) =~= points@);
    }
    pts
}

} // verus!

