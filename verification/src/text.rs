//! The text shape: the one primitive with an explicit closing tag, carrying
//! its literal content between the tags, unescaped.

use crate::attrib::attribs_text;
use crate::attrib::AttributeMap;
use crate::common::insert_attribs;
use crate::common::insert_transform;
use crate::numfmt::dec_int;
use crate::numfmt::i32_to_string;
use crate::transform::transform_part;
use crate::transform::Transform;
use vstd::prelude::*;

verus! {

/// A run of text anchored at `(x, y)`.
pub struct Text {
    pub x: i32,
    pub y: i32,
    pub text: String,
    pub attribs: AttributeMap,
    pub transform: Option<Transform>,
}

/// The fragment of a text element with the given field values: an opening
/// tag, the literal content with no escaping, and an explicit closing tag.
pub open spec fn text_text(
    x: int,
    y: int,
    content: Seq<char>,
    t: Option<Seq<Seq<char>>>,
    attrs: Seq<(Seq<char>, Seq<char>)>,
) -> Seq<char> {
    "<text x=\""@ + dec_int(x) + "\" y=\""@ + dec_int(y) + "\""@ + transform_part(t)
        + attribs_text(attrs) + " >"@ + content + "</text>"@
}

impl Text {
    /// The fragment this text element renders to; it depends on the field
    /// values alone.
    pub open spec fn fragment(self) -> Seq<char> {
        text_text(
            self.x as int,
            self.y as int,
            self.text@,
            self.transform.deep_view(),
            self.attribs@,
        )
    }

    /// Renders this text element to its markup fragment.
    pub fn gen_output(&self) -> (r: String)
        ensures
            r@ == self.fragment(),
    {
        let mut s = String::from_str("<text x=\"");
        let tx = i32_to_string(self.x);
        s.append(tx.as_str());
        s.append("\" y=\"");
        let ty = i32_to_string(self.y);
        s.append(ty.as_str());
        s.append("\"");
        let mut s = insert_attribs(insert_transform(s, &self.transform), &self.attribs);
        s.append(" >");
        s.append(self.text.as_str());
        s.append("</text>");
        proof {
            assert(s@ =~= self.fragment());
        }
        s
    }
}

} // verus!
