//! Shared fragment-building helpers: appending an attribute map, appending
//! an optional transform, closing a self-closing tag, and color helpers.

use crate::attrib::attribs_text;
use crate::attrib::lemma_attribs_text_push;
use crate::attrib::AttributeMap;
use crate::numfmt::dec_nat;
use crate::numfmt::u32_to_string;
use crate::transform::transform_part;
use crate::transform::Transform;
use vstd::prelude::*;

verus! {

/// Appends one ` name="value"` fragment per entry of `attribs` to `o`,
/// in entry order.
pub fn insert_attribs(o: String, attribs: &AttributeMap) -> (r: String)
    ensures
        r@ == o@ + attribs_text(attribs@),
{
    let mut s = o;
    let ghost base = s@;
    let n = attribs.len();
    let mut i: usize = 0;
    proof {
        assert(attribs@.take(0) =~= Seq::<(Seq<char>, Seq<char>)>::empty());
        assert(s@ =~= base + attribs_text(attribs@.take(0)));
    }
    while i < n
        invariant
            i <= n,
            n == attribs@.len(),
            s@ == base + attribs_text(attribs@.take(i as int)),
        decreases n - i,
    {
        s.append(" ");
        s.append(attribs.key_at(i).as_str());
        s.append("=\"");
        s.append(attribs.value_at(i).as_str());
        s.append("\"");
        proof {
            assert(attribs@[i as int] == (attribs@[i as int].0, attribs@[i as int].1));
            assert(attribs@.take(i as int).push(attribs@[i as int]) =~= attribs@.take(
                i as int + 1,
            ));
            lemma_attribs_text_push(
                attribs@.take(i as int),
                attribs@[i as int].0,
                attribs@[i as int].1,
            );
            assert(s@ =~= base + attribs_text(attribs@.take(i as int + 1)));
        }
        i += 1;
    }
    proof {
        assert(attribs@.take(n as int) =~= attribs@);
    }
    s
}

/// Appends a space and the composite transform attribute to `o` when a
/// transform is present; appends nothing otherwise.
pub fn insert_transform(o: String, transform: &Option<Transform>) -> (r: String)
    ensures
        r@ == o@ + transform_part(transform.deep_view()),
{
    let mut s = o;
    match transform {
        Some(t) => {
            s.append(" ");
            let g = t.get();
            s.append(g.as_str());
        },
        None => {},
    }
    s
}

/// Appends the self-closing terminator ` />` and a newline to `o`.
pub fn finalize(o: String) -> (r: String)
    ensures
        r@ == o@ + " />\n"@,
{
    let mut s = o;
    s.append(" />\n");
    s
}

/// The smaller of `num` and `max`.
fn or_max(num: u8, max: u8) -> (r: u8)
    ensures
        r == if num < max {
            num
        } else {
            max
        },
{
    if num < max {
        num
    } else {
        max
    }
}

/// The color text `rgb(red, green, blue)` for 8-bit channel values.
pub open spec fn rgb_text(red: nat, green: nat, blue: nat) -> Seq<char> {
    "rgb("@ + dec_nat(red) + ", "@ + dec_nat(green) + ", "@ + dec_nat(blue) + ")"@
}

/// Renders an RGB color attribute value out of its three channels.
pub fn rgb(red: u8, green: u8, blue: u8) -> (r: String)
    ensures
        r@ == rgb_text(red as nat, green as nat, blue as nat),
{
    let mut s = String::from_str("rgb(");
    let tr = u32_to_string(or_max(red, 255) as u32);
    s.append(tr.as_str());
    s.append(", ");
    let tg = u32_to_string(or_max(green, 255) as u32);
    s.append(tg.as_str());
    s.append(", ");
    let tb = u32_to_string(or_max(blue, 255) as u32);
    s.append(tb.as_str());
    s.append(")");
    proof {
        assert(s@ =~= rgb_text(red as nat, green as nat, blue as nat));
    }
    s
}

} // verus!
