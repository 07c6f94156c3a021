//! The transform accumulator: builds one composite `transform="..."`
//! attribute out of an ordered sequence of operation fragments.
//!
//! Operations are kept in call order; geometric transform composition is not
//! commutative, so callers supply operations in their intended application
//! order.

use crate::numfmt::dec_int;
use crate::numfmt::i32_to_string;
use vstd::prelude::*;

verus! {

/// The fragment of one translate operation: `translate(x, y)`.
pub open spec fn translate_text(x: int, y: int) -> Seq<char> {
    "translate("@ + dec_int(x) + ", "@ + dec_int(y) + ")"@
}

/// The fragment of one rotate operation: `rotate(angle)`.
pub open spec fn rotate_text(angle: int) -> Seq<char> {
    "rotate("@ + dec_int(angle) + ")"@
}

/// The fragment of one horizontal skew operation: `skewX(factor)`.
pub open spec fn skew_x_text(factor: int) -> Seq<char> {
    "skewX("@ + dec_int(factor) + ")"@
}

/// The fragment of one vertical skew operation: `skewY(factor)`.
pub open spec fn skew_y_text(factor: int) -> Seq<char> {
    "skewY("@ + dec_int(factor) + ")"@
}

/// The fragment of one scale operation: `scale(sx, sy)`.
pub open spec fn scale_text(sx: int, sy: int) -> Seq<char> {
    "scale("@ + dec_int(sx) + ", "@ + dec_int(sy) + ")"@
}

/// The operation fragments joined with a single space between neighbours.
pub open spec fn join_space(ops: Seq<Seq<char>>) -> Seq<char>
    decreases ops.len(),
{
    if ops.len() == 0 {
        Seq::<char>::empty()
    } else if ops.len() == 1 {
        ops[0]
    } else {
        ops[0] + seq![' '] + join_space(ops.drop_first())
    }
}

/// The full composite attribute: `transform="op1 op2 ..."`; with no
/// operations the attribute value is empty.
pub open spec fn transform_text(ops: Seq<Seq<char>>) -> Seq<char> {
    "transform=\""@ + join_space(ops) + "\""@
}

/// The part a shape fragment carries for its optional transform: a space and
/// the composite attribute, or nothing.
pub open spec fn transform_part(t: Option<Seq<Seq<char>>>) -> Seq<char> {
    match t {
        Some(ops) => " "@ + transform_text(ops),
        None => Seq::<char>::empty(),
    }
}

/// Law: appending an operation extends the joined text by exactly one space
/// and that operation's fragment (no space when it is the first operation).
/// So the composite attribute holds every appended fragment, in append
/// order, with exactly one space between neighbouring fragments.
pub proof fn lemma_join_space_push(ops: Seq<Seq<char>>, op: Seq<char>)
    ensures
        join_space(ops.push(op)) == if ops.len() == 0 {
            op
        } else {
            join_space(ops) + seq![' '] + op
        },
    decreases ops.len(),
{
    if ops.len() == 0 {
        assert(ops.push(op)[0] =~= op);
    } else if ops.len() == 1 {
        assert(ops.push(op).drop_first() =~= seq![op]);
        assert(join_space(seq![op]) == seq![op][0]);
        assert(ops.push(op)[0] == ops[0]);
        assert(join_space(ops.push(op)) =~= join_space(ops) + seq![' '] + op);
    } else {
        assert(ops.push(op).drop_first() =~= ops.drop_first().push(op));
        lemma_join_space_push(ops.drop_first(), op);
        assert(join_space(ops.push(op)) =~= join_space(ops) + seq![' '] + op);
    }
}

/// One composite transform, accumulated operation by operation.
pub struct Transform {
    ops: Vec<String>,
}

impl View for Transform {
    type V = Seq<Seq<char>>;

    closed spec fn view(&self) -> Seq<Seq<char>> {
        self.ops.deep_view()
    }
}

impl DeepView for Transform {
    type V = Seq<Seq<char>>;

    open spec fn deep_view(&self) -> Seq<Seq<char>> {
        self.view()
    }
}

impl Transform {
    /// An accumulator with no operations yet.
    pub fn new() -> (t: Transform)
        ensures
            t@ == Seq::<Seq<char>>::empty(),
    {
        let t = Transform { ops: Vec::new() };
        proof {
            assert(t@ =~= Seq::<Seq<char>>::empty());
        }
        t
    }

    /// Appends one already-rendered operation fragment.
    fn insert(&mut self, tr: String)
        ensures
            final(self)@ == old(self)@.push(tr@),
    {
        self.ops.push(tr);
        proof {
            assert(self@ =~= old(self)@.push(tr@));
        }
    }

    /// Appends a translate operation.
    pub fn translate(&mut self, x: i32, y: i32)
        ensures
            final(self)@ == old(self)@.push(translate_text(x as int, y as int)),
    {
        self.insert(translate(x, y))
    }

    /// Appends a rotate operation.
    pub fn rotate(&mut self, angle: i32)
        ensures
            final(self)@ == old(self)@.push(rotate_text(angle as int)),
    {
        self.insert(rotate(angle))
    }

    /// Appends a horizontal skew operation.
    pub fn skew_x(&mut self, factor: i32)
        ensures
            final(self)@ == old(self)@.push(skew_x_text(factor as int)),
    {
        self.insert(skew_x(factor))
    }

    /// Appends a vertical skew operation.
    pub fn skew_y(&mut self, factor: i32)
        ensures
            final(self)@ == old(self)@.push(skew_y_text(factor as int)),
    {
        self.insert(skew_y(factor))
    }

    /// Appends a scale operation.
    pub fn scale(&mut self, x_scale: i32, y_scale: i32)
        ensures
            final(self)@ == old(self)@.push(scale_text(x_scale as int, y_scale as int)),
    {
        self.insert(scale(x_scale, y_scale))
    }

    /// The full composite attribute text for embedding in a tag.
    pub fn get(&self) -> (r: String)
        ensures
            r@ == transform_text(self@),
    {
        let mut s = String::from_str("transform=\"");
        let n = self.ops.len();
        let mut i: usize = 0;
        proof {
            assert(self@.take(0) =~= Seq::<Seq<char>>::empty());
        }
        while i < n
            invariant
                i <= n,
                n == self.ops.len(),
                s@ == "transform=\""@ + join_space(self@.take(i as int)),
            decreases n - i,
        {
            if i > 0 {
                s.append(" ");
            }
            s.append(self.ops[i].as_str());
            proof {
                assert(self@[i as int] == self.ops@[i as int]@);
                assert(self@.take(i as int).push(self@[i as int]) =~= self@.take(i as int + 1));
                lemma_join_space_push(self@.take(i as int), self@[i as int]);
                assert(" "@ =~= seq![' ']) by {
                    reveal_strlit(" ");
                }
            }
            i += 1;
        }
        s.append("\"");
        proof {
            assert(self@.take(n as int) =~= self@);
        }
        s
    }
}

/// The rendered fragment of a single translate operation.
pub fn translate(x: i32, y: i32) -> (r: String)
    ensures
        r@ == translate_text(x as int, y as int),
{
    let mut s = String::from_str("translate(");
    let tx = i32_to_string(x);
    s.append(tx.as_str());
    s.append(", ");
    let ty = i32_to_string(y);
    s.append(ty.as_str());
    s.append(")");
    proof {
        assert(s@ =~= translate_text(x as int, y as int));
    }
    s
}

/// The rendered fragment of a single rotate operation.
pub fn rotate(angle: i32) -> (r: String)
    ensures
        r@ == rotate_text(angle as int),
{
    let mut s = String::from_str("rotate(");
    let ta = i32_to_string(angle);
    s.append(ta.as_str());
    s.append(")");
    proof {
        assert(s@ =~= rotate_text(angle as int));
    }
    s
}

/// The rendered fragment of a single horizontal skew operation.
pub fn skew_x(factor: i32) -> (r: String)
    ensures
        r@ == skew_x_text(factor as int),
{
    let mut s = String::from_str("skewX(");
    let tf = i32_to_string(factor);
    s.append(tf.as_str());
    s.append(")");
    proof {
        assert(s@ =~= skew_x_text(factor as int));
    }
    s
}

/// The rendered fragment of a single vertical skew operation.
pub fn skew_y(factor: i32) -> (r: String)
    ensures
        r@ == skew_y_text(factor as int),
{
    let mut s = String::from_str("skewY(");
    let tf = i32_to_string(factor);
    s.append(tf.as_str());
    s.append(")");
    proof {
        assert(s@ =~= skew_y_text(factor as int));
    }
    s
}

/// The rendered fragment of a single scale operation.
pub fn scale(x_scale: i32, y_scale: i32) -> (r: String)
    ensures
        r@ == scale_text(x_scale as int, y_scale as int),
{
    let mut s = String::from_str("scale(");
    let tx = i32_to_string(x_scale);
    s.append(tx.as_str());
    s.append(", ");
    let ty = i32_to_string(y_scale);
    s.append(ty.as_str());
    s.append(")");
    proof {
        assert(s@ =~= scale_text(x_scale as int, y_scale as int));
    }
    s
}

} // verus!
