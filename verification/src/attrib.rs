//! The free-form attribute map: attribute name -> attribute value.
//!
//! Keys are unique; inserting an existing key overwrites its value in place,
//! so the most recent insertion wins while the entry keeps its original
//! position.  Rendering emits one ` name="value"` fragment per entry, in
//! entry order, with no escaping of the text.

use crate::numfmt::push_char;
use vstd::prelude::*;

verus! {

/// One entry per key: no two entries share a key.
pub open spec fn keys_distinct(es: Seq<(Seq<char>, Seq<char>)>) -> bool {
    forall|i: int, j: int| 0 <= i < j < es.len() ==> es[i].0 != es[j].0
}

/// The entry sequence after writing `v` under `k`: the first entry whose key
/// is `k` is replaced in place; if no entry has key `k`, a new entry is
/// appended.
pub open spec fn upsert(
    es: Seq<(Seq<char>, Seq<char>)>,
    k: Seq<char>,
    v: Seq<char>,
) -> Seq<(Seq<char>, Seq<char>)>
    decreases es.len(),
{
    if es.len() == 0 {
        seq![(k, v)]
    } else if es[0].0 == k {
        seq![(k, v)] + es.drop_first()
    } else {
        seq![es[0]] + upsert(es.drop_first(), k, v)
    }
}

/// The value stored under `k`: the value of the first entry whose key is `k`.
pub open spec fn key_value(es: Seq<(Seq<char>, Seq<char>)>, k: Seq<char>) -> Option<Seq<char>>
    decreases es.len(),
{
    if es.len() == 0 {
        None
    } else if es[0].0 == k {
        Some(es[0].1)
    } else {
        key_value(es.drop_first(), k)
    }
}

/// How many entries carry the key `k`.
pub open spec fn count_key(es: Seq<(Seq<char>, Seq<char>)>, k: Seq<char>) -> nat
    decreases es.len(),
{
    if es.len() == 0 {
        0
    } else {
        count_key(es.drop_first(), k) + (if es[0].0 == k {
            1nat
        } else {
            0nat
        })
    }
}

/// An insertion-ordered mapping of attribute name to attribute value.
pub struct AttributeMap {
    entries: Vec<(String, String)>,
}

impl View for AttributeMap {
    type V = Seq<(Seq<char>, Seq<char>)>;

    closed spec fn view(&self) -> Seq<(Seq<char>, Seq<char>)> {
        self.entries.deep_view()
    }
}

impl DeepView for AttributeMap {
    type V = Seq<(Seq<char>, Seq<char>)>;

    open spec fn deep_view(&self) -> Seq<(Seq<char>, Seq<char>)> {
        self.view()
    }
}

impl AttributeMap {
    /// Keys are unique.
    pub open spec fn wf(self) -> bool {
        keys_distinct(self@)
    }

    /// The number of entries.
    pub fn len(&self) -> (n: usize)
        ensures
            n == self@.len(),
    {
        self.entries.len()
    }

    /// An empty map.
    pub fn new() -> (m: AttributeMap)
        ensures
            m@ == Seq::<(Seq<char>, Seq<char>)>::empty(),
            m.wf(),
    {
        let m = AttributeMap { entries: Vec::new() };
        proof {
            assert(m@ =~= Seq::<(Seq<char>, Seq<char>)>::empty());
        }
        m
    }

    /// The key of the entry at position `i`.
    pub fn key_at(&self, i: usize) -> (k: &String)
        requires
            i < self@.len(),
        ensures
            k@ == self@[i as int].0,
    {
        &self.entries[i].0
    }

    /// The value of the entry at position `i`.
    pub fn value_at(&self, i: usize) -> (v: &String)
        requires
            i < self@.len(),
        ensures
            v@ == self@[i as int].1,
    {
        &self.entries[i].1
    }

    /// Writes `value` under `key`, overwriting any existing value for `key`.
    pub fn insert(&mut self, key: String, value: String)
        ensures
            final(self)@ == upsert(old(self)@, key@, value@),
            old(self).wf() ==> final(self).wf(),
    {
        let ghost old_es = self@;
        let n = self.entries.len();
        let mut i: usize = 0;
        while i < n
            invariant
                n == self.entries.len(),
                i <= n,
                self@ == old_es,
                self.entries == old(self).entries,
                forall|j: int| 0 <= j < i ==> old_es[j].0 != key@,
            decreases n - i,
        {
            assert(self@[i as int] == (self.entries@[i as int].0@, self.entries@[i as int].1@));
            if self.entries[i].0 == key {
                let _ = self.entries.remove(i);
                self.entries.insert(i, (key, value));
                proof {
                    assert(self@ =~= old_es.update(i as int, (key@, value@)));
                    lemma_upsert_found(old_es, key@, value@, i as int);
                    if keys_distinct(old_es) {
                        assert(keys_distinct(self@));
                    }
                }
                return ;
            }
            i += 1;
        }
        self.entries.push((key, value));
        proof {
            assert(self@ =~= old_es.push((key@, value@)));
            lemma_upsert_missing(old_es, key@, value@);
            if keys_distinct(old_es) {
                assert forall|p: int, q: int| 0 <= p < q < self@.len() implies self@[p].0
                    != self@[q].0 by {
                    if q == self@.len() - 1 {
                        assert(old_es[p].0 != key@);
                    }
                }
            }
        }
    }
}

/// The fragment for one entry as a shape carries it: ` name="value"`,
/// with a leading space.
pub open spec fn attr_text(k: Seq<char>, v: Seq<char>) -> Seq<char> {
    " "@ + k + "=\""@ + v + "\""@
}

/// The rendering of a whole map inside a shape tag: one ` name="value"`
/// fragment per entry, in entry order.
pub open spec fn attribs_text(es: Seq<(Seq<char>, Seq<char>)>) -> Seq<char>
    decreases es.len(),
{
    if es.len() == 0 {
        Seq::<char>::empty()
    } else {
        attr_text(es[0].0, es[0].1) + attribs_text(es.drop_first())
    }
}

/// The fragment for one entry as a group tag carries it: `name="value" `,
/// with a trailing space.
pub open spec fn group_attr_text(k: Seq<char>, v: Seq<char>) -> Seq<char> {
    k + "=\""@ + v + "\" "@
}

/// The rendering of a whole map inside an opening group tag: one
/// `name="value" ` fragment per entry, in entry order.
pub open spec fn group_attribs_text(es: Seq<(Seq<char>, Seq<char>)>) -> Seq<char>
    decreases es.len(),
{
    if es.len() == 0 {
        Seq::<char>::empty()
    } else {
        group_attr_text(es[0].0, es[0].1) + group_attribs_text(es.drop_first())
    }
}

/// Appending an entry extends the rendering by that entry's fragment.
pub proof fn lemma_attribs_text_push(es: Seq<(Seq<char>, Seq<char>)>, k: Seq<char>, v: Seq<char>)
    ensures
        attribs_text(es.push((k, v))) == attribs_text(es) + attr_text(k, v),
    decreases es.len(),
{
    if es.len() == 0 {
        assert(es.push((k, v)).drop_first() =~= es);
        assert(attribs_text(es.push((k, v))) =~= attribs_text(es) + attr_text(k, v));
    } else {
        assert(es.push((k, v)).drop_first() =~= es.drop_first().push((k, v)));
        lemma_attribs_text_push(es.drop_first(), k, v);
        assert(attribs_text(es.push((k, v))) =~= attribs_text(es) + attr_text(k, v));
    }
}

/// Appending an entry extends the group rendering by that entry's fragment.
pub proof fn lemma_group_attribs_text_push(
    es: Seq<(Seq<char>, Seq<char>)>,
    k: Seq<char>,
    v: Seq<char>,
)
    ensures
        group_attribs_text(es.push((k, v))) == group_attribs_text(es) + group_attr_text(k, v),
    decreases es.len(),
{
    if es.len() == 0 {
        assert(es.push((k, v)).drop_first() =~= es);
        assert(group_attribs_text(es.push((k, v))) =~= group_attribs_text(es) + group_attr_text(
            k,
            v,
        ));
    } else {
        assert(es.push((k, v)).drop_first() =~= es.drop_first().push((k, v)));
        lemma_group_attribs_text_push(es.drop_first(), k, v);
        assert(group_attribs_text(es.push((k, v))) =~= group_attribs_text(es) + group_attr_text(
            k,
            v,
        ));
    }
}

/// The rendering splits around any one entry: the text of the entries
/// before it, that entry's own fragment, and the text of the entries after
/// it.
pub proof fn lemma_attribs_text_decompose(es: Seq<(Seq<char>, Seq<char>)>, i: int)
    requires
        0 <= i < es.len(),
    ensures
        attribs_text(es) == attribs_text(es.take(i)) + attr_text(es[i].0, es[i].1) + attribs_text(
            es.skip(i + 1),
        ),
    decreases i,
{
    if i == 0 {
        assert(attribs_text(es.take(0)) =~= Seq::<char>::empty()) by {
            assert(es.take(0) =~= Seq::<(Seq<char>, Seq<char>)>::empty());
        }
        assert(es.skip(1) =~= es.drop_first());
        assert(attribs_text(es) =~= attribs_text(es.take(0)) + attr_text(es[0].0, es[0].1)
            + attribs_text(es.skip(1)));
    } else {
        lemma_attribs_text_decompose(es.drop_first(), i - 1);
        assert(es.drop_first()[i - 1] == es[i]);
        assert(es.take(i).drop_first() =~= es.drop_first().take(i - 1));
        assert(es.take(i)[0] == es[0]);
        assert(es.take(i).len() == i);
        assert(attribs_text(es.take(i)) == attr_text(es[0].0, es[0].1) + attribs_text(
            es.drop_first().take(i - 1),
        ));
        assert(es.skip(i + 1) =~= es.drop_first().skip(i));
        assert(attribs_text(es) =~= attribs_text(es.take(i)) + attr_text(es[i].0, es[i].1)
            + attribs_text(es.skip(i + 1)));
    }
}

/// A key that `key_value` finds has an entry holding that value.
pub proof fn lemma_key_value_index(es: Seq<(Seq<char>, Seq<char>)>, k: Seq<char>)
    requires
        key_value(es, k) is Some,
    ensures
        exists|i: int|
            0 <= i < es.len() && es[i].0 == k && es[i].1 == key_value(es, k).unwrap(),
    decreases es.len(),
{
    if es[0].0 == k {
        assert(es[0].0 == k && es[0].1 == key_value(es, k).unwrap());
    } else {
        lemma_key_value_index(es.drop_first(), k);
        let j = choose|j: int|
            0 <= j < es.drop_first().len() && es.drop_first()[j].0 == k && es.drop_first()[j].1
                == key_value(es.drop_first(), k).unwrap();
        assert(es[j + 1] == es.drop_first()[j]);
        assert(es[j + 1].0 == k && es[j + 1].1 == key_value(es, k).unwrap());
    }
}

/// With distinct keys, an entry holding `k` is the only one counted for `k`.
pub proof fn lemma_count_key_one_at(es: Seq<(Seq<char>, Seq<char>)>, k: Seq<char>, i: int)
    requires
        keys_distinct(es),
        0 <= i < es.len(),
        es[i].0 == k,
    ensures
        count_key(es, k) == 1,
    decreases i,
{
    if i == 0 {
        assert forall|j: int| 0 <= j < es.drop_first().len() implies es.drop_first()[j].0 != k by {
            assert(es.drop_first()[j] == es[j + 1]);
            assert(es[0].0 != es[j + 1].0);
        }
        lemma_count_key_zero(es.drop_first(), k);
    } else {
        assert(keys_distinct(es.drop_first())) by {
            assert forall|p: int, q: int|
                0 <= p < q < es.drop_first().len() implies es.drop_first()[p].0
                != es.drop_first()[q].0 by {
                assert(es.drop_first()[p] == es[p + 1]);
                assert(es.drop_first()[q] == es[q + 1]);
            }
        }
        assert(es.drop_first()[i - 1] == es[i]);
        lemma_count_key_one_at(es.drop_first(), k, i - 1);
        assert(es[0].0 != es[i].0);
    }
}

/// Law: in the rendered text of a map with distinct keys, every present key
/// contributes exactly one ` name="value"` fragment, and it carries the
/// stored value — the one from the most recent insertion under that key.
pub proof fn lemma_rendered_once_per_key(es: Seq<(Seq<char>, Seq<char>)>, k: Seq<char>)
    requires
        keys_distinct(es),
        key_value(es, k) is Some,
    ensures
        count_key(es, k) == 1,
        exists|i: int|
            0 <= i < es.len() && es[i].0 == k && attribs_text(es) == attribs_text(es.take(i))
                + attr_text(k, key_value(es, k).unwrap()) + attribs_text(es.skip(i + 1)),
{
    lemma_key_value_index(es, k);
    let i = choose|i: int|
        0 <= i < es.len() && es[i].0 == k && es[i].1 == key_value(es, k).unwrap();
    lemma_count_key_one_at(es, k, i);
    lemma_attribs_text_decompose(es, i);
    assert(0 <= i < es.len() && es[i].0 == k && attribs_text(es) == attribs_text(es.take(i))
        + attr_text(k, key_value(es, k).unwrap()) + attribs_text(es.skip(i + 1)));
}

/// No entry carries `k`: the count for `k` is zero.
pub proof fn lemma_count_key_zero(es: Seq<(Seq<char>, Seq<char>)>, k: Seq<char>)
    requires
        forall|j: int| 0 <= j < es.len() ==> es[j].0 != k,
    ensures
        count_key(es, k) == 0,
    decreases es.len(),
{
    if es.len() > 0 {
        assert forall|j: int| 0 <= j < es.drop_first().len() implies es.drop_first()[j].0 != k by {
            assert(es.drop_first()[j] == es[j + 1]);
        }
        lemma_count_key_zero(es.drop_first(), k);
    }
}

/// Law: for a map whose keys are distinct, writing a value under a key
/// leaves exactly one entry for that key, holding the most recently written
/// value; every other key's value is unchanged; and the keys stay distinct.
/// Since the rendering emits exactly one fragment per entry, the rendered
/// text then contains exactly one `name="value"` pair for that key.
pub proof fn lemma_upsert_last_write_wins(
    es: Seq<(Seq<char>, Seq<char>)>,
    k: Seq<char>,
    v: Seq<char>,
)
    requires
        keys_distinct(es),
    ensures
        keys_distinct(upsert(es, k, v)),
        key_value(upsert(es, k, v), k) == Some(v),
        count_key(upsert(es, k, v), k) == 1,
        forall|k2: Seq<char>|
            k2 != k ==> key_value(upsert(es, k, v), k2) == key_value(es, k2),
    decreases es.len(),
{
    let r = upsert(es, k, v);
    if es.len() == 0 {
        assert(r == seq![(k, v)]);
        assert(r[0] == (k, v));
        assert(r.drop_first() =~= Seq::<(Seq<char>, Seq<char>)>::empty());
        assert(count_key(r.drop_first(), k) == 0);
        assert(count_key(r, k) == 1);
        assert forall|k2: Seq<char>| k2 != k implies key_value(r, k2) == key_value(es, k2) by {
            assert(key_value(r, k2) == key_value(r.drop_first(), k2));
        }
    } else if es[0].0 == k {
        assert(r == seq![(k, v)] + es.drop_first());
        assert(r.drop_first() =~= es.drop_first());
        assert forall|j: int| 0 <= j < es.drop_first().len() implies es.drop_first()[j].0 != k by {
            assert(es.drop_first()[j] == es[j + 1]);
            assert(es[0].0 != es[j + 1].0);
        }
        lemma_count_key_zero(es.drop_first(), k);
        assert(count_key(r, k) == 1);
        assert forall|p: int, q: int| 0 <= p < q < r.len() implies r[p].0 != r[q].0 by {
            if p == 0 {
                assert(r[q] == es.drop_first()[q - 1]);
            } else {
                assert(r[p] == es[p]);
                assert(r[q] == es[q]);
            }
        }
        assert forall|k2: Seq<char>| k2 != k implies key_value(r, k2) == key_value(es, k2) by {
            assert(key_value(r, k2) == key_value(r.drop_first(), k2));
            assert(key_value(es, k2) == key_value(es.drop_first(), k2));
        }
    } else {
        assert(keys_distinct(es.drop_first())) by {
            assert forall|p: int, q: int|
                0 <= p < q < es.drop_first().len() implies es.drop_first()[p].0
                != es.drop_first()[q].0 by {
                assert(es.drop_first()[p] == es[p + 1]);
                assert(es.drop_first()[q] == es[q + 1]);
            }
        }
        lemma_upsert_last_write_wins(es.drop_first(), k, v);
        assert(r == seq![es[0]] + upsert(es.drop_first(), k, v));
        assert(r.drop_first() =~= upsert(es.drop_first(), k, v));
        assert(count_key(r, k) == 1);
        assert(key_value(r, k) == Some(v));
        // Every key of the updated tail is either `k` or a key of the tail,
        // so the head's key collides with none of them.
        lemma_upsert_keys(es.drop_first(), k, v);
        assert forall|p: int, q: int| 0 <= p < q < r.len() implies r[p].0 != r[q].0 by {
            if p == 0 {
                assert(r[q] == upsert(es.drop_first(), k, v)[q - 1]);
                assert forall|j: int| 0 <= j < es.drop_first().len() implies es.drop_first()[j].0
                    != es[0].0 by {
                    assert(es.drop_first()[j] == es[j + 1]);
                }
            } else {
                assert(r[p] == upsert(es.drop_first(), k, v)[p - 1]);
                assert(r[q] == upsert(es.drop_first(), k, v)[q - 1]);
            }
        }
        assert forall|k2: Seq<char>| k2 != k implies key_value(r, k2) == key_value(es, k2) by {
            if es[0].0 == k2 {
                assert(key_value(r, k2) == Some(r[0].1));
            } else {
                assert(key_value(r, k2) == key_value(r.drop_first(), k2));
                assert(key_value(es, k2) == key_value(es.drop_first(), k2));
            }
        }
    }
}

/// Every key of `upsert(es, k, v)` is `k` or a key of `es`.
pub proof fn lemma_upsert_keys(es: Seq<(Seq<char>, Seq<char>)>, k: Seq<char>, v: Seq<char>)
    ensures
        forall|j: int|
            0 <= j < upsert(es, k, v).len() ==> (upsert(es, k, v)[j].0 == k || exists|i: int|
                0 <= i < es.len() && es[i].0 == #[trigger] upsert(es, k, v)[j].0),
    decreases es.len(),
{
    let r = upsert(es, k, v);
    if es.len() == 0 {
    } else if es[0].0 == k {
        assert forall|j: int| 0 <= j < r.len() implies (r[j].0 == k || exists|i: int|
            0 <= i < es.len() && es[i].0 == r[j].0) by {
            if j > 0 {
                assert(r[j] == es.drop_first()[j - 1]);
                assert(es[j] == r[j]);
            }
        }
    } else {
        lemma_upsert_keys(es.drop_first(), k, v);
        let rt = upsert(es.drop_first(), k, v);
        assert forall|j: int| 0 <= j < r.len() implies (r[j].0 == k || exists|i: int|
            0 <= i < es.len() && es[i].0 == r[j].0) by {
            if j == 0 {
                assert(r[0] == es[0]);
                assert(es[0].0 == r[0].0);
            } else {
                assert(r[j] == rt[j - 1]);
                if rt[j - 1].0 != k {
                    let i = choose|i: int| 0 <= i < es.drop_first().len() && es.drop_first()[i].0
                        == rt[j - 1].0;
                    assert(es[i + 1] == es.drop_first()[i]);
                    assert(es[i + 1].0 == r[j].0);
                }
            }
        }
    }
}

/// The input split at every single space character, as `str::split` splits:
/// consecutive spaces, a leading space or a trailing space give empty
/// tokens, and the empty input gives one empty token.
pub open spec fn split_spaces(s: Seq<char>) -> Seq<Seq<char>>
    decreases s.len(),
{
    if s.len() == 0 {
        seq![Seq::<char>::empty()]
    } else if s[0] == ' ' {
        seq![Seq::<char>::empty()] + split_spaces(s.drop_first())
    } else {
        let rest = split_spaces(s.drop_first());
        seq![seq![s[0]] + rest[0]] + rest.drop_first()
    }
}

/// The split always yields at least one token.
pub proof fn lemma_split_spaces_nonempty(s: Seq<char>)
    ensures
        split_spaces(s).len() >= 1,
    decreases s.len(),
{
    if s.len() > 0 {
        lemma_split_spaces_nonempty(s.drop_first());
    }
}

/// The key/value reading of one token.  Parsing policy: a token without an
/// `'='` carries no attribute and is ignored; otherwise the token is split
/// at its first `'='`, the key being everything before it and the value
/// everything after it (later `'='` characters belong to the value).
pub open spec fn token_pair(t: Seq<char>) -> Option<(Seq<char>, Seq<char>)>
    decreases t.len(),
{
    if t.len() == 0 {
        None
    } else if t[0] == '=' {
        Some((Seq::<char>::empty(), t.drop_first()))
    } else {
        match token_pair(t.drop_first()) {
            None => None,
            Some(p) => Some((seq![t[0]] + p.0, p.1)),
        }
    }
}

/// The map after inserting every attribute-carrying token, in token order.
pub open spec fn insert_tokens(
    m: Seq<(Seq<char>, Seq<char>)>,
    toks: Seq<Seq<char>>,
) -> Seq<(Seq<char>, Seq<char>)>
    decreases toks.len(),
{
    if toks.len() == 0 {
        m
    } else {
        let m2 = match token_pair(toks[0]) {
            None => m,
            Some(p) => upsert(m, p.0, p.1),
        };
        insert_tokens(m2, toks.drop_first())
    }
}

/// The attribute map read out of a free-form attribute string: the string is
/// split on spaces, and each token with an `'='` contributes one entry.
pub open spec fn parse_attribs(s: Seq<char>) -> Seq<(Seq<char>, Seq<char>)> {
    insert_tokens(Seq::<(Seq<char>, Seq<char>)>::empty(), split_spaces(s))
}

/// When the first `'='` of `t` stands at index `i`, the token reads as the
/// key before it and the value after it.
pub proof fn lemma_token_pair_at(t: Seq<char>, i: int)
    requires
        0 <= i < t.len(),
        t[i] == '=',
        forall|j: int| 0 <= j < i ==> t[j] != '=',
    ensures
        token_pair(t) == Some((t.subrange(0, i), t.subrange(i + 1, t.len() as int))),
    decreases i,
{
    if i == 0 {
        assert(t.subrange(0, 0) =~= Seq::<char>::empty());
        assert(t.drop_first() =~= t.subrange(1, t.len() as int));
    } else {
        assert(t[0] != '=');
        assert forall|j: int| 0 <= j < i - 1 implies t.drop_first()[j] != '=' by {
            assert(t.drop_first()[j] == t[j + 1]);
        }
        assert(t.drop_first()[i - 1] == t[i]);
        lemma_token_pair_at(t.drop_first(), i - 1);
        assert(seq![t[0]] + t.drop_first().subrange(0, i - 1) =~= t.subrange(0, i));
        assert(t.drop_first().subrange(i, t.len() - 1) =~= t.subrange(i + 1, t.len() as int));
    }
}

/// A token without an `'='` carries no attribute.
pub proof fn lemma_token_pair_none(t: Seq<char>)
    requires
        forall|j: int| 0 <= j < t.len() ==> t[j] != '=',
    ensures
        token_pair(t) is None,
    decreases t.len(),
{
    if t.len() > 0 {
        assert forall|j: int| 0 <= j < t.drop_first().len() implies t.drop_first()[j] != '=' by {
            assert(t.drop_first()[j] == t[j + 1]);
        }
        lemma_token_pair_none(t.drop_first());
    }
}

/// The input split at every space character, each token an owned string.
fn split_tokens(s: &str) -> (r: Vec<String>)
    ensures
        r.deep_view() == split_spaces(s@),
    decreases s@.len(),
{
    let n = s.unicode_len();
    if n == 0 {
        let mut r: Vec<String> = Vec::new();
        r.push(String::new());
        proof {
            assert(r.deep_view() =~= split_spaces(s@));
        }
        r
    } else {
        let c = s.get_char(0);
        let rest = s.substring_char(1, n);
        proof {
            assert(rest@ =~= s@.drop_first());
        }
        let mut r = split_tokens(rest);
        proof {
            lemma_split_spaces_nonempty(rest@);
            assert(r.deep_view().len() == r@.len());
        }
        if c == ' ' {
            r.insert(0, String::new());
            proof {
                assert(r.deep_view() =~= split_spaces(s@));
            }
            r
        } else {
            let first = r.remove(0);
            proof {
                assert(first@ == split_spaces(rest@)[0]);
            }
            let mut s0 = String::new();
            push_char(&mut s0, c);
            s0.append(first.as_str());
            proof {
                assert(s0@ =~= seq![s@[0]] + split_spaces(s@.drop_first())[0]);
            }
            r.insert(0, s0);
            proof {
                assert(r.deep_view() =~= split_spaces(s@));
            }
            r
        }
    }
}

/// The key and value of one token, if it carries an attribute: the token is
/// split at its first `'='`; without an `'='` it carries none.
fn token_entry(t: &str) -> (r: Option<(String, String)>)
    ensures
        match r {
            None => token_pair(t@) is None,
            Some(kv) => token_pair(t@) == Some((kv.0@, kv.1@)),
        },
{
    let n = t.unicode_len();
    let mut i: usize = 0;
    while i < n
        invariant
            i <= n,
            n == t@.len(),
            forall|j: int| 0 <= j < i ==> t@[j] != '=',
        decreases n - i,
    {
        if t.get_char(i) == '=' {
            let key = t.substring_char(0, i);
            let val = t.substring_char(i + 1, n);
            proof {
                lemma_token_pair_at(t@, i as int);
            }
            return Some((key.to_owned(), val.to_owned()));
        }
        i += 1;
    }
    proof {
        lemma_token_pair_none(t@);
    }
    None
}

/// The attribute map read out of a free-form attribute string: space-separated
/// `key=value` tokens, split at the first `'='` of each; tokens without an
/// `'='` are ignored; a repeated key keeps the value of its last token.
pub fn make_attribs(attribs: &str) -> (m: AttributeMap)
    ensures
        m@ == parse_attribs(attribs@),
        m.wf(),
{
    let tokens = split_tokens(attribs);
    let ghost toks = split_spaces(attribs@);
    let mut m = AttributeMap::new();
    let n = tokens.len();
    let mut i: usize = 0;
    proof {
        assert(toks.skip(0) =~= toks);
    }
    while i < n
        invariant
            i <= n,
            n == tokens.len(),
            tokens.deep_view() == toks,
            m.wf(),
            insert_tokens(m@, toks.skip(i as int)) == parse_attribs(attribs@),
        decreases n - i,
    {
        let ghost pre = m@;
        let ghost tk = toks.skip(i as int);
        proof {
            assert(tk.len() > 0);
            assert(tk[0] == toks[i as int]);
            assert(tk.drop_first() =~= toks.skip(i as int + 1));
            assert(toks[i as int] == tokens@[i as int]@);
        }
        match token_entry(tokens[i].as_str()) {
            Some(kv) => {
                m.insert(kv.0, kv.1);
            },
            None => {},
        }
        proof {
            assert(insert_tokens(m@, toks.skip(i as int + 1)) == parse_attribs(attribs@));
        }
        i += 1;
    }
    proof {
        assert(toks.skip(n as int) =~= Seq::<Seq<char>>::empty());
    }
    m
}

/// When the first entry with key `k` stands at index `i`, writing under `k`
/// replaces exactly that entry.
pub proof fn lemma_upsert_found(es: Seq<(Seq<char>, Seq<char>)>, k: Seq<char>, v: Seq<char>, i: int)
    requires
        0 <= i < es.len(),
        es[i].0 == k,
        forall|j: int| 0 <= j < i ==> es[j].0 != k,
    ensures
        upsert(es, k, v) == es.update(i, (k, v)),
    decreases i,
{
    if i == 0 {
        assert(upsert(es, k, v) =~= es.update(0, (k, v)));
    } else {
        assert(es[0].0 != k);
        assert forall|j: int| 0 <= j < i - 1 implies es.drop_first()[j].0 != k by {
            assert(es.drop_first()[j] == es[j + 1]);
        }
        lemma_upsert_found(es.drop_first(), k, v, i - 1);
        assert(upsert(es, k, v) =~= es.update(i, (k, v)));
    }
}

/// When no entry has key `k`, writing under `k` appends a new entry.
pub proof fn lemma_upsert_missing(es: Seq<(Seq<char>, Seq<char>)>, k: Seq<char>, v: Seq<char>)
    requires
        forall|j: int| 0 <= j < es.len() ==> es[j].0 != k,
    ensures
        upsert(es, k, v) == es.push((k, v)),
    decreases es.len(),
{
    if es.len() == 0 {
        assert(upsert(es, k, v) =~= es.push((k, v)));
    } else {
        assert forall|j: int| 0 <= j < es.drop_first().len() implies es.drop_first()[j].0 != k by {
            assert(es.drop_first()[j] == es[j + 1]);
        }
        lemma_upsert_missing(es.drop_first(), k, v);
        assert(upsert(es, k, v) =~= es.push((k, v)));
    }
}

} // verus!
