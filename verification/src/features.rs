//! The analyzer's feature strings: comma-separated fields, of which the first
//! is the part of speech, the second its sub-detail and the seventh the base
//! form of the word.

use vstd::prelude::*;
use crate::text::{chars_of, string_of};

verus! {

/// The fields of `s` between its commas, in order.
///
/// Read from the left, a comma closes the field before it and opens an empty
/// one; any other character extends the field that is open. So a text without
/// a comma is one field, and the empty text is one empty field.
pub open spec fn fields(s: Seq<char>) -> Seq<Seq<char>>
    decreases s.len(),
{
    if s.len() == 0 {
        seq![Seq::empty()]
    } else {
        let before = fields(s.drop_last());
        if s.last() == ',' {
            before.push(Seq::empty())
        } else {
            before.drop_last().push(before.last().push(s.last()))
        }
    }
}

/// No character of `s` is a comma.
pub open spec fn comma_free(s: Seq<char>) -> bool {
    forall|i: int| 0 <= i < s.len() ==> #[trigger] s[i] != ','
}

/// How many leading fields a feature string must have, none of them empty.
pub const FEATURE_FIELDS: usize = 7;

/// The position of the base form among the fields.
pub const BASE_FORM_FIELD: usize = 6;

/// Whether `s` has the shape of a feature string: at least seven fields, the
/// first seven of them not empty.
pub open spec fn well_formed(s: Seq<char>) -> bool {
    &&& fields(s).len() >= FEATURE_FIELDS
    &&& forall|k: int| 0 <= k < FEATURE_FIELDS ==> (#[trigger] fields(s)[k]).len() > 0
}

/// The category string of a feature string, `pos,detail`, and its base form.
pub open spec fn simplified(s: Seq<char>) -> Option<(Seq<char>, Seq<char>)> {
    if well_formed(s) {
        Some((fields(s)[0].push(',') + fields(s)[1], fields(s)[BASE_FORM_FIELD as int]))
    } else {
        None
    }
}

/// The bounds `(from, to)` in `s` of each field that `bounds` lists.
pub open spec fn cut(s: Seq<char>, bounds: Seq<(usize, usize)>) -> Seq<Seq<char>> {
    Seq::new(bounds.len(), |k: int| s.subrange(bounds[k].0 as int, bounds[k].1 as int))
}

/// The bounds tile `s`: the first field begins where `s` begins, each
/// further one begins behind the comma that closed the one before, and the
/// last ends where `s` ends.
pub open spec fn tiles(s: Seq<char>, bounds: Seq<(usize, usize)>) -> bool {
    &&& bounds.len() >= 1
    &&& bounds[0].0 == 0
    &&& bounds.last().1 == s.len()
    &&& forall|k: int| 0 <= k < bounds.len() ==> (#[trigger] bounds[k]).0 <= bounds[k].1 <= s.len()
    &&& forall|k: int| 0 <= k < bounds.len() - 1 ==> (#[trigger] bounds[k + 1]).0 == bounds[k].1 + 1
}

/// Where each field of `v` begins and ends.
pub fn field_bounds(v: &Vec<char>) -> (bounds: Vec<(usize, usize)>)
    ensures
        bounds@.len() == fields(v@).len(),
        tiles(v@, bounds@),
        cut(v@, bounds@) == fields(v@),
{
    let mut done: Vec<(usize, usize)> = Vec::new();
    let mut start: usize = 0;
    let mut i: usize = 0;
    assert(v@.take(0).len() == 0);
    assert(cut(v@, done@).push(v@.subrange(0, 0)) =~~= fields(v@.take(0)));
    while i < v.len()
        invariant
            start <= i <= v.len(),
            forall|k: int| 0 <= k < done@.len() ==> (#[trigger] done@[k]).0 <= done@[k].1 < start,
            done@.len() == 0 ==> start == 0,
            done@.len() > 0 ==> done@[0].0 == 0 && start == done@.last().1 + 1,
            forall|k: int| 0 <= k < done@.len() - 1 ==> (#[trigger] done@[k + 1]).0 == done@[k].1 + 1,
            cut(v@, done@).push(v@.subrange(start as int, i as int)) == fields(v@.take(i as int)),
        decreases v.len() - i,
    {
        let ghost open = v@.subrange(start as int, i as int);
        let ghost closed = cut(v@, done@);
        let ghost next = v@.take(i + 1);
        proof {
            assert(next.drop_last() == v@.take(i as int));
            assert(next.last() == v@[i as int]);
            assert(closed.push(open).drop_last() == closed);
            assert(closed.push(open).last() == open);
        }
        if v[i] == ',' {
            done.push((start, i));
            start = i + 1;
            proof {
                assert(cut(v@, done@) == closed.push(open));
                assert(v@.subrange(start as int, i + 1) == Seq::<char>::empty());
            }
        } else {
            proof {
                assert(v@.subrange(start as int, i + 1) == open.push(v@[i as int]));
            }
        }
        i += 1;
    }
    proof {
        assert(v@.take(v.len() as int) == v@);
        assert(cut(v@, done@.push((start, i))) == cut(v@, done@).push(
            v@.subrange(start as int, i as int),
        ));
    }
    done.push((start, i));
    done
}

/// Reads a feature string: its category string `pos,detail` and its base
/// form, in this order, or `None` where the string has not the shape of one.
pub fn simplify_features(s: &str) -> (parts: Option<(String, String)>)
    ensures
        match parts {
            Some((category, base)) => simplified(s@) == Some((category@, base@)),
            None => simplified(s@) is None,
        },
{
    let v = chars_of(s);
    let bounds = field_bounds(&v);
    if bounds.len() < FEATURE_FIELDS {
        return None;
    }
    let mut k: usize = 0;
    while k < FEATURE_FIELDS
        invariant
            k <= FEATURE_FIELDS <= bounds@.len(),
            cut(v@, bounds@) == fields(v@),
            forall|j: int|
                0 <= j < bounds@.len() ==> (#[trigger] bounds@[j]).0 <= bounds@[j].1 <= v@.len(),
            v@ == s@,
            forall|j: int| 0 <= j < k ==> (#[trigger] fields(s@)[j]).len() > 0,
        decreases FEATURE_FIELDS - k,
    {
        let (from, to) = bounds[k];
        assert(cut(v@, bounds@)[k as int] == v@.subrange(from as int, to as int));
        if from == to {
            assert(fields(s@)[k as int].len() == 0);
            return None;
        }
        k += 1;
    }
    let (pos_from, pos_to) = bounds[0];
    let (detail_from, detail_to) = bounds[1];
    let (base_from, base_to) = bounds[BASE_FORM_FIELD];
    proof {
        assert(cut(v@, bounds@)[0] == v@.subrange(pos_from as int, pos_to as int));
        assert(cut(v@, bounds@)[1] == v@.subrange(detail_from as int, detail_to as int));
        assert(cut(v@, bounds@)[BASE_FORM_FIELD as int] == v@.subrange(
            base_from as int,
            base_to as int,
        ));
    }
    let mut category = string_of(&v, pos_from, pos_to);
    category.push(',');
    let detail = string_of(&v, detail_from, detail_to);
    category.append(detail.as_str());
    let base = string_of(&v, base_from, base_to);
    Some((category, base))
}

/// A split text always has a first field.
pub proof fn lemma_fields_len(s: Seq<char>)
    ensures
        fields(s).len() >= 1,
    decreases s.len(),
{
    if s.len() > 0 {
        lemma_fields_len(s.drop_last());
    }
}

/// No field holds a comma.
pub proof fn lemma_fields_comma_free(s: Seq<char>)
    ensures
        forall|k: int| 0 <= k < fields(s).len() ==> comma_free(#[trigger] fields(s)[k]),
    decreases s.len(),
{
    lemma_fields_len(s);
    if s.len() > 0 {
        lemma_fields_comma_free(s.drop_last());
        lemma_fields_len(s.drop_last());
        let before = fields(s.drop_last());
        assert forall|k: int| 0 <= k < fields(s).len() implies comma_free(
            #[trigger] fields(s)[k],
        ) by {
            if k < before.len() - 1 {
                assert(fields(s)[k] == before[k]);
            } else if k == before.len() - 1 {
                assert(comma_free(before[k]));
            }
        }
    }
}

/// Splitting `x`, a comma and `y` gives the fields of `x` followed by those
/// of `y`.
pub proof fn lemma_fields_join(x: Seq<char>, y: Seq<char>)
    ensures
        fields(x.push(',') + y) == fields(x) + fields(y),
    decreases y.len(),
{
    let joined = x.push(',') + y;
    lemma_fields_len(y);
    if y.len() == 0 {
        assert(joined == x.push(','));
        assert(joined.drop_last() == x);
        assert(fields(joined) =~= fields(x) + fields(y));
    } else {
        let shorter = y.drop_last();
        lemma_fields_join(x, shorter);
        lemma_fields_len(shorter);
        assert(joined.drop_last() == x.push(',') + shorter);
        assert(joined.last() == y.last());
        assert(fields(joined) =~= fields(x) + fields(y));
    }
}

/// A text without a comma is its own single field.
pub proof fn lemma_fields_single(s: Seq<char>)
    requires
        comma_free(s),
    ensures
        fields(s) == seq![s],
    decreases s.len(),
{
    if s.len() == 0 {
        assert(s == Seq::<char>::empty());
    } else {
        lemma_fields_single(s.drop_last());
        assert(s.drop_last().push(s.last()) == s);
        assert(fields(s) =~= seq![s]);
    }
}

/// The category string of a well-formed feature string splits back into the
/// part of speech and the sub-detail it was made of.
pub proof fn lemma_category_fields(s: Seq<char>)
    requires
        well_formed(s),
    ensures
        fields(simplified(s).unwrap().0) == seq![fields(s)[0], fields(s)[1]],
{
    let pos = fields(s)[0];
    let detail = fields(s)[1];
    lemma_fields_comma_free(s);
    lemma_fields_join(pos, detail);
    lemma_fields_single(pos);
    lemma_fields_single(detail);
    assert(seq![pos] + seq![detail] =~= seq![pos, detail]);
}

} // verus!
