//! Ordering records by a text key, as strings compare: character by character.
use vstd::prelude::*;
use crate::decimal::chars_of;

verus! {

broadcast use vstd::seq_lib::group_to_multiset_ensures;

/// `a` sorts before `b`: at the first difference its character is smaller, or it
/// is a proper prefix of `b`.
pub open spec fn text_less(a: Seq<char>, b: Seq<char>) -> bool
    decreases a.len(),
{
    if a.len() == 0 {
        b.len() > 0
    } else if b.len() == 0 {
        false
    } else if a[0] != b[0] {
        (a[0] as u32) < (b[0] as u32)
    } else {
        text_less(a.drop_first(), b.drop_first())
    }
}

pub proof fn lemma_text_less_asymmetric(a: Seq<char>, b: Seq<char>)
    ensures
        text_less(a, b) ==> !text_less(b, a),
    decreases a.len(),
{
    if a.len() > 0 && b.len() > 0 && a[0] == b[0] {
        lemma_text_less_asymmetric(a.drop_first(), b.drop_first());
    }
}

/// Whether `a` may stand right before `b` in the chosen direction.
pub open spec fn in_order(a: Seq<char>, b: Seq<char>, descending: bool) -> bool {
    if descending {
        !text_less(a, b)
    } else {
        !text_less(b, a)
    }
}

/// A record ordered by a text key.
pub trait Keyed {
    spec fn key(&self) -> Seq<char>;

    fn key_text(&self) -> (r: &String)
        ensures
            r@ == self.key(),
    ;
}

pub open spec fn keys_in_order<T: Keyed>(s: Seq<T>, descending: bool) -> bool {
    forall|i: int| 0 <= i < s.len() - 1 ==> in_order(#[trigger] s[i].key(), s[i + 1].key(), descending)
}

/// Whether text `a` sorts before text `b`.
pub fn less_text(a: &String, b: &String) -> (r: bool)
    ensures
        r == text_less(a@, b@),
{
    let x = chars_of(a.as_str());
    let y = chars_of(b.as_str());
    let mut i: usize = 0;
    assert(x@.skip(0) =~= a@);
    assert(y@.skip(0) =~= b@);
    while i < x.len() && i < y.len() && x[i] == y[i]
        invariant
            i <= x@.len(),
            i <= y@.len(),
            text_less(x@.skip(i as int), y@.skip(i as int)) == text_less(a@, b@),
        decreases x@.len() - i,
    {
        assert(x@.skip(i as int).drop_first() =~= x@.skip(i + 1));
        assert(y@.skip(i as int).drop_first() =~= y@.skip(i + 1));
        i = i + 1;
    }
    if i == x.len() {
        i < y.len()
    } else if i == y.len() {
        false
    } else {
        assert(x@.skip(i as int)[0] == x@[i as int]);
        assert(y@.skip(i as int)[0] == y@[i as int]);
        (x[i] as u32) < (y[i] as u32)
    }
}

fn fits_before<T: Keyed>(a: &T, b: &T, descending: bool) -> (r: bool)
    ensures
        r == in_order(a.key(), b.key(), descending),
{
    if descending {
        !less_text(a.key_text(), b.key_text())
    } else {
        !less_text(b.key_text(), a.key_text())
    }
}

/// Sorts records by key, ascending or descending; records with equal keys keep
/// no particular order.
pub fn sort_by_key_text<T: Keyed>(v: Vec<T>, descending: bool) -> (r: Vec<T>)
    ensures
        r@.to_multiset() == v@.to_multiset(),
        r@.len() == v@.len(),
        keys_in_order(r@, descending),
{
    let ghost whole = v@;
    let mut rest = v;
    let mut out: Vec<T> = Vec::new();
    while rest.len() > 0
        invariant
            out@.to_multiset().add(rest@.to_multiset()) == whole.to_multiset(),
            out@.len() + rest@.len() == whole.len(),
            keys_in_order(out@, descending),
        decreases rest@.len(),
    {
        let ghost before = rest@;
        let x = match rest.pop() {
            Some(x) => x,
            None => {
                assert(false);
                return out;
            },
        };
        assert(before =~= rest@.push(x));
        let mut p: usize = 0;
        while p < out.len() && fits_before(&out[p], &x, descending)
            invariant
                p <= out@.len(),
                forall|j: int| 0 <= j < p ==> in_order(#[trigger] out@[j].key(), x.key(), descending),
            decreases out@.len() - p,
        {
            p = p + 1;
        }
        let ghost old_out = out@;
        proof {
            if p < out@.len() {
                lemma_text_less_asymmetric(out@[p as int].key(), x.key());
                lemma_text_less_asymmetric(x.key(), out@[p as int].key());
            }
        }
        out.insert(p, x);
        assert(out@ == old_out.insert(p as int, x));
        assert forall|i: int| 0 <= i < out@.len() - 1 implies in_order(
            #[trigger] out@[i].key(),
            out@[i + 1].key(),
            descending,
        ) by {
            if i < p - 1 {
                assert(out@[i] == old_out[i] && out@[i + 1] == old_out[i + 1]);
            } else if i == p - 1 {
                assert(out@[i] == old_out[i]);
            } else if i == p {
                assert(out@[i + 1] == old_out[i]);
            } else {
                assert(out@[i] == old_out[i - 1] && out@[i + 1] == old_out[i]);
            }
        }
        assert(out@.to_multiset() == old_out.to_multiset().insert(x));
        assert(before.to_multiset() == rest@.to_multiset().insert(x));
        assert(out@.to_multiset().add(rest@.to_multiset()) =~= old_out.to_multiset().add(
            before.to_multiset(),
        ));
    }
    assert(rest@.to_multiset() =~= vstd::multiset::Multiset::empty());
    assert(out@.to_multiset() =~= out@.to_multiset().add(rest@.to_multiset()));
    out
}

} // verus!
