//! Ordering strings as `String`'s `Ord` does (by code point, which for UTF-8
//! is byte order), and sorting lists of named entries by name.
use vstd::prelude::*;
use crate::text::chars_of;

verus! {

/// `a` comes before `b` or equals it in lexicographic order of code points.
pub open spec fn lex_le(a: Seq<char>, b: Seq<char>) -> bool
    decreases a.len(),
{
    if a.len() == 0 {
        true
    } else if b.len() == 0 {
        false
    } else if a[0] != b[0] {
        (a[0] as u32) < (b[0] as u32)
    } else {
        lex_le(a.drop_first(), b.drop_first())
    }
}

/// Any two strings are ordered one way or the other.
pub proof fn lemma_lex_total(a: Seq<char>, b: Seq<char>)
    ensures
        lex_le(a, b) || lex_le(b, a),
    decreases a.len(),
{
    if a.len() > 0 && b.len() > 0 {
        if a[0] == b[0] {
            lemma_lex_total(a.drop_first(), b.drop_first());
        } else {
            vstd::utf8::char_u32_cast(a[0], a[0] as u32);
            vstd::utf8::char_u32_cast(b[0], b[0] as u32);
        }
    }
}

/// The order is transitive.
pub proof fn lemma_lex_transitive(a: Seq<char>, b: Seq<char>, c: Seq<char>)
    requires
        lex_le(a, b),
        lex_le(b, c),
    ensures
        lex_le(a, c),
    decreases a.len(),
{
    if a.len() > 0 && b.len() > 0 && c.len() > 0 && a[0] == b[0] && b[0] == c[0] {
        lemma_lex_transitive(a.drop_first(), b.drop_first(), c.drop_first());
    }
}

/// Whether `a` comes before `b` or equals it.
pub fn lex_le_chars(a: &[char], b: &[char]) -> (r: bool)
    ensures
        r == lex_le(a@, b@),
{
    let mut i: usize = 0;
    assert(a@.subrange(0, a@.len() as int) =~= a@);
    assert(b@.subrange(0, b@.len() as int) =~= b@);
    while i < a.len() && i < b.len() && a[i] == b[i]
        invariant
            i <= a@.len(),
            i <= b@.len(),
            lex_le(a@, b@) == lex_le(a@.subrange(i as int, a@.len() as int), b@.subrange(i as int, b@.len() as int)),
        decreases a@.len() - i,
    {
        let ghost x = a@.subrange(i as int, a@.len() as int);
        let ghost y = b@.subrange(i as int, b@.len() as int);
        assert(x.drop_first() =~= a@.subrange(i + 1, a@.len() as int));
        assert(y.drop_first() =~= b@.subrange(i + 1, b@.len() as int));
        i = i + 1;
    }
    let ghost x = a@.subrange(i as int, a@.len() as int);
    let ghost y = b@.subrange(i as int, b@.len() as int);
    if i == a.len() {
        assert(x.len() == 0);
        true
    } else if i == b.len() {
        assert(y.len() == 0);
        false
    } else {
        assert(x[0] == a@[i as int] && y[0] == b@[i as int]);
        (a[i] as u32) < (b[i] as u32)
    }
}

/// The names of a list of entries.
pub open spec fn keys(v: Seq<(String, String)>) -> Seq<Seq<char>> {
    Seq::new(v.len(), |i: int| v[i].0@)
}

/// The entries are in order of their names.
pub open spec fn sorted_by_key(v: Seq<(String, String)>) -> bool {
    forall|i: int, j: int| 0 <= i < j < v.len() ==> lex_le(#[trigger] v[i].0@, #[trigger] v[j].0@)
}

/// The entries as plain values.
pub open spec fn entry_values(v: Seq<(String, String)>) -> Seq<(Seq<char>, Seq<char>)> {
    Seq::new(v.len(), |i: int| (v[i].0@, v[i].1@))
}

/// Sorts entries by name (a stable insertion sort): the result is in order
/// and holds the same entries.
pub fn sort_by_key(v: &[(String, String)]) -> (r: Vec<(String, String)>)
    ensures
        sorted_by_key(r@),
        entry_values(r@).to_multiset() == entry_values(v@).to_multiset(),
        r@.len() == v@.len(),
{
    let mut out: Vec<(String, String)> = Vec::new();
    let ghost all = entry_values(v@);
    let mut k: usize = 0;
    assert(entry_values(out@) =~= Seq::<(Seq<char>, Seq<char>)>::empty());
    assert(all.take(0) =~= Seq::<(Seq<char>, Seq<char>)>::empty());
    while k < v.len()
        invariant
            k <= v@.len(),
            all == entry_values(v@),
            sorted_by_key(out@),
            out@.len() == k,
            entry_values(out@).to_multiset() == all.take(k as int).to_multiset(),
        decreases v@.len() - k,
    {
        let e = (v[k].0.clone(), v[k].1.clone());
        let key = chars_of(e.0.as_str());
        let mut p: usize = 0;
        while p < out.len() && lex_le_chars(&chars_of(out[p].0.as_str()), &key)
            invariant
                p <= out@.len(),
                key@ == e.0@,
                forall|i: int| 0 <= i < p ==> lex_le((#[trigger] out@[i]).0@, e.0@),
            decreases out@.len() - p,
        {
            p = p + 1;
        }
        let ghost old_out = out@;
        proof {
            assert forall|i: int, j: int| 0 <= i < j < old_out.len() + 1 implies lex_le(
                #[trigger] old_out.insert(p as int, e)[i].0@,
                #[trigger] old_out.insert(p as int, e)[j].0@,
            ) by {
                let ins = old_out.insert(p as int, e);
                if j < p {
                    assert(ins[i] == old_out[i] && ins[j] == old_out[j]);
                } else if j == p {
                    assert(ins[i] == old_out[i]);
                } else if i == p {
                    assert(ins[j] == old_out[j - 1]);
                    assert(!lex_le(old_out[p as int].0@, e.0@));
                    lemma_lex_total(old_out[p as int].0@, e.0@);
                    if j - 1 > p {
                        lemma_lex_transitive(e.0@, old_out[p as int].0@, old_out[j - 1].0@);
                    }
                } else if i < p {
                    assert(ins[i] == old_out[i] && ins[j] == old_out[j - 1]);
                } else {
                    assert(ins[i] == old_out[i - 1] && ins[j] == old_out[j - 1]);
                }
            }
        }
        out.insert(p, e);
        proof {
            assert(entry_values(out@) =~= entry_values(old_out).insert(p as int, (e.0@, e.1@)));
            vstd::seq_lib::to_multiset_insert(entry_values(old_out), p as int, (e.0@, e.1@));
            assert(all.take(k + 1) =~= all.take(k as int).push((e.0@, e.1@)));
            vstd::seq_lib::to_multiset_build(all.take(k as int), (e.0@, e.1@));
        }
        k = k + 1;
    }
    assert(all.take(v@.len() as int) =~= all);
    out
}

/// The strings of a list as character sequences.
pub open spec fn name_values(v: Seq<String>) -> Seq<Seq<char>> {
    Seq::new(v.len(), |i: int| v[i]@)
}

/// Names sorted (a stable insertion sort): the result is in order and holds
/// the same names.
pub fn sort_names(v: &[String]) -> (r: Vec<String>)
    ensures
        forall|i: int, j: int| 0 <= i < j < r@.len() ==> lex_le(#[trigger] r@[i]@, #[trigger] r@[j]@),
        name_values(r@).to_multiset() == name_values(v@).to_multiset(),
        r@.len() == v@.len(),
{
    let mut out: Vec<String> = Vec::new();
    let ghost all = name_values(v@);
    let mut k: usize = 0;
    assert(name_values(out@) =~= Seq::<Seq<char>>::empty());
    assert(all.take(0) =~= Seq::<Seq<char>>::empty());
    while k < v.len()
        invariant
            k <= v@.len(),
            all == name_values(v@),
            forall|i: int, j: int| 0 <= i < j < out@.len() ==> lex_le(#[trigger] out@[i]@, #[trigger] out@[j]@),
            out@.len() == k,
            name_values(out@).to_multiset() == all.take(k as int).to_multiset(),
        decreases v@.len() - k,
    {
        let e = v[k].clone();
        let key = chars_of(e.as_str());
        let mut p: usize = 0;
        while p < out.len() && lex_le_chars(&chars_of(out[p].as_str()), &key)
            invariant
                p <= out@.len(),
                key@ == e@,
                forall|i: int| 0 <= i < p ==> lex_le((#[trigger] out@[i])@, e@),
            decreases out@.len() - p,
        {
            p = p + 1;
        }
        let ghost old_out = out@;
        proof {
            assert forall|i: int, j: int| 0 <= i < j < old_out.len() + 1 implies lex_le(
                #[trigger] old_out.insert(p as int, e)[i]@,
                #[trigger] old_out.insert(p as int, e)[j]@,
            ) by {
                let ins = old_out.insert(p as int, e);
                if j < p {
                    assert(ins[i] == old_out[i] && ins[j] == old_out[j]);
                } else if j == p {
                    assert(ins[i] == old_out[i]);
                } else if i == p {
                    assert(ins[j] == old_out[j - 1]);
                    assert(!lex_le(old_out[p as int]@, e@));
                    lemma_lex_total(old_out[p as int]@, e@);
                    if j - 1 > p {
                        lemma_lex_transitive(e@, old_out[p as int]@, old_out[j - 1]@);
                    }
                } else if i < p {
                    assert(ins[i] == old_out[i] && ins[j] == old_out[j - 1]);
                } else {
                    assert(ins[i] == old_out[i - 1] && ins[j] == old_out[j - 1]);
                }
            }
        }
        out.insert(p, e);
        proof {
            assert(name_values(out@) =~= name_values(old_out).insert(p as int, e@));
            vstd::seq_lib::to_multiset_insert(name_values(old_out), p as int, e@);
            assert(all.take(k + 1) =~= all.take(k as int).push(e@));
            vstd::seq_lib::to_multiset_build(all.take(k as int), e@);
        }
        k = k + 1;
    }
    assert(all.take(v@.len() as int) =~= all);
    out
}

} // verus!
