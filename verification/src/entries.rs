//! Named entries of vector property values: their order, sorting and text.
//!
//! A vector value (switches, texts or numbers) is shown as `name=value`
//! entries joined by commas, in ascending order of the names.
use vstd::prelude::*;

use crate::strings::{append, owned, push_char, to_chars};

verus! {

/// An entry as the specification sees it: a name and a value text.
pub type EntryText = (Seq<char>, Seq<char>);

/// Code-point lexicographic order on character sequences; this is the order
/// of `str`, whose comparison of UTF-8 bytes agrees with code-point order.
pub open spec fn chars_lt(a: Seq<char>, b: Seq<char>) -> bool
    decreases a.len(),
{
    if b.len() == 0 {
        false
    } else if a.len() == 0 {
        true
    } else if a[0] != b[0] {
        a[0] < b[0]
    } else {
        chars_lt(a.drop_first(), b.drop_first())
    }
}

/// No sequence is below itself.
pub proof fn lemma_chars_lt_irreflexive(a: Seq<char>)
    ensures
        !chars_lt(a, a),
    decreases a.len(),
{
    if a.len() > 0 {
        lemma_chars_lt_irreflexive(a.drop_first());
    }
}

/// The order is transitive.
pub proof fn lemma_chars_lt_transitive(a: Seq<char>, b: Seq<char>, c: Seq<char>)
    requires
        chars_lt(a, b),
        chars_lt(b, c),
    ensures
        chars_lt(a, c),
    decreases a.len(),
{
    if a.len() > 0 && b.len() > 0 && c.len() > 0 && a[0] == b[0] && b[0] == c[0] {
        lemma_chars_lt_transitive(a.drop_first(), b.drop_first(), c.drop_first());
    }
}

/// Any two distinct sequences are ordered one way or the other.
pub proof fn lemma_chars_lt_total(a: Seq<char>, b: Seq<char>)
    ensures
        a != b ==> chars_lt(a, b) || chars_lt(b, a),
    decreases a.len(),
{
    if a.len() > 0 && b.len() > 0 && a[0] == b[0] {
        lemma_chars_lt_total(a.drop_first(), b.drop_first());
        if a.drop_first() == b.drop_first() {
            assert(a =~= seq![a[0]] + a.drop_first());
            assert(b =~= seq![b[0]] + b.drop_first());
        }
    } else if a.len() == 0 && b.len() == 0 {
        assert(a =~= b);
    }
}

/// Inserts an entry into a sequence, before the first entry whose name is
/// above the new entry's name (after all entries with names not above it).
pub open spec fn insert_entry(e: EntryText, s: Seq<EntryText>) -> Seq<EntryText>
    decreases s.len(),
{
    if s.len() == 0 {
        seq![e]
    } else if chars_lt(e.0, s[0].0) {
        seq![e] + s
    } else {
        seq![s[0]] + insert_entry(e, s.drop_first())
    }
}

/// The entries sorted by name (a stable insertion sort).
pub open spec fn sort_entries(s: Seq<EntryText>) -> Seq<EntryText>
    decreases s.len(),
{
    if s.len() == 0 {
        s
    } else {
        insert_entry(s.last(), sort_entries(s.drop_last()))
    }
}

/// Entries in ascending order of their names.
pub open spec fn entries_sorted(s: Seq<EntryText>) -> bool {
    forall|i: int, j: int| 0 <= i < j < s.len() ==> !chars_lt(#[trigger] s[j].0, #[trigger] s[i].0)
}

/// The text of entries: `name=value` items joined by commas.
pub open spec fn render_entries(s: Seq<EntryText>) -> Seq<char>
    decreases s.len(),
{
    if s.len() == 0 {
        Seq::empty()
    } else {
        let prev = render_entries(s.drop_last());
        let sep = if s.len() > 1 { seq![','] } else { Seq::empty() };
        prev + sep + s.last().0 + seq!['='] + s.last().1
    }
}

/// The entries of executable pairs, as the specification sees them.
pub open spec fn entry_texts(v: Seq<(String, String)>) -> Seq<EntryText> {
    Seq::new(v.len(), |i: int| (v[i].0@, v[i].1@))
}

/// Inserting at the first position whose name is above the new name.
proof fn lemma_insert_entry_at(e: EntryText, s: Seq<EntryText>, p: int)
    requires
        0 <= p <= s.len(),
        forall|j: int| 0 <= j < p ==> !chars_lt(e.0, #[trigger] s[j].0),
        p < s.len() ==> chars_lt(e.0, s[p].0),
    ensures
        insert_entry(e, s) == s.insert(p, e),
    decreases s.len(),
{
    if s.len() == 0 {
        assert(s.insert(p, e) =~= seq![e]);
    } else if p == 0 {
        assert(s.insert(p, e) =~= seq![e] + s);
    } else {
        let t = s.drop_first();
        assert forall|j: int| 0 <= j < p - 1 implies !chars_lt(e.0, #[trigger] t[j].0) by {
            assert(t[j] == s[j + 1]);
        }
        lemma_insert_entry_at(e, t, p - 1);
        assert(s.insert(p, e) =~= seq![s[0]] + t.insert(p - 1, e));
    }
}

/// Inserting keeps a sorted sequence sorted and adds exactly the entry.
proof fn lemma_insert_entry_sorted(e: EntryText, s: Seq<EntryText>)
    requires
        entries_sorted(s),
    ensures
        entries_sorted(insert_entry(e, s)),
        insert_entry(e, s).to_multiset() == s.to_multiset().insert(e),
    decreases s.len(),
{
    broadcast use vstd::seq_lib::group_to_multiset_ensures;

    if s.len() == 0 {
        assert(seq![e] =~= Seq::<EntryText>::empty().push(e));
    } else if chars_lt(e.0, s[0].0) {
        let r = seq![e] + s;
        assert(r =~= s.insert(0, e));
        assert forall|i: int, j: int| 0 <= i < j < r.len() implies !chars_lt(#[trigger] r[j].0, #[trigger] r[i].0) by {
            if i == 0 {
                assert(r[j] == s[j - 1]);
                if chars_lt(r[j].0, e.0) {
                    lemma_chars_lt_transitive(r[j].0, e.0, s[0].0);
                    if j == 1 {
                        lemma_chars_lt_irreflexive(s[0].0);
                    } else {
                        assert(!chars_lt(s[j - 1].0, s[0].0));
                    }
                }
            } else {
                assert(r[i] == s[i - 1] && r[j] == s[j - 1]);
            }
        }
    } else {
        let t = s.drop_first();
        assert forall|i: int, j: int| 0 <= i < j < t.len() implies !chars_lt(#[trigger] t[j].0, #[trigger] t[i].0) by {
            assert(t[i] == s[i + 1] && t[j] == s[j + 1]);
        }
        lemma_insert_entry_sorted(e, t);
        let it = insert_entry(e, t);
        let r = seq![s[0]] + it;
        assert(it.to_multiset().count(e) > 0);
        assert forall|i: int, j: int| 0 <= i < j < r.len() implies !chars_lt(#[trigger] r[j].0, #[trigger] r[i].0) by {
            if i == 0 {
                let x = r[j];
                assert(x == it[j - 1]);
                assert(it.contains(x)) by {
                    assert(it[j - 1] == x);
                }
                assert(it.to_multiset().count(x) > 0);
                assert(t.to_multiset().insert(e).count(x) > 0);
                if x == e {
                    lemma_chars_lt_total(e.0, s[0].0);
                    if chars_lt(e.0, s[0].0) {
                    }
                } else {
                    assert(t.to_multiset().count(x) > 0);
                    assert(t.contains(x));
                    let k = choose|k: int| 0 <= k < t.len() && t[k] == x;
                    assert(s[k + 1] == x);
                }
            }
        }
        assert(s =~= seq![s[0]] + t);
        assert(r =~= it.insert(0, s[0]));
        assert(s =~= t.insert(0, s[0]));
    }
}

/// Sorting yields entries in ascending name order holding exactly the
/// given entries.
pub proof fn lemma_sort_entries(s: Seq<EntryText>)
    ensures
        entries_sorted(sort_entries(s)),
        sort_entries(s).to_multiset() == s.to_multiset(),
    decreases s.len(),
{
    broadcast use vstd::seq_lib::group_to_multiset_ensures;

    if s.len() > 0 {
        lemma_sort_entries(s.drop_last());
        lemma_insert_entry_sorted(s.last(), sort_entries(s.drop_last()));
        assert(s =~= s.drop_last().push(s.last()));
    }
}

/// Whether the name `a` is below the name `b` in code-point order.
pub fn name_lt(a: &String, b: &String) -> (r: bool)
    ensures
        r == chars_lt(a@, b@),
{
    let va = to_chars(a.as_str());
    let vb = to_chars(b.as_str());
    let mut i: usize = 0;
    assert(a@.skip(0) =~= a@ && b@.skip(0) =~= b@);
    while i < va.len() && i < vb.len() && va[i] == vb[i]
        invariant
            i <= va@.len(),
            i <= vb@.len(),
            va@ == a@,
            vb@ == b@,
            chars_lt(a@, b@) == chars_lt(a@.skip(i as int), b@.skip(i as int)),
        decreases va.len() - i,
    {
        proof {
            let sa = a@.skip(i as int);
            let sb = b@.skip(i as int);
            assert(sa.drop_first() =~= a@.skip(i + 1));
            assert(sb.drop_first() =~= b@.skip(i + 1));
        }
        i = i + 1;
    }
    if i == vb.len() {
        false
    } else if i == va.len() {
        true
    } else {
        va[i] < vb[i]
    }
}

/// The entries sorted by name; entries with equal names keep their order.
pub fn sort_by_name(v: &Vec<(String, String)>) -> (r: Vec<(String, String)>)
    ensures
        entry_texts(r@) == sort_entries(entry_texts(v@)),
{
    let mut r: Vec<(String, String)> = Vec::new();
    let mut i: usize = 0;
    while i < v.len()
        invariant
            i <= v@.len(),
            entry_texts(r@) == sort_entries(entry_texts(v@).take(i as int)),
        decreases v.len() - i,
    {
        let key = v[i].0.clone();
        let val = v[i].1.clone();
        let mut p: usize = 0;
        while p < r.len() && !name_lt(&key, &r[p].0)
            invariant
                p <= r@.len(),
                forall|j: int| 0 <= j < p ==> !chars_lt(key@, #[trigger] r@[j].0@),
            decreases r.len() - p,
        {
            p = p + 1;
        }
        let ghost old_r = entry_texts(r@);
        let ghost e: EntryText = (key@, val@);
        proof {
            assert forall|j: int| 0 <= j < p implies !chars_lt(e.0, #[trigger] old_r[j].0) by {
                assert(old_r[j].0 == r@[j].0@);
            }
            lemma_insert_entry_at(e, old_r, p as int);
        }
        r.insert(p, (key, val));
        proof {
            let s = entry_texts(v@).take(i + 1);
            assert(s.drop_last() =~= entry_texts(v@).take(i as int));
            assert(s.last() == e);
            assert(entry_texts(r@) =~= old_r.insert(p as int, e));
        }
        i = i + 1;
    }
    assert(entry_texts(v@).take(v@.len() as int) =~= entry_texts(v@));
    r
}

/// The text of entries: `name=value` items joined by commas, in the given order.
pub fn render(v: &Vec<(String, String)>) -> (r: String)
    ensures
        r@ == render_entries(entry_texts(v@)),
{
    let mut r = String::new();
    let mut i: usize = 0;
    while i < v.len()
        invariant
            i <= v@.len(),
            r@ == render_entries(entry_texts(v@).take(i as int)),
        decreases v.len() - i,
    {
        let ghost prev = r@;
        if i > 0 {
            push_char(&mut r, ',');
        }
        append(&mut r, v[i].0.as_str());
        push_char(&mut r, '=');
        append(&mut r, v[i].1.as_str());
        proof {
            let s = entry_texts(v@).take(i + 1);
            assert(s.drop_last() =~= entry_texts(v@).take(i as int));
            assert(s.last() == (v@[i as int].0@, v@[i as int].1@));
            if i > 0 {
                assert(r@ =~= prev + seq![','] + v@[i as int].0@ + seq!['='] + v@[i as int].1@);
            } else {
                assert(r@ =~= prev + Seq::<char>::empty() + v@[i as int].0@ + seq!['='] + v@[i as int].1@);
            }
        }
        i = i + 1;
    }
    assert(entry_texts(v@).take(v@.len() as int) =~= entry_texts(v@));
    r
}

/// The text of entries sorted by name.
pub fn render_sorted(v: &Vec<(String, String)>) -> (r: String)
    ensures
        r@ == render_entries(sort_entries(entry_texts(v@))),
{
    let s = sort_by_name(v);
    render(&s)
}

} // verus!
