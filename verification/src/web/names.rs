//! The names of the fields that a page shows, and their order.
use std::cmp::Ordering;
use vstd::prelude::*;

use crate::fieldmap::FieldMap;
use crate::text::{
    str_eq, str_less, text_lt, text_lt_irreflexive, text_lt_total, text_lt_transitive, texts,
};

verus! {

/// The field that stands before all others.
pub open spec fn first_field() -> Seq<char> {
    "source_timestamp"@
}

/// Whether a field stands before another: the time of the message before all others,
/// and those in the order of their names.
pub open spec fn field_before(a: Seq<char>, b: Seq<char>) -> bool {
    a != b && (a == first_field() || (b != first_field() && text_lt(a, b)))
}

/// How two fields are ordered. Of the time of the message it is said that it comes
/// before everything, itself included.
pub fn field_custom_sort(a: &str, b: &str) -> (res: Ordering)
    ensures
        match res {
            Ordering::Less => a@ == first_field() || field_before(a@, b@),
            Ordering::Equal => a@ == b@ && a@ != first_field(),
            Ordering::Greater => field_before(b@, a@),
        },
{
    if str_eq(a, "source_timestamp") {
        Ordering::Less
    } else if str_eq(b, "source_timestamp") {
        Ordering::Greater
    } else if str_less(a, b) {
        proof {
            text_lt_irreflexive(a@);
        }
        Ordering::Less
    } else if str_eq(a, b) {
        Ordering::Equal
    } else {
        proof {
            text_lt_total(a@, b@);
        }
        Ordering::Greater
    }
}

/// The order of fields is that of a list: no field stands before itself, of two
/// different ones one stands before the other, and the order carries on.
pub proof fn field_order_is_total(a: Seq<char>, b: Seq<char>, c: Seq<char>)
    ensures
        !field_before(a, a),
        a != b ==> field_before(a, b) || field_before(b, a),
        !(field_before(a, b) && field_before(b, a)),
        field_before(a, b) && field_before(b, c) ==> field_before(a, c),
{
    if a != b {
        text_lt_total(a, b);
    }
    if text_lt(a, b) && text_lt(b, a) {
        text_lt_transitive(a, b, a);
        text_lt_irreflexive(a);
    }
    if text_lt(a, b) && text_lt(b, c) {
        text_lt_transitive(a, b, c);
        text_lt_irreflexive(a);
    }
}

/// How names are chosen and ordered.
#[derive(Clone, Copy, Debug, PartialEq, Eq, Structural)]
pub struct NameRules {
    /// Whether the messages themselves are left out.
    pub without_messages: bool,
    /// Whether the time of the message stands first.
    pub time_first: bool,
}

/// Whether a name stands before another.
pub open spec fn name_before(rules: NameRules, a: Seq<char>, b: Seq<char>) -> bool {
    if rules.time_first {
        field_before(a, b)
    } else {
        text_lt(a, b)
    }
}

/// Whether a name is left out.
pub open spec fn left_out(rules: NameRules, name: Seq<char>) -> bool {
    rules.without_messages && (name == "message"@ || name == "full_message"@)
}

/// Whether the names stand in order, none twice.
pub open spec fn in_order(rules: NameRules, names: Seq<Seq<char>>) -> bool {
    forall|i: int, j: int|
        0 <= i < j < names.len() ==> name_before(rules, #[trigger] names[i], #[trigger] names[j])
}

/// The order of names carries on.
proof fn lemma_before_transitive(rules: NameRules, a: Seq<char>, b: Seq<char>, c: Seq<char>)
    requires
        name_before(rules, a, b),
        name_before(rules, b, c),
    ensures
        name_before(rules, a, c),
{
    if rules.time_first {
        field_order_is_total(a, b, c);
    } else {
        text_lt_transitive(a, b, c);
    }
}

/// Of two different names one stands before the other.
proof fn lemma_before_total(rules: NameRules, a: Seq<char>, b: Seq<char>)
    requires
        a != b,
    ensures
        name_before(rules, a, b) || name_before(rules, b, a),
{
    if rules.time_first {
        field_order_is_total(a, b, a);
    } else {
        text_lt_total(a, b);
    }
}

/// Whether a name stands before another.
fn is_before(rules: NameRules, a: &str, b: &str) -> (res: bool)
    ensures
        res == name_before(rules, a@, b@),
{
    if rules.time_first {
        if str_eq(a, b) {
            return false;
        }
        match field_custom_sort(a, b) {
            Ordering::Less => true,
            Ordering::Equal => false,
            Ordering::Greater => {
                proof {
                    field_order_is_total(a@, b@, a@);
                }
                false
            },
        }
    } else {
        str_less(a, b)
    }
}

/// Whether a name is left out.
fn is_left_out(rules: NameRules, name: &str) -> (res: bool)
    ensures
        res == left_out(rules, name@),
{
    rules.without_messages && (str_eq(name, "message") || str_eq(name, "full_message"))
}

/// Puts a name in its place, where it is not there yet.
fn insert_name(rules: NameRules, names: &mut Vec<String>, name: &String)
    requires
        in_order(rules, texts(old(names)@)),
    ensures
        in_order(rules, texts(final(names)@)),
        forall|k: Seq<char>| #[trigger]
            texts(final(names)@).contains(k) <==> texts(old(names)@).contains(k) || k == name@,
{
    let ghost before = names@;
    let ghost views = texts(before);
    let mut i: usize = 0;
    while i < names.len() && is_before(rules, names[i].as_str(), name.as_str())
        invariant
            names@ == before,
            views == texts(before),
            i <= names@.len(),
            forall|j: int| 0 <= j < i ==> name_before(rules, #[trigger] views[j], name@),
        decreases names@.len() - i,
    {
        assert(views[i as int] == names@[i as int]@);
        i = i + 1;
    }
    if i < names.len() && str_eq(names[i].as_str(), name.as_str()) {
        assert(views[i as int] == name@);
        return;
    }
    let copy = name.clone();
    names.insert(i, copy);
    proof {
        let after = texts(names@);
        let at = i as int;
        assert(after =~= views.insert(at, name@));
        assert forall|j: int, k: int| 0 <= j < k < after.len() implies name_before(
            rules,
            #[trigger] after[j],
            #[trigger] after[k],
        ) by {
            if k == at {
                assert(after[j] == views[j]);
            } else if j == at {
                assert(after[k] == views[k - 1]);
                lemma_before_total(rules, views[at], name@);
                assert(views[at] == before[at]@);
                if k - 1 > at {
                    lemma_before_transitive(rules, name@, views[at], views[k - 1]);
                }
            } else {
                let a = if j < at {
                    j
                } else {
                    j - 1
                };
                let b = if k < at {
                    k
                } else {
                    k - 1
                };
                assert(after[j] == views[a] && after[k] == views[b]);
            }
        }
        assert forall|k: Seq<char>| #[trigger] after.contains(k) implies views.contains(k) || k
            == name@ by {
            let j = choose|j: int| 0 <= j < after.len() && after[j] == k;
            if j < at {
                assert(views[j] == k);
            } else if j > at {
                assert(views[j - 1] == k);
            }
        }
        assert forall|k: Seq<char>| views.contains(k) || k == name@ implies #[trigger] after.contains(
            k,
        ) by {
            if k == name@ {
                assert(after[at] == k);
            } else {
                let j = choose|j: int| 0 <= j < views.len() && views[j] == k;
                if j < at {
                    assert(after[j] == k);
                } else {
                    assert(after[j + 1] == k);
                }
            }
        }
    }
}

/// Whether one of the first `n` documents has the field.
pub open spec fn occurs<V: View>(docs: Seq<FieldMap<V>>, n: int, name: Seq<char>) -> bool {
    exists|i: int| 0 <= i < n && (#[trigger] docs[i])@.contains_key(name)
}

/// The names of the fields that documents have, in order, none twice, without those
/// that are left out.
pub open spec fn names_of_docs<V: View>(
    rules: NameRules,
    docs: Seq<FieldMap<V>>,
    names: Seq<Seq<char>>,
) -> bool {
    &&& in_order(rules, names)
    &&& forall|k: Seq<char>| #[trigger]
        names.contains(k) <==> occurs(docs, docs.len() as int, k) && !left_out(rules, k)
}

/// The names of the fields that documents have.
pub fn collect_names<V: View>(rules: NameRules, docs: &Vec<FieldMap<V>>) -> (res: Vec<String>)
    ensures
        names_of_docs(rules, docs@, texts(res@)),
{
    let mut res: Vec<String> = Vec::new();
    let mut i: usize = 0;
    while i < docs.len()
        invariant
            i <= docs@.len(),
            in_order(rules, texts(res@)),
            forall|k: Seq<char>| #[trigger]
                texts(res@).contains(k) <==> occurs(docs@, i as int, k) && !left_out(rules, k),
        decreases docs@.len() - i,
    {
        let doc = &docs[i];
        let n = doc.len();
        let ghost names = doc.names();
        let ghost before = texts(res@);
        let mut j: usize = 0;
        while j < n
            invariant
                i < docs@.len(),
                j <= n,
                doc == docs@[i as int],
                n == names.len(),
                names == doc.names(),
                in_order(rules, texts(res@)),
                forall|k: Seq<char>| #[trigger]
                    texts(res@).contains(k) <==> before.contains(k) || (names.take(
                        j as int,
                    ).contains(k) && !left_out(rules, k)),
            decreases n - j,
        {
            let name = doc.name_at(j);
            let ghost done = texts(res@);
            if !is_left_out(rules, name.as_str()) {
                insert_name(rules, &mut res, name);
            }
            proof {
                let next = names.take(j + 1);
                assert(next =~= names.take(j as int).push(name@));
                assert forall|k: Seq<char>| #[trigger] texts(res@).contains(k) <==> before.contains(
                    k,
                ) || (next.contains(k) && !left_out(rules, k)) by {
                    if k == name@ {
                        assert(next[j as int] == k);
                    }
                    if names.take(j as int).contains(k) {
                        let m = choose|m: int| 0 <= m < j && names.take(j as int)[m] == k;
                        assert(next[m] == k);
                    }
                    if next.contains(k) && k != name@ {
                        let m = choose|m: int| 0 <= m < next.len() && next[m] == k;
                        assert(names.take(j as int)[m] == k);
                    }
                    assert(done.contains(k) <==> before.contains(k) || (names.take(
                        j as int,
                    ).contains(k) && !left_out(rules, k)));
                }
            }
            j = j + 1;
        }
        proof {
            assert(names.take(n as int) =~= names);
            assert forall|k: Seq<char>| #[trigger] texts(res@).contains(k) <==> occurs(
                docs@,
                i + 1,
                k,
            ) && !left_out(rules, k) by {
                assert(before.contains(k) <==> occurs(docs@, i as int, k) && !left_out(rules, k));
                if occurs(docs@, i + 1, k) {
                    let d = choose|d: int| 0 <= d < i + 1 && (#[trigger] docs@[d])@.contains_key(k);
                    if d < i {
                        assert(occurs(docs@, i as int, k));
                    } else {
                        assert(doc@.contains_key(k));
                    }
                }
                if doc@.contains_key(k) {
                    assert(docs@[i as int]@.contains_key(k));
                }
            }
        }
        i = i + 1;
    }
    res
}

/// The fields of a page: those of its documents, without the messages, the time
/// first.
pub fn fieldset<V: View>(docs: &Vec<FieldMap<V>>) -> (res: Vec<String>)
    ensures
        names_of_docs(
            (NameRules { without_messages: true, time_first: true }),
            docs@,
            texts(res@),
        ),
{
    collect_names(NameRules { without_messages: true, time_first: true }, docs)
}

/// The fields of a page: those of its documents, in the order of their names.
pub fn plain_fieldset<V: View>(docs: &Vec<FieldMap<V>>) -> (res: Vec<String>)
    ensures
        names_of_docs(
            (NameRules { without_messages: false, time_first: false }),
            docs@,
            texts(res@),
        ),
{
    collect_names(NameRules { without_messages: false, time_first: false }, docs)
}

/// Two lists of the names of the same documents are the same list.
pub proof fn names_are_determined<V: View>(
    rules: NameRules,
    docs: Seq<FieldMap<V>>,
    a: Seq<Seq<char>>,
    b: Seq<Seq<char>>,
)
    requires
        names_of_docs(rules, docs, a),
        names_of_docs(rules, docs, b),
    ensures
        a == b,
{
    assert forall|k: Seq<char>| a.contains(k) <==> b.contains(k) by {
        assert(a.contains(k) <==> occurs(docs, docs.len() as int, k) && !left_out(rules, k));
    }
    lemma_sorted_unique(rules, a, b);
}

/// A name does not stand before itself, nor two before each other.
proof fn lemma_before_strict(rules: NameRules, a: Seq<char>, b: Seq<char>)
    ensures
        !(name_before(rules, a, b) && name_before(rules, b, a)),
        !name_before(rules, a, a),
{
    field_order_is_total(a, b, a);
    text_lt_irreflexive(a);
    if text_lt(a, b) && text_lt(b, a) {
        text_lt_transitive(a, b, a);
    }
}

/// Two lists in order with the same names are the same list.
proof fn lemma_sorted_unique(rules: NameRules, a: Seq<Seq<char>>, b: Seq<Seq<char>>)
    requires
        in_order(rules, a),
        in_order(rules, b),
        forall|k: Seq<char>| a.contains(k) <==> b.contains(k),
    ensures
        a == b,
    decreases a.len(),
{
    if a.len() == 0 {
        if b.len() > 0 {
            assert(b.contains(b[0]));
        }
        assert(a =~= b);
    } else {
        assert(a.contains(a[a.len() - 1]));
        let x = a.last();
        assert(b.contains(x));
        let j = choose|j: int| 0 <= j < b.len() && b[j] == x;
        let y = b.last();
        assert(b.contains(b[b.len() - 1]));
        assert(a.contains(y));
        let i = choose|i: int| 0 <= i < a.len() && a[i] == y;
        if x != y {
            assert(j < b.len() - 1);
            assert(i < a.len() - 1);
            assert(name_before(rules, b[j], b[b.len() - 1]));
            assert(name_before(rules, a[i], a[a.len() - 1]));
            lemma_before_strict(rules, x, y);
        }
        let fa = a.drop_last();
        let fb = b.drop_last();
        assert forall|k: Seq<char>| fa.contains(k) <==> fb.contains(k) by {
            if fa.contains(k) {
                let m = choose|m: int| 0 <= m < fa.len() && fa[m] == k;
                assert(a[m] == k);
                assert(name_before(rules, a[m], a[a.len() - 1]));
                lemma_before_strict(rules, k, x);
                assert(a.contains(k));
                let q = choose|q: int| 0 <= q < b.len() && b[q] == k;
                assert(q != b.len() - 1);
                assert(fb[q] == k);
            }
            if fb.contains(k) {
                let m = choose|m: int| 0 <= m < fb.len() && fb[m] == k;
                assert(b[m] == k);
                assert(name_before(rules, b[m], b[b.len() - 1]));
                lemma_before_strict(rules, k, x);
                assert(b.contains(k));
                let q = choose|q: int| 0 <= q < a.len() && a[q] == k;
                assert(q != a.len() - 1);
                assert(fa[q] == k);
            }
        }
        lemma_sorted_unique(rules, fa, fb);
        assert(a =~= fa.push(x));
        assert(b =~= fb.push(x));
    }
}

} // verus!
