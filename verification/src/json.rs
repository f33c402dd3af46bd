//! An order-preserving JSON value tree.
//!
//! Objects are sequences of key/value pairs rather than maps, so that the
//! key order seen at parse time is the key order written at serialize time.
//! Numbers are carried as their decimal rendering: this crate never does
//! arithmetic on them, it only writes them back out.

use vstd::prelude::*;

verus! {

/// A JSON document fragment, with object key order preserved.
#[derive(Debug)]
pub enum JsonValue {
    Null,
    Bool(bool),
    Num(String),
    Str(String),
    Arr(Vec<JsonValue>),
    Obj(Vec<(String, JsonValue)>),
}

/// The mathematical shape of a `JsonValue`: the same tree over `Seq`.
pub enum JsonView {
    Null,
    Bool(bool),
    Num(Seq<char>),
    Str(Seq<char>),
    Arr(Seq<JsonView>),
    Obj(Seq<(Seq<char>, JsonView)>),
}

/// The view of an array's elements, elementwise.
pub open spec fn arr_view(s: Seq<JsonValue>) -> Seq<JsonView>
    decreases s,
{
    if s.len() == 0 {
        Seq::empty()
    } else {
        arr_view(s.subrange(0, s.len() - 1)).push(s[s.len() - 1].view())
    }
}

/// The view of an object's key/value pairs, pairwise.
pub open spec fn entries_view(s: Seq<(String, JsonValue)>) -> Seq<(Seq<char>, JsonView)>
    decreases s,
{
    if s.len() == 0 {
        Seq::empty()
    } else {
        entries_view(s.subrange(0, s.len() - 1)).push(
            (s[s.len() - 1].0@, s[s.len() - 1].1.view()),
        )
    }
}

impl View for JsonValue {
    type V = JsonView;

    open spec fn view(&self) -> JsonView
        decreases self,
    {
        match self {
            JsonValue::Null => JsonView::Null,
            JsonValue::Bool(b) => JsonView::Bool(*b),
            JsonValue::Num(s) => JsonView::Num(s@),
            JsonValue::Str(s) => JsonView::Str(s@),
            JsonValue::Arr(items) => JsonView::Arr(arr_view(items@)),
            JsonValue::Obj(members) => JsonView::Obj(entries_view(members@)),
        }
    }
}

/// `arr_view` is the elementwise view.
pub broadcast proof fn lemma_arr_view(s: Seq<JsonValue>)
    ensures
        (#[trigger] arr_view(s)).len() == s.len(),
        forall|i: int| 0 <= i < s.len() ==> #[trigger] arr_view(s)[i] == s[i]@,
    decreases s.len(),
{
    if s.len() > 0 {
        let sub = s.subrange(0, s.len() - 1);
        lemma_arr_view(sub);
        assert(arr_view(s) == arr_view(sub).push(s[s.len() - 1]@));
        assert forall|i: int| 0 <= i < s.len() implies #[trigger] arr_view(s)[i] == s[i]@ by {
            if i < s.len() - 1 {
                assert(arr_view(s)[i] == arr_view(sub)[i]);
                assert(sub[i] == s[i]);
            }
        }
    }
}

/// `entries_view` is the pairwise view.
pub broadcast proof fn lemma_entries_view(s: Seq<(String, JsonValue)>)
    ensures
        (#[trigger] entries_view(s)).len() == s.len(),
        forall|i: int| 0 <= i < s.len() ==> #[trigger] entries_view(s)[i] == (s[i].0@, s[i].1@),
    decreases s.len(),
{
    if s.len() > 0 {
        let sub = s.subrange(0, s.len() - 1);
        lemma_entries_view(sub);
        assert(entries_view(s) == entries_view(sub).push((s[s.len() - 1].0@, s[s.len() - 1].1@)));
        assert forall|i: int|
            0 <= i < s.len() implies #[trigger] entries_view(s)[i] == (s[i].0@, s[i].1@) by {
            if i < s.len() - 1 {
                assert(entries_view(s)[i] == entries_view(sub)[i]);
                assert(sub[i] == s[i]);
            }
        }
    }
}

/// A structurally equal copy of a JSON tree.
pub fn json_clone(v: &JsonValue) -> (r: JsonValue)
    ensures
        r@ == v@,
    decreases v, 0nat,
{
    match v {
        JsonValue::Null => JsonValue::Null,
        JsonValue::Bool(b) => JsonValue::Bool(*b),
        JsonValue::Num(s) => JsonValue::Num(s.clone()),
        JsonValue::Str(s) => JsonValue::Str(s.clone()),
        JsonValue::Arr(items) => {
            let mut out: Vec<JsonValue> = Vec::new();
            let n = items.len();
            clone_items_range(items, 0, n, &mut out);
            proof {
                broadcast use lemma_arr_view;

                assert(arr_view(out@) =~= arr_view(items@));
            }
            JsonValue::Arr(out)
        },
        JsonValue::Obj(members) => {
            let mut out: Vec<(String, JsonValue)> = Vec::new();
            let n = members.len();
            clone_entries_range(members, 0, n, &mut out);
            proof {
                broadcast use lemma_entries_view;

                assert(entries_view(out@) =~= entries_view(members@));
            }
            JsonValue::Obj(out)
        },
    }
}

/// Whether two JSON trees are structurally equal.
pub fn json_eq(a: &JsonValue, b: &JsonValue) -> (r: bool)
    ensures
        r == (a@ == b@),
    decreases a, 0nat,
{
    match (a, b) {
        (JsonValue::Null, JsonValue::Null) => true,
        (JsonValue::Bool(x), JsonValue::Bool(y)) => *x == *y,
        (JsonValue::Num(x), JsonValue::Num(y)) => *x == *y,
        (JsonValue::Str(x), JsonValue::Str(y)) => *x == *y,
        (JsonValue::Arr(x), JsonValue::Arr(y)) => {
            if x.len() != y.len() {
                proof {
                    broadcast use lemma_arr_view;

                    assert(arr_view(x@).len() != arr_view(y@).len());
                }
                false
            } else {
                let r = eq_items_from(x, y, 0);
                proof {
                    broadcast use lemma_arr_view;

                    if r {
                        assert(arr_view(x@) =~= arr_view(y@));
                    } else {
                        let j = choose|j: int| 0 <= j < x@.len() && !(x@[j]@ == y@[j]@);
                        assert(arr_view(x@)[j] == x@[j]@);
                        assert(arr_view(y@)[j] == y@[j]@);
                    }
                }
                r
            }
        },
        (JsonValue::Obj(x), JsonValue::Obj(y)) => {
            if x.len() != y.len() {
                proof {
                    broadcast use lemma_entries_view;

                    assert(entries_view(x@).len() != entries_view(y@).len());
                }
                false
            } else {
                let r = eq_entries_from(x, y, 0);
                proof {
                    broadcast use lemma_entries_view;

                    if r {
                        assert(entries_view(x@) =~= entries_view(y@));
                    } else {
                        let j = choose|j: int|
                            0 <= j < x@.len() && !(x@[j].0@ == y@[j].0@ && x@[j].1@ == y@[j].1@);
                        assert(entries_view(x@)[j] == (x@[j].0@, x@[j].1@));
                        assert(entries_view(y@)[j] == (y@[j].0@, y@[j].1@));
                    }
                }
                r
            }
        },
        _ => {
            proof {
                assert((a@ is Null) == (*a is Null));
                assert((a@ is Bool) == (*a is Bool));
                assert((a@ is Num) == (*a is Num));
                assert((a@ is Str) == (*a is Str));
                assert((a@ is Arr) == (*a is Arr));
                assert((a@ is Obj) == (*a is Obj));
                assert((b@ is Null) == (*b is Null));
                assert((b@ is Bool) == (*b is Bool));
                assert((b@ is Num) == (*b is Num));
                assert((b@ is Str) == (*b is Str));
                assert((b@ is Arr) == (*b is Arr));
                assert((b@ is Obj) == (*b is Obj));
            }
            false
        },
    }
}

/// Whether the elements of two equally long arrays are pairwise equal
/// from position `from` on.
fn eq_items_from(x: &Vec<JsonValue>, y: &Vec<JsonValue>, from: usize) -> (r: bool)
    requires
        x@.len() == y@.len(),
        from <= x@.len(),
    ensures
        r == (forall|j: int| from <= j < x@.len() ==> (#[trigger] x@[j])@ == y@[j]@),
    decreases x@, x@.len() - from,
{
    if from < x.len() {
        if json_eq(&x[from], &y[from]) {
            eq_items_from(x, y, from + 1)
        } else {
            false
        }
    } else {
        true
    }
}

/// Whether the members of two equally long objects are pairwise equal,
/// keys and values, from position `from` on.
pub(crate) fn eq_entries_from(x: &Vec<(String, JsonValue)>, y: &Vec<(String, JsonValue)>, from: usize) -> (r:
    bool)
    requires
        x@.len() == y@.len(),
        from <= x@.len(),
    ensures
        r == (forall|j: int|
            from <= j < x@.len() ==> (#[trigger] x@[j]).0@ == y@[j].0@ && x@[j].1@ == y@[j].1@),
    decreases x@, x@.len() - from,
{
    if from < x.len() {
        if x[from].0 == y[from].0 {
            if json_eq(&x[from].1, &y[from].1) {
                eq_entries_from(x, y, from + 1)
            } else {
                false
            }
        } else {
            false
        }
    } else {
        true
    }
}

/// Appends structurally equal copies of `items[from..to]` to `out`.
pub fn clone_items_range(items: &Vec<JsonValue>, from: usize, to: usize, out: &mut Vec<JsonValue>)
    requires
        from <= to <= items@.len(),
    ensures
        final(out)@.len() == old(out)@.len() + to - from,
        forall|j: int| 0 <= j < old(out)@.len() ==> final(out)@[j] == old(out)@[j],
        forall|j: int|
            from <= j < to ==> final(out)@[old(out)@.len() + j - from]@ == items@[j]@,
    decreases items@, to - from,
{
    if from < to {
        let c = json_clone(&items[from]);
        out.push(c);
        clone_items_range(items, from + 1, to, out);
    }
}

/// Appends structurally equal copies of `members[from..to]` to `out`.
pub fn clone_entries_range(
    members: &Vec<(String, JsonValue)>,
    from: usize,
    to: usize,
    out: &mut Vec<(String, JsonValue)>,
)
    requires
        from <= to <= members@.len(),
    ensures
        final(out)@.len() == old(out)@.len() + to - from,
        forall|j: int| 0 <= j < old(out)@.len() ==> final(out)@[j] == old(out)@[j],
        forall|j: int|
            from <= j < to ==> final(out)@[old(out)@.len() + j - from].0@ == members@[j].0@
                && final(out)@[old(out)@.len() + j - from].1@ == members@[j].1@,
    decreases members@, to - from,
{
    if from < to {
        let k = members[from].0.clone();
        let c = json_clone(&members[from].1);
        out.push((k, c));
        clone_entries_range(members, from + 1, to, out);
    }
}

} // verus!
