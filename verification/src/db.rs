//! The record store: an in-memory collection of to-do records whose
//! identity is the `id` field. Create, update and delete address records
//! by id; the collection keeps insertion order.

use vstd::prelude::*;

verus! {

/// A to-do record. Two records are the same entity exactly when their
/// `id` fields match; `text` is free-form content.
pub struct ToDo {
    pub id: usize,
    pub text: String,
}

/// The mathematical image of a record: its id and the characters of its text.
pub ghost struct TodoView {
    pub id: usize,
    pub text: Seq<char>,
}

impl View for ToDo {
    type V = TodoView;

    open spec fn view(&self) -> TodoView {
        TodoView { id: self.id, text: self.text@ }
    }
}

impl Clone for ToDo {
    fn clone(&self) -> (res: Self)
        ensures
            res@ == self@,
    {
        ToDo { id: self.id, text: self.text.clone() }
    }
}

/// The images of a sequence of records, in the same order.
pub open spec fn views_of(v: Seq<ToDo>) -> Seq<TodoView> {
    Seq::new(v.len(), |i: int| v[i]@)
}

/// No two records of `s` share an id.
pub open spec fn unique_ids(s: Seq<TodoView>) -> bool {
    forall|i: int, j: int| 0 <= i < j < s.len() ==> s[i].id != s[j].id
}

/// Some record of `s` carries the id.
pub open spec fn has_id(s: Seq<TodoView>, id: usize) -> bool {
    exists|i: int| 0 <= i < s.len() && s[i].id == id
}

/// What a successful create does: the new record goes at the end.
pub open spec fn store_create(s: Seq<TodoView>, new: TodoView) -> Seq<TodoView> {
    s.push(new)
}

/// What delete does: every record with the id goes; the survivors keep
/// their relative order.
pub open spec fn store_delete(s: Seq<TodoView>, id: usize) -> Seq<TodoView>
    decreases s.len(),
{
    if s.len() == 0 {
        s
    } else if s[0].id == id {
        store_delete(s.drop_first(), id)
    } else {
        seq![s[0]] + store_delete(s.drop_first(), id)
    }
}

/// What update does: the first record carrying the id is replaced in
/// place; everything else, including the order, stays.
pub open spec fn store_update(s: Seq<TodoView>, id: usize, new: TodoView) -> Seq<TodoView>
    decreases s.len(),
{
    if s.len() == 0 {
        s
    } else if s[0].id == id {
        s.update(0, new)
    } else {
        seq![s[0]] + store_update(s.drop_first(), id, new)
    }
}

/// The record collection. Its image is the sequence of record images in
/// insertion order; `wf` says that no two records share an id.
pub struct Store {
    todos: Vec<ToDo>,
}

impl View for Store {
    type V = Seq<TodoView>;

    closed spec fn view(&self) -> Seq<TodoView> {
        views_of(self.todos@)
    }
}

impl Store {
    pub open spec fn wf(&self) -> bool {
        unique_ids(self@)
    }
}

/// A store with no records.
pub fn empty() -> (s: Store)
    ensures
        s@ == Seq::<TodoView>::empty(),
        s.wf(),
{
    let s = Store { todos: Vec::new() };
    proof {
        assert(s@ =~= Seq::<TodoView>::empty());
    }
    s
}

/// A snapshot copy of all records, in insertion order.
pub fn todos(store: &Store) -> (r: Vec<ToDo>)
    ensures
        views_of(r@) == store@,
{
    let n = store.todos.len();
    let mut r: Vec<ToDo> = Vec::new();
    let mut i: usize = 0;
    while i < n
        invariant
            i <= n,
            n == store.todos.len(),
            r@.len() == i,
            forall|j: int| 0 <= j < i ==> r@[j]@ == store@[j],
        decreases n - i,
    {
        r.push(store.todos[i].clone());
        i = i + 1;
    }
    proof {
        assert(views_of(r@) =~= store@);
    }
    r
}

/// Appends `new` unless a record already carries its id; a duplicate id
/// is a conflict and leaves the collection untouched.
pub fn create_todo(store: &mut Store, new: ToDo) -> (r: Result<(), ()>)
    ensures
        match r {
            Ok(()) => !has_id(old(store)@, new@.id) && final(store)@ == store_create(old(store)@, new@),
            Err(()) => has_id(old(store)@, new@.id) && final(store)@ == old(store)@,
        },
        old(store).wf() ==> final(store).wf(),
{
    let n = store.todos.len();
    let mut i: usize = 0;
    while i < n
        invariant
            i <= n,
            n == store.todos.len(),
            *store == *old(store),
            forall|j: int| 0 <= j < i ==> store@[j].id != new@.id,
        decreases n - i,
    {
        if store.todos[i].id == new.id {
            proof {
                assert(0 <= i < old(store)@.len() && old(store)@[i as int].id == new@.id);
            }
            return Err(());
        }
        i = i + 1;
    }
    store.todos.push(new);
    proof {
        assert(store@ =~= store_create(old(store)@, new@));
        if old(store).wf() {
            assert forall|p: int, q: int| 0 <= p < q < store@.len() implies store@[p].id
                != store@[q].id by {
                if q == store@.len() - 1 {
                    assert(store@[p] == old(store)@[p]);
                }
            }
        }
    }
    Ok(())
}

/// Removes the record carrying `id`; an absent id is a not-found failure
/// and leaves the collection untouched.
pub fn delete_todo(store: &mut Store, id: usize) -> (r: Result<(), ()>)
    ensures
        final(store)@ == store_delete(old(store)@, id),
        match r {
            Ok(()) => has_id(old(store)@, id),
            Err(()) => !has_id(old(store)@, id) && final(store)@ == old(store)@,
        },
        old(store).wf() ==> final(store).wf(),
{
    let ghost vs = store@;
    let n = store.todos.len();
    let mut kept: Vec<ToDo> = Vec::new();
    let mut found = false;
    let mut i: usize = 0;
    proof {
        assert(vs.skip(0) =~= vs);
        assert(views_of(kept@) + store_delete(vs, id) =~= store_delete(vs, id));
        assert(views_of(kept@) =~= vs.subrange(0, 0));
    }
    while i < n
        invariant
            i <= n,
            n == store.todos.len(),
            *store == *old(store),
            vs == store@,
            store_delete(vs, id) == views_of(kept@) + store_delete(vs.skip(i as int), id),
            found <==> exists|j: int| 0 <= j < i && vs[j].id == id,
            !found ==> views_of(kept@) == vs.subrange(0, i as int),
        decreases n - i,
    {
        let ghost prev = views_of(kept@);
        let ghost rest = vs.skip(i as int);
        proof {
            assert(rest[0] == vs[i as int]);
            assert(rest.drop_first() =~= vs.skip(i + 1));
        }
        if store.todos[i].id == id {
            found = true;
            proof {
                assert(store_delete(rest, id) == store_delete(vs.skip(i + 1), id));
            }
        } else {
            kept.push(store.todos[i].clone());
            proof {
                assert(store_delete(rest, id) == seq![vs[i as int]] + store_delete(
                    vs.skip(i + 1),
                    id,
                ));
                assert(views_of(kept@) =~= prev.push(vs[i as int]));
                assert(prev + (seq![vs[i as int]] + store_delete(vs.skip(i + 1), id))
                    =~= views_of(kept@) + store_delete(vs.skip(i + 1), id));
                if !found {
                    assert(views_of(kept@) =~= vs.subrange(0, i + 1));
                }
            }
        }
        i = i + 1;
    }
    proof {
        assert(vs.skip(n as int) =~= Seq::<TodoView>::empty());
        assert(store_delete(vs, id) =~= views_of(kept@));
        if !found {
            assert(vs.subrange(0, n as int) =~= vs);
        }
        if old(store).wf() {
            lemma_delete_keeps_unique(vs, id);
        }
    }
    store.todos = kept;
    if found {
        Ok(())
    } else {
        Err(())
    }
}

/// Replaces the record carrying `id` with `new`, keeping its position; an
/// absent id is a not-found failure and leaves the collection untouched.
pub fn update_todo(store: &mut Store, id: usize, new: ToDo) -> (r: Result<(), ()>)
    ensures
        final(store)@ == store_update(old(store)@, id, new@),
        match r {
            Ok(()) => has_id(old(store)@, id),
            Err(()) => !has_id(old(store)@, id) && final(store)@ == old(store)@,
        },
        old(store).wf() && (new@.id == id || !has_id(old(store)@, new@.id)) ==> final(store).wf(),
{
    let ghost vs = store@;
    let n = store.todos.len();
    let mut i: usize = 0;
    while i < n
        invariant
            i <= n,
            n == store.todos.len(),
            *store == *old(store),
            vs == store@,
            forall|j: int| 0 <= j < i ==> vs[j].id != id,
        decreases n - i,
    {
        if store.todos[i].id == id {
            store.todos[i] = new;
            proof {
                assert(store@ =~= vs.update(i as int, new@));
                lemma_store_update_at_first(vs, id, new@, i as int);
                if old(store).wf() && (new@.id == id || !has_id(vs, new@.id)) {
                    lemma_update_keeps_unique(vs, id, new@, i as int);
                }
            }
            return Ok(());
        }
        i = i + 1;
    }
    proof {
        lemma_store_update_absent(vs, id, new@);
    }
    Err(())
}

/// Replacing the first record carrying `id` is an in-place update at its
/// index: positions of all other records are untouched.
pub proof fn lemma_store_update_at_first(s: Seq<TodoView>, id: usize, new: TodoView, i: int)
    requires
        0 <= i < s.len(),
        s[i].id == id,
        forall|j: int| 0 <= j < i ==> s[j].id != id,
    ensures
        store_update(s, id, new) == s.update(i, new),
    decreases i,
{
    if i == 0 {
        assert(store_update(s, id, new) == s.update(0, new));
    } else {
        let rest = s.drop_first();
        assert forall|j: int| 0 <= j < i - 1 implies rest[j].id != id by {
            assert(rest[j] == s[j + 1]);
        }
        lemma_store_update_at_first(rest, id, new, i - 1);
        assert(store_update(s, id, new) == seq![s[0]] + rest.update(i - 1, new));
        assert(seq![s[0]] + rest.update(i - 1, new) =~= s.update(i, new));
    }
}

/// Updating an id that no record carries changes nothing.
pub proof fn lemma_store_update_absent(s: Seq<TodoView>, id: usize, new: TodoView)
    requires
        !has_id(s, id),
    ensures
        store_update(s, id, new) == s,
    decreases s.len(),
{
    if s.len() > 0 {
        let rest = s.drop_first();
        assert forall|j: int| 0 <= j < rest.len() implies rest[j].id != id by {
            assert(rest[j] == s[j + 1]);
        }
        lemma_store_update_absent(rest, id, new);
        assert(seq![s[0]] + rest =~= s);
    }
}

/// Every survivor of a deletion comes from the original sequence and
/// carries another id.
pub proof fn lemma_delete_member(s: Seq<TodoView>, id: usize, k: int)
    requires
        0 <= k < store_delete(s, id).len(),
    ensures
        s.contains(store_delete(s, id)[k]),
        store_delete(s, id)[k].id != id,
    decreases s.len(),
{
    let out = store_delete(s, id);
    if s.len() > 0 {
        let rest = s.drop_first();
        if s[0].id == id {
            lemma_delete_member(rest, id, k);
            let w = choose|w: int| 0 <= w < rest.len() && rest[w] == store_delete(rest, id)[k];
            assert(s[w + 1] == rest[w]);
        } else if k == 0 {
            assert(out[0] == s[0]);
        } else {
            lemma_delete_member(rest, id, k - 1);
            assert(out[k] == store_delete(rest, id)[k - 1]);
            let w = choose|w: int| 0 <= w < rest.len() && rest[w] == store_delete(rest, id)[k - 1];
            assert(s[w + 1] == rest[w]);
        }
    }
}

/// Deletion keeps ids unique.
proof fn lemma_delete_keeps_unique(s: Seq<TodoView>, id: usize)
    requires
        unique_ids(s),
    ensures
        unique_ids(store_delete(s, id)),
    decreases s.len(),
{
    if s.len() > 0 {
        let rest = s.drop_first();
        assert forall|p: int, q: int| 0 <= p < q < rest.len() implies rest[p].id != rest[q].id by {
            assert(rest[p] == s[p + 1] && rest[q] == s[q + 1]);
        }
        lemma_delete_keeps_unique(rest, id);
        if s[0].id != id {
            let out = store_delete(s, id);
            let sub = store_delete(rest, id);
            assert forall|p: int, q: int| 0 <= p < q < out.len() implies out[p].id != out[q].id by {
                if p == 0 {
                    lemma_delete_member(rest, id, q - 1);
                    let w = choose|w: int| 0 <= w < rest.len() && rest[w] == sub[q - 1];
                    assert(s[w + 1] == rest[w]);
                    assert(s[0].id != s[w + 1].id);
                } else {
                    assert(out[p] == sub[p - 1] && out[q] == sub[q - 1]);
                }
            }
        }
    }
}

/// An in-place update keeps ids unique as long as the incoming id is the
/// addressed one or is absent elsewhere.
proof fn lemma_update_keeps_unique(s: Seq<TodoView>, id: usize, new: TodoView, i: int)
    requires
        unique_ids(s),
        0 <= i < s.len(),
        s[i].id == id,
        new.id == id || !has_id(s, new.id),
    ensures
        unique_ids(s.update(i, new)),
{
    let out = s.update(i, new);
    assert forall|p: int, q: int| 0 <= p < q < out.len() implies out[p].id != out[q].id by {
        if p == i || q == i {
            let other = if p == i { q } else { p };
            assert(out[other] == s[other]);
            if new.id == id {
                assert(s[other].id != s[i].id);
            } else {
                assert(!(0 <= other < s.len() && s[other].id == new.id));
            }
        } else {
            assert(out[p] == s[p] && out[q] == s[q]);
        }
    }
}

/// Uniqueness invariant: a store with unique ids keeps them unique under
/// create (of a fresh id), delete, and update (when the incoming id is the
/// addressed one or fresh).
pub proof fn lemma_ops_preserve_uniqueness(s: Seq<TodoView>, new: TodoView, id: usize)
    requires
        unique_ids(s),
    ensures
        !has_id(s, new.id) ==> unique_ids(store_create(s, new)),
        unique_ids(store_delete(s, id)),
        has_id(s, id) && (new.id == id || !has_id(s, new.id)) ==> unique_ids(
            store_update(s, id, new),
        ),
{
    if !has_id(s, new.id) {
        let out = store_create(s, new);
        assert forall|p: int, q: int| 0 <= p < q < out.len() implies out[p].id != out[q].id by {
            if q == out.len() - 1 {
                assert(!(0 <= p < s.len() && s[p].id == new.id));
            }
        }
    }
    lemma_delete_keeps_unique(s, id);
    if has_id(s, id) && (new.id == id || !has_id(s, new.id)) {
        let i = lemma_first_with_id(s, id);
        lemma_store_update_at_first(s, id, new, i);
        lemma_update_keeps_unique(s, id, new, i);
    }
}

/// Returns the first index carrying `id`.
proof fn lemma_first_with_id(s: Seq<TodoView>, id: usize) -> (i: int)
    requires
        has_id(s, id),
    ensures
        0 <= i < s.len(),
        s[i].id == id,
        forall|j: int| 0 <= j < i ==> s[j].id != id,
    decreases s.len(),
{
    if s[0].id == id {
        0
    } else {
        let rest = s.drop_first();
        let w = choose|w: int| 0 <= w < s.len() && s[w].id == id;
        assert(rest[w - 1] == s[w]);
        let k = lemma_first_with_id(rest, id);
        assert forall|j: int| 0 <= j < k + 1 implies s[j].id != id by {
            if j > 0 {
                assert(s[j] == rest[j - 1]);
            }
        }
        k + 1
    }
}

/// Deleting an id removes every record carrying it: a second delete of the
/// same id finds nothing.
pub proof fn lemma_delete_removes_id(s: Seq<TodoView>, id: usize)
    ensures
        !has_id(store_delete(s, id), id),
        store_delete(store_delete(s, id), id) == store_delete(s, id),
{
    let out = store_delete(s, id);
    assert forall|i: int| 0 <= i < out.len() implies out[i].id != id by {
        lemma_delete_member(s, id, i);
    }
    lemma_delete_absent(out, id);
}

/// Deleting an id that no record carries changes nothing.
pub proof fn lemma_delete_absent(s: Seq<TodoView>, id: usize)
    requires
        !has_id(s, id),
    ensures
        store_delete(s, id) == s,
    decreases s.len(),
{
    if s.len() > 0 {
        let rest = s.drop_first();
        assert forall|j: int| !(0 <= j < rest.len() && rest[j].id == id) by {
            if 0 <= j < rest.len() {
                assert(rest[j] == s[j + 1]);
            }
        }
        lemma_delete_absent(rest, id);
        assert(seq![s[0]] + rest =~= s);
    }
}

/// List fidelity for delete: exactly the records carrying other ids
/// survive.
pub proof fn lemma_delete_fidelity(s: Seq<TodoView>, id: usize)
    ensures
        forall|t: TodoView|
            #[trigger] store_delete(s, id).contains(t) <==> s.contains(t) && t.id != id,
{
    let out = store_delete(s, id);
    assert forall|t: TodoView| #[trigger] out.contains(t) implies s.contains(t) && t.id != id by {
        let k = choose|k: int| 0 <= k < out.len() && out[k] == t;
        lemma_delete_member(s, id, k);
    }
    assert forall|t: TodoView| s.contains(t) && t.id != id implies #[trigger] out.contains(t) by {
        lemma_delete_keeps_rev(s, id, t);
    }
}

/// A record carrying another id survives a deletion.
proof fn lemma_delete_keeps_rev(s: Seq<TodoView>, id: usize, t: TodoView)
    requires
        s.contains(t),
        t.id != id,
    ensures
        store_delete(s, id).contains(t),
    decreases s.len(),
{
    let out = store_delete(s, id);
    let k = choose|k: int| 0 <= k < s.len() && s[k] == t;
    if k == 0 {
        assert(out[0] == t);
    } else {
        let rest = s.drop_first();
        assert(rest[k - 1] == s[k]);
        lemma_delete_keeps_rev(rest, id, t);
        let j = choose|j: int| 0 <= j < store_delete(rest, id).len() && store_delete(rest, id)[j] == t;
        if s[0].id == id {
            assert(out[j] == t);
        } else {
            assert(out[j + 1] == store_delete(rest, id)[j]);
        }
    }
}

/// List fidelity for update: when ids are unique, updating the record at
/// its index replaces exactly that record, in place.
pub proof fn lemma_update_fidelity(s: Seq<TodoView>, id: usize, new: TodoView, i: int)
    requires
        unique_ids(s),
        0 <= i < s.len(),
        s[i].id == id,
    ensures
        store_update(s, id, new) == s.update(i, new),
{
    assert forall|j: int| 0 <= j < i implies s[j].id != id by {
        assert(s[j].id != s[i].id);
    }
    lemma_store_update_at_first(s, id, new, i);
}

/// What a whole run of create attempts does: each one appends its record
/// unless the id is already taken, in which case it changes nothing.
pub open spec fn apply_creates(s: Seq<TodoView>, news: Seq<TodoView>) -> Seq<TodoView>
    decreases news.len(),
{
    if news.len() == 0 {
        s
    } else {
        let next = if has_id(s, news[0].id) {
            s
        } else {
            store_create(s, news[0])
        };
        apply_creates(next, news.drop_first())
    }
}

/// Uniqueness invariant: under any sequence of create attempts, the store
/// never comes to hold two records with equal ids.
pub proof fn lemma_creates_keep_uniqueness(s: Seq<TodoView>, news: Seq<TodoView>)
    requires
        unique_ids(s),
    ensures
        unique_ids(apply_creates(s, news)),
    decreases news.len(),
{
    if news.len() > 0 {
        let next = if has_id(s, news[0].id) {
            s
        } else {
            store_create(s, news[0])
        };
        lemma_ops_preserve_uniqueness(s, news[0], 0);
        lemma_creates_keep_uniqueness(next, news.drop_first());
    }
}

} // verus!

