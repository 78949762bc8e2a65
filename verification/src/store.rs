//! The entity stores: an in-memory, ordered collection per entity kind with
//! create / list / get / update / delete, a fresh-id generator whose ids never
//! repeat, and the exact text to persist after each mutation. Callers hold a
//! store behind their own reader/writer exclusion and write the text out with
//! an atomic temp-file-and-rename step; nothing here touches disk.

use vstd::prelude::*;
use crate::errors::StoreError;
use crate::plan::{Plan, PlanV, PlanCreateInput, plans_view, copy_plan, enc_plans, save_plans};
use crate::recurrence::{sp_refresh_plan, refresh_plan};
use crate::date::{Date, sp_parse_date, parse_date};
use crate::todo::{Todo, TodoV, TodoCreateInput, todos_view, copy_todo, opt_view, enc_todos, save_todos};
use crate::digits::{sp_id_val, dec_digits, dec_value, pow10, id_val, to_dec, lemma_pow10_monotone, lemma_dec_digits_value};
use crate::text::{blank, is_blank};

verus! {

/// No two entities of the collection share an id.
pub open spec fn ids_unique(ts: Seq<TodoV>) -> bool {
    forall|i: int, j: int| 0 <= i < j < ts.len() ==> ts[i].id != ts[j].id
}

/// The index of the first entity with the given id.
pub open spec fn sp_find(ts: Seq<TodoV>, id: Seq<char>) -> Option<int>
    decreases ts.len(),
{
    if ts.len() == 0 {
        None
    } else if ts[0].id == id {
        Some(0)
    } else {
        match sp_find(ts.subrange(1, ts.len() as int), id) {
            Some(k) => Some(k + 1),
            None => None,
        }
    }
}

/// What `sp_find` returns: the first matching index, or nothing when no
/// entity matches.
pub proof fn lemma_find_spec(ts: Seq<TodoV>, id: Seq<char>)
    ensures
        sp_find(ts, id) is Some ==> 0 <= sp_find(ts, id).unwrap() < ts.len() && ts[sp_find(
            ts,
            id,
        ).unwrap()].id == id && (forall|j: int|
            0 <= j < sp_find(ts, id).unwrap() ==> ts[j].id != id),
        sp_find(ts, id) is None ==> forall|j: int| 0 <= j < ts.len() ==> ts[j].id != id,
    decreases ts.len(),
{
    if ts.len() > 0 {
        let sub = ts.subrange(1, ts.len() as int);
        lemma_find_spec(sub, id);
        assert(forall|j: int| 1 <= j < ts.len() ==> ts[j] == sub[j - 1]);
    }
}

/// The first matching index determines `sp_find`.
pub proof fn lemma_find_at(ts: Seq<TodoV>, id: Seq<char>, k: int)
    requires
        0 <= k < ts.len(),
        ts[k].id == id,
        forall|j: int| 0 <= j < k ==> ts[j].id != id,
    ensures
        sp_find(ts, id) == Some(k),
    decreases ts.len(),
{
    if k > 0 {
        let sub = ts.subrange(1, ts.len() as int);
        assert(forall|j: int| 1 <= j < ts.len() ==> ts[j] == sub[j - 1]);
        lemma_find_at(sub, id, k - 1);
    }
}

/// No matching index determines `sp_find`.
pub proof fn lemma_find_none(ts: Seq<TodoV>, id: Seq<char>)
    requires
        forall|j: int| 0 <= j < ts.len() ==> ts[j].id != id,
    ensures
        sp_find(ts, id) is None,
    decreases ts.len(),
{
    if ts.len() > 0 {
        let sub = ts.subrange(1, ts.len() as int);
        assert(forall|j: int| 1 <= j < ts.len() ==> ts[j] == sub[j - 1]);
        lemma_find_none(sub, id);
    }
}

/// The collection with every entity carrying the given id removed, order
/// otherwise kept.
pub open spec fn sp_remove(ts: Seq<TodoV>, id: Seq<char>) -> Seq<TodoV>
    decreases ts.len(),
{
    if ts.len() == 0 {
        Seq::empty()
    } else {
        let rest = sp_remove(ts.drop_last(), id);
        if ts.last().id == id {
            rest
        } else {
            rest.push(ts.last())
        }
    }
}

/// The task store: the ordered task collection, the path its file lives at,
/// and the id generator's high-water mark.
pub struct AppState {
    todos: Vec<Todo>,
    data_path: String,
    last_id: u128,
}

impl AppState {
    /// The views of the stored tasks, in order.
    pub closed spec fn todos_seq(&self) -> Seq<TodoV> {
        todos_view(self.todos@)
    }

    /// The id generator's high-water mark.
    pub closed spec fn counter(&self) -> int {
        self.last_id as int
    }

    /// The path the collection is persisted at.
    pub closed spec fn path(&self) -> Seq<char> {
        self.data_path@
    }

    /// The generator's mark never leaves the id space.
    pub closed spec fn inv(&self) -> bool {
        self.last_id <= pow10(37nat)
    }

    /// There is room for a fresh id: the mark and every numeric id in the
    /// store sit strictly below the top of the id space.
    pub open spec fn id_headroom(&self) -> bool {
        self.counter() < pow10(37nat) - 1 && (forall|k: int|
            0 <= k < self.todos_seq().len() ==> (#[trigger] sp_id_val(
                self.todos_seq()[k].id,
                Seq::<char>::empty(),
            ) matches Some(v) ==> v < pow10(37nat) - 1))
    }

    /// A store over an initial collection, as loaded from disk.
    pub fn new(data_path: String, initial: Vec<Todo>) -> (r: AppState)
        ensures
            r.todos_seq() == todos_view(initial@),
            r.counter() == 0,
            r.path() == data_path@,
            r.inv(),
    {
        proof {
            lemma_pow10_monotone(0, 37);
        }
        AppState { todos: initial, data_path: data_path, last_id: 0 }
    }

    /// A full copy of the collection, safe to read without any lock.
    pub fn snapshot(&self) -> (r: Vec<Todo>)
        ensures
            todos_view(r@) == self.todos_seq(),
    {
        copy_todos(&self.todos)
    }

    /// The exact file content to persist for the current collection.
    pub fn save_text(&self) -> (r: String)
        ensures
            r@ == enc_todos(self.todos_seq()),
    {
        save_todos(&self.todos)
    }

    /// The path the collection is persisted at.
    pub fn data_path(&self) -> (r: &String)
        ensures
            r@ == self.path(),
    {
        &self.data_path
    }
}

/// A field-for-field copy of a task collection.
pub fn copy_todos(ts: &Vec<Todo>) -> (r: Vec<Todo>)
    ensures
        todos_view(r@) == todos_view(ts@),
{
    let mut out: Vec<Todo> = Vec::new();
    let mut i: usize = 0;
    proof {
        assert(todos_view(out@) =~= todos_view(ts@).subrange(0, 0));
    }
    while i < ts.len()
        invariant
            0 <= i <= ts@.len(),
            out@.len() == i,
            todos_view(out@) == todos_view(ts@).subrange(0, i as int),
        decreases ts@.len() - i,
    {
        out.push(copy_todo(&ts[i]));
        proof {
            assert(todos_view(out@) =~= todos_view(ts@).subrange(0, i + 1 as int));
        }
        i += 1;
    }
    proof {
        assert(todos_view(ts@).subrange(0, ts@.len() as int) =~= todos_view(ts@));
    }
    out
}

/// A full copy of the collection; reads never block other reads.
pub fn todo_list(state: &AppState) -> (r: Vec<Todo>)
    ensures
        todos_view(r@) == state.todos_seq(),
{
    state.snapshot()
}

/// The first task with the given id, or `NotFound`.
pub fn todo_get(state: &AppState, id: &String) -> (r: Result<Todo, StoreError>)
    ensures
        match r {
            Ok(t) => sp_find(state.todos_seq(), id@) is Some && t@ == state.todos_seq()[sp_find(
                state.todos_seq(),
                id@,
            ).unwrap()],
            Err(e) => e == StoreError::NotFound && sp_find(state.todos_seq(), id@) is None,
        },
{
    let ghost ts = state.todos_seq();
    let items = &state.todos;
    let mut i: usize = 0;
    while i < items.len()
        invariant
            ts == todos_view(items@),
            ts == state.todos_seq(),
            0 <= i <= items@.len(),
            forall|j: int| 0 <= j < i ==> ts[j].id != id@,
        decreases items@.len() - i,
    {
        if items[i].id.eq(id) {
            proof {
                assert(ts[i as int] == items@[i as int]@);
                lemma_find_at(ts, id@, i as int);
            }
            let result = copy_todo(&items[i]);
            proof {
                assert(result@ == state.todos_seq()[i as int]);
            }
            return Ok(result);
        }
        i += 1;
    }
    proof {
        lemma_find_none(ts, id@);
    }
    Err(StoreError::NotFound)
}

/// Replaces the task with the given entity's id by that entity, whole; the
/// collection's length and order are unchanged, and the given value is
/// returned. `NotFound` when no task carries the id.
pub fn todo_update(state: &mut AppState, todo: Todo) -> (r: Result<Todo, StoreError>)
    ensures
        final(state).counter() == old(state).counter(),
        final(state).path() == old(state).path(),
        final(state).inv() == old(state).inv(),
        match r {
            Ok(t) => sp_find(old(state).todos_seq(), todo@.id) is Some && final(state).todos_seq()
                == old(state).todos_seq().update(
                sp_find(old(state).todos_seq(), todo@.id).unwrap(),
                todo@,
            ) && t@ == todo@,
            Err(e) => e == StoreError::NotFound && sp_find(old(state).todos_seq(), todo@.id)
                is None && final(state).todos_seq() == old(state).todos_seq(),
        },
{
    let ghost ts = old(state).todos_seq();
    let n = state.todos.len();
    let mut i: usize = 0;
    while i < n
        invariant
            *state == *old(state),
            n == state.todos@.len(),
            ts == todos_view(state.todos@),
            0 <= i <= n,
            forall|j: int| 0 <= j < i ==> ts[j].id != todo@.id,
        decreases n - i,
    {
        if state.todos[i].id.eq(&todo.id) {
            proof {
                assert(ts[i as int] == state.todos@[i as int]@);
                lemma_find_at(ts, todo@.id, i as int);
            }
            let result = copy_todo(&todo);
            let mut out: Vec<Todo> = Vec::new();
            let mut k: usize = 0;
            proof {
                assert(todos_view(out@) =~= ts.update(i as int, todo@).subrange(0, 0));
            }
            while k < n
                invariant
                    *state == *old(state),
                    n == state.todos@.len(),
                    ts == todos_view(state.todos@),
                    0 <= k <= n,
                    i < n,
                    out@.len() == k,
                    todo@ == result@,
                    todos_view(out@) == ts.update(i as int, todo@).subrange(0, k as int),
                decreases n - k,
            {
                if k == i {
                    out.push(copy_todo(&result));
                } else {
                    out.push(copy_todo(&state.todos[k]));
                }
                proof {
                    assert(todos_view(out@) =~= ts.update(i as int, todo@).subrange(
                        0,
                        k + 1 as int,
                    ));
                }
                k += 1;
            }
            state.todos = out;
            proof {
                assert(ts.update(i as int, todo@).subrange(0, n as int) =~= ts.update(
                    i as int,
                    todo@,
                ));
            }
            return Ok(result);
        }
        i += 1;
    }
    proof {
        lemma_find_none(ts, todo@.id);
    }
    Err(StoreError::NotFound)
}

/// One above the largest decimal id the generator may issue.
pub const ID_SPACE: u128 = 10000000000000000000000000000000000000;

/// Creates a task: validates the title (`InvalidInput` when blank after
/// trimming), synthesizes a fresh id strictly above both the generator's mark
/// and every numeric id already stored, appends the new task, and returns a
/// copy of it. The caller persists `save_text()` afterwards; the id is a
/// decimal token at least the supplied time `now`, so rapid successive
/// creations still get strictly increasing, distinct ids.
pub fn todo_create(state: &mut AppState, input: TodoCreateInput, now: u64, today: String) -> (r:
    Result<Todo, StoreError>)
    requires
        old(state).inv(),
    ensures
        final(state).inv(),
        final(state).path() == old(state).path(),
        r is Err <==> is_blank(input.title@),
        match r {
            Ok(t) => {
                &&& final(state).todos_seq() == old(state).todos_seq().push(t@)
                &&& t@.title == input.title@
                &&& t@.description == (match input.description {
                    Some(d) => d@,
                    None => Seq::<char>::empty(),
                })
                &&& t@.completed == false
                &&& t@.important == (match input.important {
                    Some(b) => b,
                    None => false,
                })
                &&& t@.due_date == opt_view(input.due_date)
                &&& t@.created_at == today@
                &&& t@.completed_at is None
                &&& t@.priority == (match input.priority {
                    Some(p) => p@,
                    None => "medium"@,
                })
                &&& t@.category == (match input.category {
                    Some(c) => c@,
                    None => Seq::<char>::empty(),
                })
                &&& t@.from_plan_id == opt_view(input.from_plan_id)
                &&& t@.id == dec_digits(final(state).counter() as nat)
                &&& final(state).counter() >= old(state).counter()
                &&& (old(state).id_headroom() ==> {
                    &&& final(state).counter() > old(state).counter()
                    &&& final(state).counter() > now
                    &&& (forall|k: int|
                        0 <= k < old(state).todos_seq().len() ==> old(state).todos_seq()[k].id
                            != t@.id)
                    &&& (ids_unique(old(state).todos_seq()) ==> ids_unique(
                        final(state).todos_seq(),
                    ))
                })
            },
            Err(e) => e == StoreError::InvalidInput && final(state).todos_seq() == old(
                state,
            ).todos_seq() && final(state).counter() == old(state).counter(),
        },
{
    if blank(input.title.as_str()) {
        return Err(StoreError::InvalidInput);
    }
    let ghost ts = old(state).todos_seq();
    let n = state.todos.len();
    let mut m: u128 = 0;
    let mut i: usize = 0;
    proof {
        reveal_strlit("");
        assert(""@ =~= Seq::<char>::empty());
        assert(pow10(37nat) == 10000000000000000000000000000000000000) by {
            reveal_with_fuel(pow10, 38);
        }
    }
    while i < n
        invariant
            *state == *old(state),
            n == state.todos@.len(),
            ts == todos_view(state.todos@),
            ts == state.todos_seq(),
            ""@ == Seq::<char>::empty(),
            pow10(37nat) == 10000000000000000000000000000000000000,
            0 <= i <= n,
            m < pow10(37nat),
            m == 0 || exists|j: int|
                0 <= j < i && #[trigger] sp_id_val(ts[j].id, Seq::<char>::empty()) == Some(
                    m as int,
                ),
            forall|j: int|
                0 <= j < i ==> (#[trigger] sp_id_val(ts[j].id, Seq::<char>::empty())
                    matches Some(v) ==> v <= m),
        decreases n - i,
    {
        proof {
            assert(ts[i as int] == state.todos@[i as int]@);
        }
        match id_val(state.todos[i].id.as_str(), "") {
            Some(v) => {
                proof {
                    let tail = ts[i as int].id.skip(0);
                    assert(tail =~= ts[i as int].id);
                    crate::digits::lemma_dec_value_bound(tail);
                    lemma_pow10_monotone(tail.len() as nat, 37nat);
                }
                if v > m {
                    m = v;
                }
            },
            None => {},
        }
        i += 1;
    }
    let base: u128 = if (now as u128) > state.last_id {
        now as u128
    } else {
        state.last_id
    };
    let c0: u128 = if m > base {
        m + 1
    } else {
        base + 1
    };
    let c: u128 = if c0 > ID_SPACE {
        ID_SPACE
    } else {
        c0
    };
    let id_string = to_dec(c);
    let t = Todo {
        id: id_string,
        title: input.title,
        description: match input.description {
            Some(d) => d,
            None => String::new(),
        },
        completed: false,
        important: match input.important {
            Some(b) => b,
            None => false,
        },
        due_date: input.due_date,
        created_at: today,
        completed_at: None,
        priority: match input.priority {
            Some(p) => p,
            None => String::from_str("medium"),
        },
        category: match input.category {
            Some(cat) => cat,
            None => String::new(),
        },
        from_plan_id: input.from_plan_id,
    };
    let ghost tv = t@;
    let result = copy_todo(&t);
    state.todos.push(t);
    state.last_id = c;
    proof {
        assert(todos_view(state.todos@) =~= ts.push(tv));
        assert(pow10(37nat) == 10000000000000000000000000000000000000) by {
            reveal_with_fuel(pow10, 38);
        }
        if old(state).id_headroom() {
            assert((now as u128) < pow10(37nat) - 1) by {
                assert(now <= u64::MAX);
            }
            assert(m < pow10(37nat) - 1);
            assert(c == c0 && c < pow10(37nat));
            lemma_dec_digits_value(c as nat);
            crate::digits::lemma_dec_digits_len(c as nat, 37nat);
            assert forall|k: int| 0 <= k < ts.len() implies ts[k].id != tv.id by {
                if ts[k].id == tv.id {
                    assert(tv.id == dec_digits(c as nat));
                    assert(tv.id.subrange(0, 0) =~= Seq::<char>::empty());
                    assert(tv.id.skip(0) =~= dec_digits(c as nat));
                    assert(sp_id_val(ts[k].id, Seq::<char>::empty()) == Some(
                        dec_value(dec_digits(c as nat)),
                    ));
                    assert(dec_value(dec_digits(c as nat)) == c as int);
                }
            }
            if ids_unique(ts) {
                let nts = ts.push(tv);
                assert forall|a: int, b: int| 0 <= a < b < nts.len() implies nts[a].id != nts[b].id
                    by {
                    if b < ts.len() {
                        assert(nts[a] == ts[a] && nts[b] == ts[b]);
                    } else {
                        assert(nts[b] == tv && nts[a] == ts[a]);
                    }
                }
            }
        }
    }
    Ok(result)
}

/// Removes every task with the given id (at most one when ids are unique);
/// `NotFound`, and no change, when none carries it.
pub fn todo_delete(state: &mut AppState, id: &String) -> (r: Result<bool, StoreError>)
    ensures
        final(state).counter() == old(state).counter(),
        final(state).path() == old(state).path(),
        final(state).inv() == old(state).inv(),
        match r {
            Ok(b) => b && (exists|k: int|
                0 <= k < old(state).todos_seq().len() && old(state).todos_seq()[k].id == id@)
                && final(state).todos_seq() == sp_remove(old(state).todos_seq(), id@),
            Err(e) => e == StoreError::NotFound && (forall|k: int|
                0 <= k < old(state).todos_seq().len() ==> old(state).todos_seq()[k].id != id@)
                && final(state).todos_seq() == old(state).todos_seq(),
        },
{
    let ghost ts = old(state).todos_seq();
    let n = state.todos.len();
    let mut out: Vec<Todo> = Vec::new();
    let mut found = false;
    let mut k: usize = 0;
    proof {
        assert(todos_view(out@) =~= sp_remove(ts.subrange(0, 0), id@));
    }
    while k < n
        invariant
            *state == *old(state),
            n == state.todos@.len(),
            ts == todos_view(state.todos@),
            0 <= k <= n,
            todos_view(out@) == sp_remove(ts.subrange(0, k as int), id@),
            found == exists|j: int| 0 <= j < k && ts[j].id == id@,
        decreases n - k,
    {
        let ghost pre = ts.subrange(0, k as int);
        let ghost post = ts.subrange(0, k + 1 as int);
        proof {
            assert(post.drop_last() =~= pre);
            assert(post.last() == ts[k as int]);
            assert(ts[k as int] == state.todos@[k as int]@);
        }
        if state.todos[k].id.eq(id) {
            found = true;
            proof {
                assert(ts[k as int].id == id@);
                assert(todos_view(out@) =~= sp_remove(post, id@));
            }
        } else {
            out.push(copy_todo(&state.todos[k]));
            proof {
                assert(todos_view(out@) =~= sp_remove(post, id@));
            }
        }
        k += 1;
    }
    proof {
        assert(ts.subrange(0, n as int) =~= ts);
    }
    if !found {
        return Err(StoreError::NotFound);
    }
    state.todos = out;
    Ok(true)
}

/// After a successful whole-entity replace, looking the id up returns exactly
/// the replaced entity, and the collection's length is unchanged.
pub proof fn lemma_update_then_get(ts: Seq<TodoV>, t: TodoV)
    requires
        ids_unique(ts),
        sp_find(ts, t.id) is Some,
    ensures
        ts.update(sp_find(ts, t.id).unwrap(), t).len() == ts.len(),
        sp_find(ts.update(sp_find(ts, t.id).unwrap(), t), t.id) == sp_find(ts, t.id),
        ts.update(sp_find(ts, t.id).unwrap(), t)[sp_find(ts, t.id).unwrap()] == t,
{
    lemma_find_spec(ts, t.id);
    let k = sp_find(ts, t.id).unwrap();
    let ts2 = ts.update(k, t);
    assert(forall|j: int| 0 <= j < k ==> ts2[j].id != t.id);
    lemma_find_at(ts2, t.id, k);
}

// ------------------------------------------------------------------
// the plan store
// ------------------------------------------------------------------

/// No two plans of the collection share an id.
pub open spec fn plan_ids_unique(ps: Seq<PlanV>) -> bool {
    forall|i: int, j: int| 0 <= i < j < ps.len() ==> ps[i].id != ps[j].id
}

/// The index of the first plan with the given id.
pub open spec fn sp_find_plan(ps: Seq<PlanV>, id: Seq<char>) -> Option<int>
    decreases ps.len(),
{
    if ps.len() == 0 {
        None
    } else if ps[0].id == id {
        Some(0)
    } else {
        match sp_find_plan(ps.subrange(1, ps.len() as int), id) {
            Some(k) => Some(k + 1),
            None => None,
        }
    }
}

/// The first matching index determines `sp_find_plan`.
pub proof fn lemma_find_plan_at(ps: Seq<PlanV>, id: Seq<char>, k: int)
    requires
        0 <= k < ps.len(),
        ps[k].id == id,
        forall|j: int| 0 <= j < k ==> ps[j].id != id,
    ensures
        sp_find_plan(ps, id) == Some(k),
    decreases ps.len(),
{
    if k > 0 {
        let sub = ps.subrange(1, ps.len() as int);
        assert(forall|j: int| 1 <= j < ps.len() ==> ps[j] == sub[j - 1]);
        lemma_find_plan_at(sub, id, k - 1);
    }
}

/// No matching index determines `sp_find_plan`.
pub proof fn lemma_find_plan_none(ps: Seq<PlanV>, id: Seq<char>)
    requires
        forall|j: int| 0 <= j < ps.len() ==> ps[j].id != id,
    ensures
        sp_find_plan(ps, id) is None,
    decreases ps.len(),
{
    if ps.len() > 0 {
        let sub = ps.subrange(1, ps.len() as int);
        assert(forall|j: int| 1 <= j < ps.len() ==> ps[j] == sub[j - 1]);
        lemma_find_plan_none(sub, id);
    }
}

/// The plan collection with every plan carrying the given id removed.
pub open spec fn sp_remove_plan(ps: Seq<PlanV>, id: Seq<char>) -> Seq<PlanV>
    decreases ps.len(),
{
    if ps.len() == 0 {
        Seq::empty()
    } else {
        let rest = sp_remove_plan(ps.drop_last(), id);
        if ps.last().id == id {
            rest
        } else {
            rest.push(ps.last())
        }
    }
}

/// Every plan after one refresh step over the given "today".
pub open spec fn sp_refresh_all(ps: Seq<PlanV>, today_s: Seq<char>, td: Date) -> Seq<PlanV> {
    Seq::new(ps.len(), |i: int| sp_refresh_plan(ps[i], today_s, td))
}

/// The plan store: the ordered plan collection, the path its file lives at,
/// and the id generator's high-water mark.
pub struct PlanState {
    plans: Vec<Plan>,
    data_path: String,
    last_id: u128,
}

impl PlanState {
    /// The views of the stored plans, in order.
    pub closed spec fn plans_seq(&self) -> Seq<PlanV> {
        plans_view(self.plans@)
    }

    /// The id generator's high-water mark.
    pub closed spec fn counter(&self) -> int {
        self.last_id as int
    }

    /// The path the collection is persisted at.
    pub closed spec fn path(&self) -> Seq<char> {
        self.data_path@
    }

    /// The generator's mark never leaves the id space.
    pub closed spec fn inv(&self) -> bool {
        self.last_id <= pow10(37nat)
    }

    /// There is room for a fresh id: the mark and every numeric plan id in
    /// the store sit strictly below the top of the id space.
    pub open spec fn id_headroom(&self) -> bool {
        self.counter() < pow10(37nat) - 1 && (forall|k: int|
            0 <= k < self.plans_seq().len() ==> (#[trigger] sp_id_val(
                self.plans_seq()[k].id,
                "plan-"@,
            ) matches Some(v) ==> v < pow10(37nat) - 1))
    }

    /// A store over an initial collection, as loaded from disk.
    pub fn new(data_path: String, initial: Vec<Plan>) -> (r: PlanState)
        ensures
            r.plans_seq() == plans_view(initial@),
            r.counter() == 0,
            r.path() == data_path@,
            r.inv(),
    {
        proof {
            lemma_pow10_monotone(0, 37);
        }
        PlanState { plans: initial, data_path: data_path, last_id: 0 }
    }

    /// A full copy of the collection, safe to read without any lock.
    pub fn snapshot(&self) -> (r: Vec<Plan>)
        ensures
            plans_view(r@) == self.plans_seq(),
    {
        copy_plans(&self.plans)
    }

    /// The exact file content to persist for the current collection.
    pub fn save_text(&self) -> (r: String)
        ensures
            r@ == enc_plans(self.plans_seq()),
    {
        save_plans(&self.plans)
    }

    /// The path the collection is persisted at.
    pub fn data_path(&self) -> (r: &String)
        ensures
            r@ == self.path(),
    {
        &self.data_path
    }
}

/// A field-for-field copy of a plan collection.
pub fn copy_plans(ps: &Vec<Plan>) -> (r: Vec<Plan>)
    ensures
        plans_view(r@) == plans_view(ps@),
{
    let mut out: Vec<Plan> = Vec::new();
    let mut i: usize = 0;
    proof {
        assert(plans_view(out@) =~= plans_view(ps@).subrange(0, 0));
    }
    while i < ps.len()
        invariant
            0 <= i <= ps@.len(),
            out@.len() == i,
            plans_view(out@) == plans_view(ps@).subrange(0, i as int),
        decreases ps@.len() - i,
    {
        out.push(copy_plan(&ps[i]));
        proof {
            assert(plans_view(out@) =~= plans_view(ps@).subrange(0, i + 1 as int));
        }
        i += 1;
    }
    proof {
        assert(plans_view(ps@).subrange(0, ps@.len() as int) =~= plans_view(ps@));
    }
    out
}

/// A full copy of the plan collection; reads never block other reads.
pub fn plan_list(state: &PlanState) -> (r: Vec<Plan>)
    ensures
        plans_view(r@) == state.plans_seq(),
{
    state.snapshot()
}

/// Creates a plan: validates the title (`InvalidInput` when blank after
/// trimming), synthesizes a fresh `plan-` id strictly above both the
/// generator's mark and every numeric plan id already stored, appends the new
/// plan with zeroed counters and today as its creation and reset date, and
/// returns a copy of it.
pub fn plan_create(state: &mut PlanState, input: PlanCreateInput, now: u64, today: String) -> (r:
    Result<Plan, StoreError>)
    requires
        old(state).inv(),
    ensures
        final(state).inv(),
        final(state).path() == old(state).path(),
        r is Err <==> is_blank(input.title@),
        match r {
            Ok(p) => {
                &&& final(state).plans_seq() == old(state).plans_seq().push(p@)
                &&& p@.title == input.title@
                &&& p@.description == input.description@
                &&& p@.repeat_cycle == input.repeat_cycle@
                &&& p@.plan_days == input.plan_days@
                &&& p@.start_time == input.start_time@
                &&& p@.end_time == input.end_time@
                &&& p@.repeat_count == input.repeat_count
                &&& p@.current_count == 0
                &&& p@.cycle_target_count == input.cycle_target_count
                &&& p@.total_completed_count == 0
                &&& p@.last_reset_date == today@
                &&& p@.created_at == today@
                &&& p@.category == input.category@
                &&& p@.active == input.active
                &&& p@.important == input.important
                &&& p@.id == "plan-"@ + dec_digits(final(state).counter() as nat)
                &&& final(state).counter() >= old(state).counter()
                &&& (old(state).id_headroom() ==> {
                    &&& final(state).counter() > old(state).counter()
                    &&& final(state).counter() > now
                    &&& (forall|k: int|
                        0 <= k < old(state).plans_seq().len() ==> old(state).plans_seq()[k].id
                            != p@.id)
                    &&& (plan_ids_unique(old(state).plans_seq()) ==> plan_ids_unique(
                        final(state).plans_seq(),
                    ))
                })
            },
            Err(e) => e == StoreError::InvalidInput && final(state).plans_seq() == old(
                state,
            ).plans_seq() && final(state).counter() == old(state).counter(),
        },
{
    if blank(input.title.as_str()) {
        return Err(StoreError::InvalidInput);
    }
    let ghost ps = old(state).plans_seq();
    let n = state.plans.len();
    let mut m: u128 = 0;
    let mut i: usize = 0;
    proof {
        assert(pow10(37nat) == 10000000000000000000000000000000000000) by {
            reveal_with_fuel(pow10, 38);
        }
    }
    while i < n
        invariant
            *state == *old(state),
            n == state.plans@.len(),
            ps == plans_view(state.plans@),
            ps == state.plans_seq(),
            pow10(37nat) == 10000000000000000000000000000000000000,
            0 <= i <= n,
            m < pow10(37nat),
            m == 0 || exists|j: int|
                0 <= j < i && #[trigger] sp_id_val(ps[j].id, "plan-"@) == Some(m as int),
            forall|j: int|
                0 <= j < i ==> (#[trigger] sp_id_val(ps[j].id, "plan-"@) matches Some(v) ==> v
                    <= m),
        decreases n - i,
    {
        proof {
            assert(ps[i as int] == state.plans@[i as int]@);
        }
        match id_val(state.plans[i].id.as_str(), "plan-") {
            Some(v) => {
                proof {
                    let pl = "plan-"@.len() as int;
                    let tail = ps[i as int].id.skip(pl);
                    crate::digits::lemma_dec_value_bound(tail);
                    lemma_pow10_monotone(tail.len() as nat, 37nat);
                }
                if v > m {
                    m = v;
                }
            },
            None => {},
        }
        i += 1;
    }
    let base: u128 = if (now as u128) > state.last_id {
        now as u128
    } else {
        state.last_id
    };
    let c0: u128 = if m > base {
        m + 1
    } else {
        base + 1
    };
    let c: u128 = if c0 > ID_SPACE {
        ID_SPACE
    } else {
        c0
    };
    let mut id_string = String::from_str("plan-");
    crate::digits::push_dec(&mut id_string, c);
    let p = Plan {
        id: id_string,
        title: input.title,
        description: input.description,
        repeat_cycle: input.repeat_cycle,
        plan_days: input.plan_days,
        start_time: input.start_time,
        end_time: input.end_time,
        repeat_count: input.repeat_count,
        current_count: 0,
        cycle_target_count: input.cycle_target_count,
        total_completed_count: 0,
        last_reset_date: today.clone(),
        created_at: today,
        category: input.category,
        active: input.active,
        important: input.important,
    };
    let ghost pv = p@;
    let result = copy_plan(&p);
    state.plans.push(p);
    state.last_id = c;
    proof {
        assert(plans_view(state.plans@) =~= ps.push(pv));
        assert(pow10(37nat) == 10000000000000000000000000000000000000) by {
            reveal_with_fuel(pow10, 38);
        }
        if old(state).id_headroom() {
            assert((now as u128) < pow10(37nat) - 1) by {
                assert(now <= u64::MAX);
            }
            assert(m < pow10(37nat) - 1);
            assert(c == c0 && c < pow10(37nat));
            lemma_dec_digits_value(c as nat);
            crate::digits::lemma_dec_digits_len(c as nat, 37nat);
            let pre = "plan-"@;
            assert forall|k: int| 0 <= k < ps.len() implies ps[k].id != pv.id by {
                if ps[k].id == pv.id {
                    assert(pv.id == pre + dec_digits(c as nat));
                    assert(pv.id.subrange(0, pre.len() as int) =~= pre);
                    assert(pv.id.skip(pre.len() as int) =~= dec_digits(c as nat));
                    assert(sp_id_val(ps[k].id, pre) == Some(
                        dec_value(dec_digits(c as nat)),
                    ));
                    assert(dec_value(dec_digits(c as nat)) == c as int);
                }
            }
            if plan_ids_unique(ps) {
                let nps = ps.push(pv);
                assert forall|a: int, b: int|
                    0 <= a < b < nps.len() implies nps[a].id != nps[b].id by {
                    if b < ps.len() {
                        assert(nps[a] == ps[a] && nps[b] == ps[b]);
                    } else {
                        assert(nps[b] == pv && nps[a] == ps[a]);
                    }
                }
            }
        }
    }
    Ok(result)
}

/// Replaces the plan with the given entity's id by that entity, whole; the
/// collection's length and order are unchanged, and the given value is
/// returned. `NotFound` when no plan carries the id.
pub fn plan_update(state: &mut PlanState, plan: Plan) -> (r: Result<Plan, StoreError>)
    ensures
        final(state).counter() == old(state).counter(),
        final(state).path() == old(state).path(),
        final(state).inv() == old(state).inv(),
        match r {
            Ok(p) => sp_find_plan(old(state).plans_seq(), plan@.id) is Some
                && final(state).plans_seq() == old(state).plans_seq().update(
                sp_find_plan(old(state).plans_seq(), plan@.id).unwrap(),
                plan@,
            ) && p@ == plan@,
            Err(e) => e == StoreError::NotFound && sp_find_plan(old(state).plans_seq(), plan@.id)
                is None && final(state).plans_seq() == old(state).plans_seq(),
        },
{
    let ghost ps = old(state).plans_seq();
    let n = state.plans.len();
    let mut i: usize = 0;
    while i < n
        invariant
            *state == *old(state),
            n == state.plans@.len(),
            ps == plans_view(state.plans@),
            0 <= i <= n,
            forall|j: int| 0 <= j < i ==> ps[j].id != plan@.id,
        decreases n - i,
    {
        if state.plans[i].id.eq(&plan.id) {
            proof {
                assert(ps[i as int] == state.plans@[i as int]@);
                lemma_find_plan_at(ps, plan@.id, i as int);
            }
            let result = copy_plan(&plan);
            let mut out: Vec<Plan> = Vec::new();
            let mut k: usize = 0;
            proof {
                assert(plans_view(out@) =~= ps.update(i as int, plan@).subrange(0, 0));
            }
            while k < n
                invariant
                    *state == *old(state),
                    n == state.plans@.len(),
                    ps == plans_view(state.plans@),
                    0 <= k <= n,
                    i < n,
                    out@.len() == k,
                    plan@ == result@,
                    plans_view(out@) == ps.update(i as int, plan@).subrange(0, k as int),
                decreases n - k,
            {
                if k == i {
                    out.push(copy_plan(&result));
                } else {
                    out.push(copy_plan(&state.plans[k]));
                }
                proof {
                    assert(plans_view(out@) =~= ps.update(i as int, plan@).subrange(
                        0,
                        k + 1 as int,
                    ));
                }
                k += 1;
            }
            state.plans = out;
            proof {
                assert(ps.update(i as int, plan@).subrange(0, n as int) =~= ps.update(
                    i as int,
                    plan@,
                ));
            }
            return Ok(result);
        }
        i += 1;
    }
    proof {
        lemma_find_plan_none(ps, plan@.id);
    }
    Err(StoreError::NotFound)
}

/// Removes every plan with the given id; `NotFound`, and no change, when none
/// carries it.
pub fn plan_delete(state: &mut PlanState, id: &String) -> (r: Result<bool, StoreError>)
    ensures
        final(state).counter() == old(state).counter(),
        final(state).path() == old(state).path(),
        final(state).inv() == old(state).inv(),
        match r {
            Ok(b) => b && (exists|k: int|
                0 <= k < old(state).plans_seq().len() && old(state).plans_seq()[k].id == id@)
                && final(state).plans_seq() == sp_remove_plan(old(state).plans_seq(), id@),
            Err(e) => e == StoreError::NotFound && (forall|k: int|
                0 <= k < old(state).plans_seq().len() ==> old(state).plans_seq()[k].id != id@)
                && final(state).plans_seq() == old(state).plans_seq(),
        },
{
    let ghost ps = old(state).plans_seq();
    let n = state.plans.len();
    let mut out: Vec<Plan> = Vec::new();
    let mut found = false;
    let mut k: usize = 0;
    proof {
        assert(plans_view(out@) =~= sp_remove_plan(ps.subrange(0, 0), id@));
    }
    while k < n
        invariant
            *state == *old(state),
            n == state.plans@.len(),
            ps == plans_view(state.plans@),
            0 <= k <= n,
            plans_view(out@) == sp_remove_plan(ps.subrange(0, k as int), id@),
            found == exists|j: int| 0 <= j < k && ps[j].id == id@,
        decreases n - k,
    {
        let ghost pre = ps.subrange(0, k as int);
        let ghost post = ps.subrange(0, k + 1 as int);
        proof {
            assert(post.drop_last() =~= pre);
            assert(post.last() == ps[k as int]);
            assert(ps[k as int] == state.plans@[k as int]@);
        }
        if state.plans[k].id.eq(id) {
            found = true;
            proof {
                assert(ps[k as int].id == id@);
                assert(plans_view(out@) =~= sp_remove_plan(post, id@));
            }
        } else {
            out.push(copy_plan(&state.plans[k]));
            proof {
                assert(plans_view(out@) =~= sp_remove_plan(post, id@));
            }
        }
        k += 1;
    }
    proof {
        assert(ps.subrange(0, n as int) =~= ps);
    }
    if !found {
        return Err(StoreError::NotFound);
    }
    state.plans = out;
    Ok(true)
}

/// Applies one refresh step to every plan under a single exclusive section
/// and returns the resulting snapshot; `DateParseError`, and no change, when
/// "today" itself does not parse. The caller persists `save_text()` once for
/// the whole batch afterwards.
pub fn plan_refresh(state: &mut PlanState, today: &String) -> (r: Result<Vec<Plan>, StoreError>)
    ensures
        final(state).counter() == old(state).counter(),
        final(state).path() == old(state).path(),
        final(state).inv() == old(state).inv(),
        match r {
            Ok(v) => sp_parse_date(today@) is Some && final(state).plans_seq() == sp_refresh_all(
                old(state).plans_seq(),
                today@,
                sp_parse_date(today@).unwrap(),
            ) && plans_view(v@) == final(state).plans_seq(),
            Err(e) => e == StoreError::DateParseError && sp_parse_date(today@) is None
                && final(state).plans_seq() == old(state).plans_seq(),
        },
{
    let ghost ps = old(state).plans_seq();
    let Some(td) = parse_date(today.as_str()) else { return Err(StoreError::DateParseError) };
    let n = state.plans.len();
    let mut out: Vec<Plan> = Vec::new();
    let mut i: usize = 0;
    while i < n
        invariant
            *state == *old(state),
            n == state.plans@.len(),
            ps == plans_view(state.plans@),
            sp_parse_date(today@) == Some(td),
            crate::date::valid_date(td),
            0 <= i <= n,
            out@.len() == i,
            forall|j: int|
                0 <= j < i ==> plans_view(out@)[j] == #[trigger] sp_refresh_plan(
                    ps[j],
                    today@,
                    td,
                ),
        decreases n - i,
    {
        proof {
            assert(ps[i as int] == state.plans@[i as int]@);
        }
        let ghost before = plans_view(out@);
        let rp = refresh_plan(&state.plans[i], today, td);
        let ghost rv = rp@;
        out.push(rp);
        proof {
            assert(forall|j: int| 0 <= j < i ==> plans_view(out@)[j] == before[j]);
            assert(plans_view(out@)[i as int] == rv);
            assert(rv == sp_refresh_plan(ps[i as int], today@, td));
            assert(forall|j: int|
                0 <= j < i + 1 ==> plans_view(out@)[j] == #[trigger] sp_refresh_plan(
                    ps[j],
                    today@,
                    td,
                ));
        }
        i += 1;
    }
    let snap = copy_plans(&out);
    state.plans = out;
    proof {
        assert(plans_view(state.plans@) =~= sp_refresh_all(ps, today@, td));
    }
    Ok(snap)
}

} // verus!
