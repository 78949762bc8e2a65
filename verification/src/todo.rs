//! The one-off task entity, its mathematical view, and its persisted form: a
//! record in the store's JSON-style array file. `enc_todos` is the exact file
//! content for a collection, `sp_load_todos` what reading that content back
//! yields, and `lemma_todos_roundtrip` the fact that the two compose to the
//! identity.

use vstd::prelude::*;
use crate::codec::{
    enc_string, enc_bool, enc_opt_string, sp_field_str, sp_field_bool, sp_field_opt, sp_expect,
    prefix_at, lemma_split, lemma_field_str_rt, lemma_field_bool_rt, lemma_field_opt_rt,
    parse_field_str, parse_field_bool, parse_field_opt, expect_lit, push_quoted, push_bool,
    push_opt_string,
};
use crate::text::push_char;

verus! {

/// A one-off task. `id` is immutable and unique within the collection;
/// `created_at` is set at creation; `completed_at` is present exactly while
/// the task is completed.
#[derive(Clone)]
pub struct Todo {
    pub id: String,
    pub title: String,
    pub description: String,
    pub completed: bool,
    pub important: bool,
    pub due_date: Option<String>,
    pub created_at: String,
    pub completed_at: Option<String>,
    pub priority: String,
    pub category: String,
    pub from_plan_id: Option<String>,
}

/// The mathematical view of a task: every text field as a character sequence.
#[verifier::ext_equal]
pub ghost struct TodoV {
    pub id: Seq<char>,
    pub title: Seq<char>,
    pub description: Seq<char>,
    pub completed: bool,
    pub important: bool,
    pub due_date: Option<Seq<char>>,
    pub created_at: Seq<char>,
    pub completed_at: Option<Seq<char>>,
    pub priority: Seq<char>,
    pub category: Seq<char>,
    pub from_plan_id: Option<Seq<char>>,
}

/// The view of an optional text field.
pub open spec fn opt_view(o: Option<String>) -> Option<Seq<char>> {
    match o {
        Some(s) => Some(s@),
        None => None,
    }
}

impl View for Todo {
    type V = TodoV;

    open spec fn view(&self) -> TodoV {
        TodoV {
            id: self.id@,
            title: self.title@,
            description: self.description@,
            completed: self.completed,
            important: self.important,
            due_date: opt_view(self.due_date),
            created_at: self.created_at@,
            completed_at: opt_view(self.completed_at),
            priority: self.priority@,
            category: self.category@,
            from_plan_id: opt_view(self.from_plan_id),
        }
    }
}

/// The views of a sequence of tasks.
pub open spec fn todos_view(ts: Seq<Todo>) -> Seq<TodoV> {
    ts.map_values(|t: Todo| t@)
}

/// Copies an optional text field.
pub fn copy_opt(o: &Option<String>) -> (r: Option<String>)
    ensures
        opt_view(r) == opt_view(*o),
{
    match o {
        Some(s) => Some(s.clone()),
        None => None,
    }
}

/// A field-for-field copy of a task.
pub fn copy_todo(t: &Todo) -> (r: Todo)
    ensures
        r@ == t@,
{
    Todo {
        id: t.id.clone(),
        title: t.title.clone(),
        description: t.description.clone(),
        completed: t.completed,
        important: t.important,
        due_date: copy_opt(&t.due_date),
        created_at: t.created_at.clone(),
        completed_at: copy_opt(&t.completed_at),
        priority: t.priority.clone(),
        category: t.category.clone(),
        from_plan_id: copy_opt(&t.from_plan_id),
    }
}

/// What a caller supplies to create a task; absent fields take defaults.
pub struct TodoCreateInput {
    pub title: String,
    pub description: Option<String>,
    pub important: Option<bool>,
    pub due_date: Option<String>,
    pub priority: Option<String>,
    pub category: Option<String>,
    pub from_plan_id: Option<String>,
}

// ------------------------------------------------------------------
// the persisted record
// ------------------------------------------------------------------

/// The first half of one persisted task record.
pub open spec fn enc_todo_front(t: TodoV) -> Seq<char> {
    ("{\"id\":"@ + enc_string(t.id)) + ((",\"title\":"@ + enc_string(t.title)) + ((
    ",\"description\":"@ + enc_string(t.description)) + ((",\"completed\":"@ + enc_bool(
        t.completed,
    )) + ((",\"important\":"@ + enc_bool(t.important)) + (",\"dueDate\":"@ + enc_opt_string(
        t.due_date,
    ))))))
}

/// The second half of one persisted task record.
pub open spec fn enc_todo_back(t: TodoV) -> Seq<char> {
    (",\"createdAt\":"@ + enc_string(t.created_at)) + ((",\"completedAt\":"@ + enc_opt_string(
        t.completed_at,
    )) + ((",\"priority\":"@ + enc_string(t.priority)) + ((",\"category\":"@ + enc_string(
        t.category,
    )) + ((",\"fromPlanId\":"@ + enc_opt_string(t.from_plan_id)) + "}"@))))
}

/// The persisted form of one task record.
pub open spec fn enc_todo(t: TodoV) -> Seq<char> {
    enc_todo_front(t) + enc_todo_back(t)
}

/// Reads one task record.
pub open spec fn sp_parse_todo(s: Seq<char>, i: int) -> Option<(TodoV, int)> {
    match sp_field_str(s, i, "{\"id\":"@) {
        None => None,
        Some((id, i1)) => match sp_field_str(s, i1, ",\"title\":"@) {
            None => None,
            Some((title, i2)) => match sp_field_str(s, i2, ",\"description\":"@) {
                None => None,
                Some((description, i3)) => match sp_field_bool(s, i3, ",\"completed\":"@) {
                    None => None,
                    Some((completed, i4)) => match sp_field_bool(s, i4, ",\"important\":"@) {
                        None => None,
                        Some((important, i5)) => match sp_field_opt(s, i5, ",\"dueDate\":"@) {
                            None => None,
                            Some((due_date, i6)) => match sp_field_str(
                                s,
                                i6,
                                ",\"createdAt\":"@,
                            ) {
                                None => None,
                                Some((created_at, i7)) => match sp_field_opt(
                                    s,
                                    i7,
                                    ",\"completedAt\":"@,
                                ) {
                                    None => None,
                                    Some((completed_at, i8)) => match sp_field_str(
                                        s,
                                        i8,
                                        ",\"priority\":"@,
                                    ) {
                                        None => None,
                                        Some((priority, i9)) => match sp_field_str(
                                            s,
                                            i9,
                                            ",\"category\":"@,
                                        ) {
                                            None => None,
                                            Some((category, i10)) => match sp_field_opt(
                                                s,
                                                i10,
                                                ",\"fromPlanId\":"@,
                                            ) {
                                                None => None,
                                                Some((from_plan_id, i11)) => match sp_expect(
                                                    s,
                                                    i11,
                                                    "}"@,
                                                ) {
                                                    None => None,
                                                    Some(j) => Some(
                                                        (
                                                            TodoV {
                                                                id,
                                                                title,
                                                                description,
                                                                completed,
                                                                important,
                                                                due_date,
                                                                created_at,
                                                                completed_at,
                                                                priority,
                                                                category,
                                                                from_plan_id,
                                                            },
                                                            j,
                                                        ),
                                                    ),
                                                },
                                            },
                                        },
                                    },
                                },
                            },
                        },
                    },
                },
            },
        },
    }
}

/// A record written by `enc_todo` reads back as itself.
#[verifier::rlimit(100)]
pub proof fn lemma_todo_rt(s: Seq<char>, i: int, t: TodoV)
    requires
        prefix_at(s, i, enc_todo(t)),
    ensures
        sp_parse_todo(s, i) == Some((t, i + enc_todo(t).len() as int)),
{
    let f1 = "{\"id\":"@ + enc_string(t.id);
    let f2 = ",\"title\":"@ + enc_string(t.title);
    let f3 = ",\"description\":"@ + enc_string(t.description);
    let f4 = ",\"completed\":"@ + enc_bool(t.completed);
    let f5 = ",\"important\":"@ + enc_bool(t.important);
    let f6 = ",\"dueDate\":"@ + enc_opt_string(t.due_date);
    let f7 = ",\"createdAt\":"@ + enc_string(t.created_at);
    let f8 = ",\"completedAt\":"@ + enc_opt_string(t.completed_at);
    let f9 = ",\"priority\":"@ + enc_string(t.priority);
    let f10 = ",\"category\":"@ + enc_string(t.category);
    let f11 = ",\"fromPlanId\":"@ + enc_opt_string(t.from_plan_id);
    let f12 = "}"@;
    assert(enc_todo(t) =~= f1 + (f2 + (f3 + (f4 + (f5 + (f6 + (f7 + (f8 + (f9 + (f10 + (f11
        + f12)))))))))));
    lemma_split(s, i, f1, f2 + (f3 + (f4 + (f5 + (f6 + (f7 + (f8 + (f9 + (f10 + (f11 + f12))))))))));
    lemma_field_str_rt(s, i, "{\"id\":"@, t.id);
    let i1 = i + f1.len();
    lemma_split(s, i1, f2, f3 + (f4 + (f5 + (f6 + (f7 + (f8 + (f9 + (f10 + (f11 + f12)))))))));
    lemma_field_str_rt(s, i1, ",\"title\":"@, t.title);
    let i2 = i1 + f2.len();
    lemma_split(s, i2, f3, f4 + (f5 + (f6 + (f7 + (f8 + (f9 + (f10 + (f11 + f12))))))));
    lemma_field_str_rt(s, i2, ",\"description\":"@, t.description);
    let i3 = i2 + f3.len();
    lemma_split(s, i3, f4, f5 + (f6 + (f7 + (f8 + (f9 + (f10 + (f11 + f12)))))));
    lemma_field_bool_rt(s, i3, ",\"completed\":"@, t.completed);
    let i4 = i3 + f4.len();
    lemma_split(s, i4, f5, f6 + (f7 + (f8 + (f9 + (f10 + (f11 + f12))))));
    lemma_field_bool_rt(s, i4, ",\"important\":"@, t.important);
    let i5 = i4 + f5.len();
    lemma_split(s, i5, f6, f7 + (f8 + (f9 + (f10 + (f11 + f12)))));
    lemma_field_opt_rt(s, i5, ",\"dueDate\":"@, t.due_date);
    let i6 = i5 + f6.len();
    lemma_split(s, i6, f7, f8 + (f9 + (f10 + (f11 + f12))));
    lemma_field_str_rt(s, i6, ",\"createdAt\":"@, t.created_at);
    let i7 = i6 + f7.len();
    lemma_split(s, i7, f8, f9 + (f10 + (f11 + f12)));
    lemma_field_opt_rt(s, i7, ",\"completedAt\":"@, t.completed_at);
    let i8 = i7 + f8.len();
    lemma_split(s, i8, f9, f10 + (f11 + f12));
    lemma_field_str_rt(s, i8, ",\"priority\":"@, t.priority);
    let i9 = i8 + f9.len();
    lemma_split(s, i9, f10, f11 + f12);
    lemma_field_str_rt(s, i9, ",\"category\":"@, t.category);
    let i10 = i9 + f10.len();
    lemma_split(s, i10, f11, f12);
    lemma_field_opt_rt(s, i10, ",\"fromPlanId\":"@, t.from_plan_id);
    let i11 = i10 + f11.len();
    assert(sp_expect(s, i11, "}"@) == Some(i11 + f12.len()));
}

/// Writes the first half of one task record.
#[verifier::rlimit(100)]
fn push_todo_front(out: &mut String, t: &Todo)
    ensures
        final(out)@ == old(out)@ + enc_todo_front(t@),
{
    out.append("{\"id\":");
    push_quoted(out, t.id.as_str());
    out.append(",\"title\":");
    push_quoted(out, t.title.as_str());
    out.append(",\"description\":");
    push_quoted(out, t.description.as_str());
    out.append(",\"completed\":");
    push_bool(out, t.completed);
    out.append(",\"important\":");
    push_bool(out, t.important);
    out.append(",\"dueDate\":");
    push_opt_string(out, &t.due_date);
    proof {
        assert(final(out)@ =~= old(out)@ + enc_todo_front(t@));
    }
}

/// Writes the second half of one task record.
#[verifier::rlimit(100)]
fn push_todo_back(out: &mut String, t: &Todo)
    ensures
        final(out)@ == old(out)@ + enc_todo_back(t@),
{
    out.append(",\"createdAt\":");
    push_quoted(out, t.created_at.as_str());
    out.append(",\"completedAt\":");
    push_opt_string(out, &t.completed_at);
    out.append(",\"priority\":");
    push_quoted(out, t.priority.as_str());
    out.append(",\"category\":");
    push_quoted(out, t.category.as_str());
    out.append(",\"fromPlanId\":");
    push_opt_string(out, &t.from_plan_id);
    out.append("}");
    proof {
        assert(final(out)@ =~= old(out)@ + enc_todo_back(t@));
    }
}

/// Writes one task record.
pub fn push_todo(out: &mut String, t: &Todo)
    ensures
        final(out)@ == old(out)@ + enc_todo(t@),
{
    push_todo_front(out, t);
    push_todo_back(out, t);
    proof {
        assert(final(out)@ =~= old(out)@ + enc_todo(t@));
    }
}

/// Reads one task record.
pub fn parse_todo(s: &str, i: usize) -> (r: Option<(Todo, usize)>)
    ensures
        r matches Some(p) ==> sp_parse_todo(s@, i as int) == Some((p.0@, p.1 as int)) && p.1
            <= s@.len(),
        r is None ==> sp_parse_todo(s@, i as int) is None,
{
    let Some((id, i1)) = parse_field_str(s, i, "{\"id\":") else { return None };
    let Some((title, i2)) = parse_field_str(s, i1, ",\"title\":") else { return None };
    let Some((description, i3)) = parse_field_str(s, i2, ",\"description\":") else { return None };
    let Some((completed, i4)) = parse_field_bool(s, i3, ",\"completed\":") else { return None };
    let Some((important, i5)) = parse_field_bool(s, i4, ",\"important\":") else { return None };
    let Some((due_date, i6)) = parse_field_opt(s, i5, ",\"dueDate\":") else { return None };
    let Some((created_at, i7)) = parse_field_str(s, i6, ",\"createdAt\":") else { return None };
    let Some((completed_at, i8)) = parse_field_opt(s, i7, ",\"completedAt\":") else { return None };
    let Some((priority, i9)) = parse_field_str(s, i8, ",\"priority\":") else { return None };
    let Some((category, i10)) = parse_field_str(s, i9, ",\"category\":") else { return None };
    let Some((from_plan_id, i11)) = parse_field_opt(s, i10, ",\"fromPlanId\":") else {
        return None
    };
    let Some(j) = expect_lit(s, i11, "}") else { return None };
    Some(
        (
            Todo {
                id,
                title,
                description,
                completed,
                important,
                due_date,
                created_at,
                completed_at,
                priority,
                category,
                from_plan_id,
            },
            j,
        ),
    )
}

// ------------------------------------------------------------------
// the persisted collection
// ------------------------------------------------------------------

/// The comma-separated records of a collection.
pub open spec fn enc_todo_items(ts: Seq<TodoV>) -> Seq<char>
    decreases ts.len(),
{
    if ts.len() == 0 {
        Seq::empty()
    } else if ts.len() == 1 {
        enc_todo(ts[0])
    } else {
        enc_todo(ts[0]) + (seq![','] + enc_todo_items(ts.subrange(1, ts.len() as int)))
    }
}

/// The full persisted file content for a collection of tasks.
pub open spec fn enc_todos(ts: Seq<TodoV>) -> Seq<char> {
    seq!['['] + enc_todo_items(ts) + seq![']']
}

/// Reads records separated by commas, up to and over the closing bracket.
pub open spec fn sp_todo_items(s: Seq<char>, i: int) -> Option<(Seq<TodoV>, int)>
    decreases s.len() - i,
{
    match sp_parse_todo(s, i) {
        None => None,
        Some((t, j)) => if j <= i || j >= s.len() {
            None
        } else if s[j] == ']' {
            Some((seq![t], j + 1))
        } else if s[j] == ',' {
            match sp_todo_items(s, j + 1) {
                None => None,
                Some((ts, k)) => Some((seq![t] + ts, k)),
            }
        } else {
            None
        },
    }
}

/// Reads a whole collection.
pub open spec fn sp_parse_todos(s: Seq<char>, i: int) -> Option<(Seq<TodoV>, int)> {
    if !(0 <= i < s.len()) || s[i] != '[' {
        None
    } else if i + 1 < s.len() && s[i + 1] == ']' {
        Some((Seq::empty(), i + 2))
    } else {
        sp_todo_items(s, i + 1)
    }
}

/// What loading file content yields: the parsed collection when the whole
/// text is one well-formed collection, the empty collection otherwise.
pub open spec fn sp_load_todos(s: Seq<char>) -> Seq<TodoV> {
    match sp_parse_todos(s, 0) {
        Some((ts, j)) => if j == s.len() {
            ts
        } else {
            Seq::empty()
        },
        None => Seq::empty(),
    }
}

/// Records written by `enc_todo_items` and a closing bracket read back as
/// themselves.
#[verifier::rlimit(100)]
pub proof fn lemma_todo_items_rt(s: Seq<char>, i: int, ts: Seq<TodoV>)
    requires
        ts.len() >= 1,
        prefix_at(s, i, enc_todo_items(ts) + seq![']']),
    ensures
        sp_todo_items(s, i) == Some((ts, i + enc_todo_items(ts).len() + 1)),
    decreases ts.len(),
{
    if ts.len() == 1 {
        assert(enc_todo_items(ts) == enc_todo(ts[0]));
        lemma_split(s, i, enc_todo(ts[0]), seq![']']);
        lemma_todo_rt(s, i, ts[0]);
        let j = i + enc_todo(ts[0]).len();
        assert(enc_todo(ts[0]).len() >= 1) by {
            reveal_strlit("{\"id\":");
        }
        assert(s[j] == ']') by {
            assert(s.subrange(j, j + 1)[0] == s[j]);
        }
        assert(seq![ts[0]] =~= ts);
    } else {
        let ts2 = ts.subrange(1, ts.len() as int);
        assert(enc_todo_items(ts) == enc_todo(ts[0]) + (seq![','] + enc_todo_items(ts2)));
        assert((enc_todo(ts[0]) + (seq![','] + enc_todo_items(ts2))) + seq![']'] =~= enc_todo(
            ts[0],
        ) + (seq![','] + (enc_todo_items(ts2) + seq![']'])));
        lemma_split(s, i, enc_todo(ts[0]), seq![','] + (enc_todo_items(ts2) + seq![']']));
        lemma_todo_rt(s, i, ts[0]);
        let j = i + enc_todo(ts[0]).len();
        assert(enc_todo(ts[0]).len() >= 1) by {
            reveal_strlit("{\"id\":");
        }
        lemma_split(s, j, seq![','], enc_todo_items(ts2) + seq![']']);
        assert(s[j] == ',') by {
            assert(s.subrange(j, j + 1)[0] == s[j]);
        }
        lemma_todo_items_rt(s, j + 1, ts2);
        assert(seq![ts[0]] + ts2 =~= ts);
    }
}

/// A collection written by `enc_todos` reads back as itself.
pub proof fn lemma_parse_todos_rt(s: Seq<char>, i: int, ts: Seq<TodoV>)
    requires
        prefix_at(s, i, enc_todos(ts)),
    ensures
        sp_parse_todos(s, i) == Some((ts, i + enc_todos(ts).len() as int)),
{
    assert(enc_todos(ts) =~= seq!['['] + (enc_todo_items(ts) + seq![']']));
    lemma_split(s, i, seq!['['], enc_todo_items(ts) + seq![']']);
    assert(s[i] == '[') by {
        assert(s.subrange(i, i + 1)[0] == s[i]);
    }
    if ts.len() == 0 {
        assert(enc_todo_items(ts) == Seq::<char>::empty());
        assert(enc_todo_items(ts) + seq![']'] =~= seq![']']);
        assert(s[i + 1] == ']') by {
            assert(s.subrange(i + 1, i + 2)[0] == s[i + 1]);
        }
    } else {
        assert(enc_todo(ts[0]).len() >= "{\"id\":"@.len()) by {
            assert(enc_todo(ts[0]) == ("{\"id\":"@ + enc_string(ts[0].id)) + (enc_todo(ts[0]).subrange(
                ("{\"id\":"@ + enc_string(ts[0].id)).len() as int,
                enc_todo(ts[0]).len() as int,
            ))) by {
                assert(enc_todo(ts[0]).subrange(
                    ("{\"id\":"@ + enc_string(ts[0].id)).len() as int,
                    enc_todo(ts[0]).len() as int,
                ) =~= enc_todo(ts[0]).skip(("{\"id\":"@ + enc_string(ts[0].id)).len() as int));
                assert(enc_todo(ts[0]) =~= ("{\"id\":"@ + enc_string(ts[0].id)) + enc_todo(
                    ts[0],
                ).skip(("{\"id\":"@ + enc_string(ts[0].id)).len() as int));
            }
        }
        reveal_strlit("{\"id\":");
        assert(enc_todo_items(ts)[0] == enc_todo(ts[0])[0]);
        assert(enc_todo(ts[0])[0] == '{');
        assert(s[i + 1] == '{') by {
            let body = enc_todo_items(ts) + seq![']'];
            assert(s.subrange(i + 1, i + 1 + body.len() as int)[0] == s[i + 1]);
        }
        lemma_todo_items_rt(s, i + 1, ts);
    }
}

/// Loading exactly what was saved yields the original collection,
/// field for field.
pub proof fn lemma_todos_roundtrip(ts: Seq<TodoV>)
    ensures
        sp_load_todos(enc_todos(ts)) == ts,
{
    let s = enc_todos(ts);
    assert(s.subrange(0, s.len() as int) =~= s);
    lemma_parse_todos_rt(s, 0, ts);
}

/// Writes the records of the collection from index `k` on.
pub fn push_todo_items(out: &mut String, ts: &Vec<Todo>, k: usize)
    requires
        k <= ts@.len(),
    ensures
        final(out)@ == old(out)@ + enc_todo_items(todos_view(ts@).subrange(
            k as int,
            ts@.len() as int,
        )),
    decreases ts@.len() - k,
{
    let ghost tail = todos_view(ts@).subrange(k as int, ts@.len() as int);
    if k < ts.len() {
        push_todo(out, &ts[k]);
        if k + 1 < ts.len() {
            push_char(out, ',');
            push_todo_items(out, ts, k + 1);
            proof {
                assert(tail[0] == ts@[k as int]@);
                assert(tail.subrange(1, tail.len() as int) =~= todos_view(ts@).subrange(
                    k + 1 as int,
                    ts@.len() as int,
                ));
                assert(final(out)@ =~= old(out)@ + enc_todo_items(tail));
            }
        } else {
            proof {
                assert(tail.len() == 1);
                assert(tail[0] == ts@[k as int]@);
                assert(final(out)@ =~= old(out)@ + enc_todo_items(tail));
            }
        }
    } else {
        proof {
            assert(tail =~= Seq::<TodoV>::empty());
            assert(final(out)@ =~= old(out)@ + enc_todo_items(tail));
        }
    }
}

/// The full file content for a collection of tasks.
pub fn save_todos(ts: &Vec<Todo>) -> (r: String)
    ensures
        r@ == enc_todos(todos_view(ts@)),
{
    let mut out = String::new();
    push_char(&mut out, '[');
    push_todo_items(&mut out, ts, 0);
    push_char(&mut out, ']');
    proof {
        assert(todos_view(ts@).subrange(0, ts@.len() as int) =~= todos_view(ts@));
        assert(out@ =~= enc_todos(todos_view(ts@)));
    }
    out
}

/// Reads records separated by commas, pushing them onto `acc`.
fn parse_todo_items(s: &str, i: usize, acc: &mut Vec<Todo>) -> (r: Option<usize>)
    ensures
        r matches Some(j) ==> sp_todo_items(s@, i as int) matches Some(p) && todos_view(
            final(acc)@,
        ) == todos_view(old(acc)@) + p.0 && p.1 == j as int,
        r is None ==> sp_todo_items(s@, i as int) is None,
    decreases s@.len() - i,
{
    let n = s.unicode_len();
    let Some((t, j)) = parse_todo(s, i) else { return None };
    if j <= i || j >= n {
        return None;
    }
    let c = s.get_char(j);
    if c == ']' {
        acc.push(t);
        proof {
            assert(todos_view(final(acc)@) =~= todos_view(old(acc)@) + seq![t@]);
        }
        Some(j + 1)
    } else if c == ',' {
        acc.push(t);
        let ghost mid = acc@;
        let r = parse_todo_items(s, j + 1, acc);
        proof {
            if r is Some {
                let p = sp_todo_items(s@, j + 1 as int).unwrap();
                assert(todos_view(mid) =~= todos_view(old(acc)@) + seq![t@]);
                assert(todos_view(final(acc)@) =~= todos_view(old(acc)@) + (seq![t@] + p.0));
            }
        }
        r
    } else {
        None
    }
}

/// Reads a whole collection.
pub fn parse_todos(s: &str, i: usize) -> (r: Option<(Vec<Todo>, usize)>)
    ensures
        r matches Some(p) ==> sp_parse_todos(s@, i as int) == Some(
            (todos_view(p.0@), p.1 as int),
        ),
        r is None ==> sp_parse_todos(s@, i as int) is None,
{
    let n = s.unicode_len();
    if i >= n {
        return None;
    }
    if s.get_char(i) != '[' {
        return None;
    }
    if i + 1 < n && s.get_char(i + 1) == ']' {
        let empty: Vec<Todo> = Vec::new();
        proof {
            assert(todos_view(empty@) =~= Seq::<TodoV>::empty());
        }
        return Some((empty, i + 2));
    }
    let mut acc: Vec<Todo> = Vec::new();
    match parse_todo_items(s, i + 1, &mut acc) {
        Some(j) => {
            proof {
                let p = sp_todo_items(s@, i + 1 as int).unwrap();
                assert(todos_view(acc@) =~= Seq::<TodoV>::empty() + p.0);
            }
            Some((acc, j))
        },
        None => None,
    }
}

/// Turns file content into the collection it holds: the parsed records when
/// the whole text is one well-formed collection, the empty collection on any
/// malformed or partial content (silent recovery).
pub fn load_todos(s: &str) -> (r: Vec<Todo>)
    ensures
        todos_view(r@) == sp_load_todos(s@),
{
    let n = s.unicode_len();
    match parse_todos(s, 0) {
        Some((v, j)) => {
            if j == n {
                v
            } else {
                let empty: Vec<Todo> = Vec::new();
                proof {
                    assert(todos_view(empty@) =~= Seq::<TodoV>::empty());
                }
                empty
            }
        },
        None => {
            let empty: Vec<Todo> = Vec::new();
            proof {
                assert(todos_view(empty@) =~= Seq::<TodoV>::empty());
            }
            empty
        },
    }
}

} // verus!
