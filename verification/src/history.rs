//! The history projector: a pure, read-only derivation of activity events
//! from a task snapshot. Each task yields one creation event and, when it has
//! a completion date, one completion event immediately after; output order
//! follows task order, not timestamp order.

use vstd::prelude::*;
use crate::todo::{Todo, TodoV};
use crate::store::AppState;

verus! {

/// One derived activity event; never persisted.
pub struct HistoryRecord {
    pub id: String,
    pub type_: String,
    pub title: String,
    pub timestamp: String,
    pub item_id: String,
    pub item_type: String,
}

/// The mathematical view of an event.
#[verifier::ext_equal]
pub ghost struct HistoryV {
    pub id: Seq<char>,
    pub type_: Seq<char>,
    pub title: Seq<char>,
    pub timestamp: Seq<char>,
    pub item_id: Seq<char>,
    pub item_type: Seq<char>,
}

impl View for HistoryRecord {
    type V = HistoryV;

    open spec fn view(&self) -> HistoryV {
        HistoryV {
            id: self.id@,
            type_: self.type_@,
            title: self.title@,
            timestamp: self.timestamp@,
            item_id: self.item_id@,
            item_type: self.item_type@,
        }
    }
}

/// The views of a sequence of events.
pub open spec fn hist_view(rs: Seq<HistoryRecord>) -> Seq<HistoryV> {
    rs.map_values(|r: HistoryRecord| r@)
}

/// The events one task yields: a creation event with id `h-<id>-created` and
/// the creation date, then, exactly when a completion date is present, a
/// completion event with id `h-<id>-completed` and that date.
pub open spec fn events_of(t: TodoV) -> Seq<HistoryV> {
    let created = HistoryV {
        id: "h-"@ + t.id + "-created"@,
        type_: "todo_created"@,
        title: t.title,
        timestamp: t.created_at,
        item_id: t.id,
        item_type: "todo"@,
    };
    match t.completed_at {
        None => seq![created],
        Some(done) => seq![
            created,
            HistoryV {
                id: "h-"@ + t.id + "-completed"@,
                type_: "todo_completed"@,
                title: t.title,
                timestamp: done,
                item_id: t.id,
                item_type: "todo"@,
            },
        ],
    }
}

/// The full projection: each task's events, in task order.
pub open spec fn history_of(ts: Seq<TodoV>) -> Seq<HistoryV>
    decreases ts.len(),
{
    if ts.len() == 0 {
        Seq::empty()
    } else {
        events_of(ts[0]) + history_of(ts.subrange(1, ts.len() as int))
    }
}

/// Extending the snapshot by one task appends that task's events.
pub proof fn lemma_history_snoc(ts: Seq<TodoV>, t: TodoV)
    ensures
        history_of(ts.push(t)) == history_of(ts) + events_of(t),
    decreases ts.len(),
{
    if ts.len() == 0 {
        assert(ts.push(t)[0] == t);
        assert(ts.push(t).subrange(1, 1) =~= Seq::<TodoV>::empty());
        assert(history_of(ts.push(t)) == events_of(t) + history_of(Seq::<TodoV>::empty()));
        assert(events_of(t) + Seq::<HistoryV>::empty() =~= events_of(t));
        assert(history_of(ts) + events_of(t) =~= events_of(t));
    } else {
        assert(ts.push(t).subrange(1, ts.len() + 1 as int) =~= ts.subrange(1, ts.len() as int).push(t));
        lemma_history_snoc(ts.subrange(1, ts.len() as int), t);
        assert(ts.push(t)[0] == ts[0]);
        assert(history_of(ts.push(t)) =~= history_of(ts) + events_of(t));
    }
}

/// The events for one task, computed.
fn push_events(out: &mut Vec<HistoryRecord>, t: &Todo)
    ensures
        hist_view(final(out)@) == hist_view(old(out)@) + events_of(t@),
{
    let mut cid = String::from_str("h-");
    cid.append(t.id.as_str());
    cid.append("-created");
    let created = HistoryRecord {
        id: cid,
        type_: String::from_str("todo_created"),
        title: t.title.clone(),
        timestamp: t.created_at.clone(),
        item_id: t.id.clone(),
        item_type: String::from_str("todo"),
    };
    out.push(created);
    match &t.completed_at {
        None => {
            proof {
                assert(hist_view(final(out)@) =~= hist_view(old(out)@) + events_of(t@));
            }
        },
        Some(done) => {
            let mut did = String::from_str("h-");
            did.append(t.id.as_str());
            did.append("-completed");
            let completed = HistoryRecord {
                id: did,
                type_: String::from_str("todo_completed"),
                title: t.title.clone(),
                timestamp: done.clone(),
                item_id: t.id.clone(),
                item_type: String::from_str("todo"),
            };
            out.push(completed);
            proof {
                assert(hist_view(final(out)@) =~= hist_view(old(out)@) + events_of(t@));
            }
        },
    }
}

/// The derived activity history for the store's current task snapshot, in
/// task order. Pure and read-only: the store is not changed, and nothing is
/// persisted.
pub fn history_list(state: &AppState) -> (r: Vec<HistoryRecord>)
    ensures
        hist_view(r@) == history_of(state.todos_seq()),
{
    let todos = state.snapshot();
    let ghost ts = state.todos_seq();
    let mut out: Vec<HistoryRecord> = Vec::new();
    let mut i: usize = 0;
    proof {
        assert(ts.subrange(0, 0) =~= Seq::<TodoV>::empty());
        assert(hist_view(out@) =~= history_of(ts.subrange(0, 0)));
    }
    while i < todos.len()
        invariant
            ts == crate::todo::todos_view(todos@),
            ts == state.todos_seq(),
            0 <= i <= todos@.len(),
            hist_view(out@) == history_of(ts.subrange(0, i as int)),
        decreases todos@.len() - i,
    {
        proof {
            assert(ts[i as int] == todos@[i as int]@);
        }
        push_events(&mut out, &todos[i]);
        proof {
            assert(ts.subrange(0, i + 1 as int) =~= ts.subrange(0, i as int).push(ts[i as int]));
            lemma_history_snoc(ts.subrange(0, i as int), ts[i as int]);
        }
        i += 1;
    }
    proof {
        assert(ts.subrange(0, ts.len() as int) =~= ts);
    }
    out
}

} // verus!
