use crate::engine::{
    begun, first_step, given_text, next, Fresh, Phase, SaveReceipt, SaveSession, SessionView,
    Step, StepView,
};
use crate::object_id::{generate, object_id_text};
use crate::store::{executed, MemoryStore, StoreView};
use crate::timestamp::now_millis;
use crate::value::{items_view, Value, ValueView};
use vstd::prelude::*;

verus! {

/// A bound on the number of answers that a save still needs.
pub open spec fn remaining(s: SessionView) -> nat {
    let n = s.payloads.len();
    match s.phase {
        Phase::Lookup => 2 * n + 5,
        Phase::Writing => 2 * n + 4,
        Phase::Clearing => 2 * n + 3,
        Phase::Bulk => 1,
        Phase::Updating(i) => if i < n {
            (2 * (n - i) + 1) as nat
        } else {
            1
        },
        Phase::Inserting(i) => if i < n {
            (2 * (n - i)) as nat
        } else {
            1
        },
        Phase::Finished => 0,
    }
}

/// Each answer brings a save nearer to its end.
pub proof fn lemma_next_decreases(s: SessionView, reply: crate::engine::ReplyView)
    ensures
        remaining(next(s, reply).0) < remaining(s) || (remaining(next(s, reply).0) == remaining(s)
            && next(s, reply).1 is Finish),
{
}

/// What a save leaves in a store that carries out each of its requests, and
/// the receipt that it ends with.
pub open spec fn outcome(s: SessionView, step: StepView, store: StoreView) -> (
    StoreView,
    Option<SaveReceipt>,
)
    decreases remaining(s), (if step is Ask { 1nat } else { 0nat }),
{
    match step {
        StepView::Finish(r) => (store, r),
        StepView::Ask(request) => {
            let (after, reply) = executed(store, request);
            let (session, following) = next(s, reply);
            outcome(session, following, after)
        },
    }
}

/// What a whole save leaves in a store, and its receipt.
pub open spec fn saved(
    store: StoreView,
    options: ValueView,
    rows: Seq<ValueView>,
    import_id: Option<Seq<char>>,
    append: bool,
    fresh: Fresh,
) -> (StoreView, Option<SaveReceipt>) {
    let s = begun(options, rows, import_id, append, fresh);
    outcome(s, first_step(s), store)
}

/// A receipt as it is reported: the two identifiers as text, and the count.
pub open spec fn reported(receipt: Option<SaveReceipt>) -> Option<(Seq<char>, Seq<char>, usize)> {
    match receipt {
        Some(r) => Some((object_id_text(r.dataset_id), object_id_text(r.import_id), r.rows)),
        None => None,
    }
}

/// What a reported receipt holds.
pub open spec fn report_view(r: Option<(String, String, usize)>) -> Option<
    (Seq<char>, Seq<char>, usize),
> {
    match r {
        Some((d, i, n)) => Some((d@, i@, n)),
        None => None,
    }
}

impl MemoryStore {
    /// Carries a save through from the given step to its end.
    pub fn run(&mut self, session: SaveSession, step: Step) -> (r: Option<SaveReceipt>)
        ensures
            (final(self)@, r) == outcome(session@, step@, old(self)@),
    {
        let ghost goal = outcome(session@, step@, self@);
        let mut current = session;
        let mut pending = step;
        loop
            invariant
                outcome(current@, pending@, self@) == goal,
                goal == outcome(session@, step@, old(self)@),
            decreases remaining(current@), (if pending@ is Ask { 1nat } else { 0nat }),
        {
            match pending {
                Step::Finish(r) => {
                    return r;
                },
                Step::Ask(request) => {
                    let ghost before = current@;
                    let reply = self.execute(request);
                    proof {
                        lemma_next_decreases(before, reply@);
                    }
                    pending = current.advance(reply);
                },
            }
        }
    }

    /// Saves a batch of rows with the given identifiers and time for what
    /// the save creates.
    pub fn save_import_with_rows_using(
        &mut self,
        options: &Value,
        rows: &Vec<Value>,
        import_id: Option<&str>,
        append: bool,
        fresh: Fresh,
    ) -> (r: Option<(String, String, usize)>)
        ensures
            final(self)@ == saved(
                old(self)@,
                options@,
                items_view(rows@),
                given_text(import_id),
                append,
                fresh,
            ).0,
            report_view(r) == reported(
                saved(old(self)@, options@, items_view(rows@), given_text(import_id), append, fresh).1,
            ),
            r is Some,
    {
        proof {
            crate::laws::law_save_ends_with_a_receipt(
                self@,
                options@,
                items_view(rows@),
                given_text(import_id),
                append,
                fresh,
            );
        }
        let (session, step) = SaveSession::begin_with(options, rows, import_id, append, fresh);
        match self.run(session, step) {
            Some(receipt) => Some(
                (receipt.dataset_id.to_hex(), receipt.import_id.to_hex(), receipt.rows),
            ),
            None => None,
        }
    }

    /// Saves a batch of rows: finds or adds the dataset, records the import,
    /// removes what the mode replaces and writes the rows. The identifiers of
    /// what it creates are new ones and its time is the current time.
    pub fn save_import_with_rows(
        &mut self,
        options: &Value,
        rows: &Vec<Value>,
        import_id: Option<&str>,
        append: bool,
    ) -> (r: Option<(String, String, usize)>)
        ensures
            exists|fresh: Fresh|
                {
                    let end = #[trigger] saved(
                        old(self)@,
                        options@,
                        items_view(rows@),
                        given_text(import_id),
                        append,
                        fresh,
                    );
                    final(self)@ == end.0 && report_view(r) == reported(end.1)
                },
            r is Some,
    {
        let fresh = Fresh { dataset_id: generate(), import_id: generate(), now: now_millis() };
        self.save_import_with_rows_using(options, rows, import_id, append, fresh)
    }
}

} // verus!
