//! The sequential-thinking engine: an in-memory, per-session record of
//! refinement steps, with a main sequence of all records and one
//! sub-sequence per named branch.

use vstd::prelude::*;

verus! {

use vstd::string::*;
use crate::json::{
    emit_diagnostic,
    json_as_bool,
    json_as_str,
    json_as_u64,
    json_get,
    json_is_object,
    json_is_object_of,
    raw_bool_field,
    raw_str_field,
    raw_u64_field,
};
use crate::text::{dec_str, u64_to_dec};

/// One refinement step: the thought text, its 1-based number, the expected
/// total, and optional revision/branch metadata.
#[derive(Debug, Clone)]
pub struct ThoughtData {
    pub thought: String,
    pub thought_number: u32,
    pub total_thoughts: u32,
    pub is_revision: Option<bool>,
    pub revises_thought: Option<u32>,
    pub branch_from_thought: Option<u32>,
    pub branch_id: Option<String>,
    pub needs_more_thoughts: Option<bool>,
    pub next_thought_needed: bool,
}

impl ThoughtData {
    /// A plain record with no revision or branch metadata.
    pub fn new(thought: String, thought_number: u32, total_thoughts: u32, next_thought_needed: bool) -> (r: Self)
        ensures
            r.thought == thought,
            r.thought_number == thought_number,
            r.total_thoughts == total_thoughts,
            r.next_thought_needed == next_thought_needed,
            r.is_revision is None,
            r.revises_thought is None,
            r.branch_from_thought is None,
            r.branch_id is None,
            r.needs_more_thoughts is None,
    {
        Self {
            thought,
            thought_number,
            total_thoughts,
            is_revision: None,
            revises_thought: None,
            branch_from_thought: None,
            branch_id: None,
            needs_more_thoughts: None,
            next_thought_needed,
        }
    }

    /// Marks the record as a revision of an earlier thought.
    pub fn with_revision(self, revises_thought: u32) -> (r: Self)
        ensures
            r == (ThoughtData {
                is_revision: Some(true),
                revises_thought: Some(revises_thought),
                ..self
            }),
    {
        let mut updated = self;
        updated.is_revision = Some(true);
        updated.revises_thought = Some(revises_thought);
        updated
    }

    /// Marks the record as a branch off an earlier thought.
    pub fn with_branch(self, branch_from_thought: u32, branch_id: String) -> (r: Self)
        ensures
            r == (ThoughtData {
                branch_from_thought: Some(branch_from_thought),
                branch_id: Some(branch_id),
                ..self
            }),
    {
        let mut updated = self;
        updated.branch_from_thought = Some(branch_from_thought);
        updated.branch_id = Some(branch_id);
        updated
    }

    /// An explicit copy, field for field.
    pub fn duplicate(&self) -> (r: Self)
        ensures
            r == *self,
    {
        Self {
            thought: self.thought.clone(),
            thought_number: self.thought_number,
            total_thoughts: self.total_thoughts,
            is_revision: self.is_revision,
            revises_thought: self.revises_thought,
            branch_from_thought: self.branch_from_thought,
            branch_id: match &self.branch_id {
                Some(id) => Some(id.clone()),
                None => None,
            },
            needs_more_thoughts: self.needs_more_thoughts,
            next_thought_needed: self.next_thought_needed,
        }
    }
}

/// The record as the engine stores it: `total_thoughts` is raised to
/// `thought_number` when the number exceeds it, and never lowered.
pub open spec fn adjusted(d: ThoughtData) -> ThoughtData {
    ThoughtData {
        total_thoughts: if d.thought_number > d.total_thoughts {
            d.thought_number
        } else {
            d.total_thoughts
        },
        ..d
    }
}

/// A stored record's total is the larger of the total it carried and its
/// own number: it is raised when the number exceeds it, and never lowered.
pub proof fn lemma_total_never_lowered(d: ThoughtData)
    ensures
        adjusted(d).total_thoughts >= d.total_thoughts,
        adjusted(d).total_thoughts >= d.thought_number,
        adjusted(d).total_thoughts == d.total_thoughts || adjusted(d).total_thoughts
            == d.thought_number,
{
}

/// The branch a record belongs to: the view of its branch id, present only
/// when both branch fields are set.
pub open spec fn branch_key(d: ThoughtData) -> Option<Seq<char>> {
    match (d.branch_from_thought, d.branch_id) {
        (Some(_), Some(id)) => Some(id@),
        _ => None,
    }
}

/// What one `process_thought` call reports back: the (possibly raised)
/// counters of the record, the known branch ids, and the session length.
#[derive(Debug)]
pub struct ThoughtSummary {
    pub thought_number: u32,
    pub total_thoughts: u32,
    pub next_thought_needed: bool,
    pub branches: Vec<String>,
    pub thought_history_length: usize,
}

/// A named branch: the ordered sub-sequence of records carrying its id.
#[derive(Debug)]
pub struct Branch {
    pub id: String,
    pub thoughts: Vec<ThoughtData>,
}

/// One session: the ordered main sequence of all records, and the ordered
/// sub-sequence of each branch, keyed by branch id.
pub struct SequentialThinking {
    thought_history: Vec<ThoughtData>,
    branches: Vec<Branch>,
}

/// The records of the first branch of `bs` whose id reads `id`.
pub open spec fn branch_lookup(bs: Seq<Branch>, id: Seq<char>) -> Seq<ThoughtData>
    decreases bs.len(),
{
    if bs.len() == 0 {
        Seq::empty()
    } else if bs[0].id@ == id {
        bs[0].thoughts@
    } else {
        branch_lookup(bs.drop_first(), id)
    }
}

impl SequentialThinking {
    /// The ids of the known branches, in order of first appearance.
    pub closed spec fn branch_ids(&self) -> Seq<Seq<char>> {
        self.branches@.map_values(|b: Branch| b.id@)
    }

    /// The main sequence of records, in insertion order.
    pub closed spec fn history(&self) -> Seq<ThoughtData> {
        self.thought_history@
    }

    /// The records of branch `id`, in insertion order; empty for an
    /// unknown id.
    pub closed spec fn branch_thoughts(&self, id: Seq<char>) -> Seq<ThoughtData> {
        branch_lookup(self.branches@, id)
    }

    /// The stored branches as the callers see them.
    pub closed spec fn branches_view(&self) -> Seq<Branch> {
        self.branches@
    }

    /// No two stored branches read the same id, and no stored branch is
    /// empty: a branch exists only once a record carried its id.
    pub closed spec fn wf(&self) -> bool {
        &&& forall|i: int, j: int|
            0 <= i < j < self.branches@.len() ==> self.branches@[i].id@ != self.branches@[j].id@
        &&& forall|i: int|
            0 <= i < self.branches@.len() ==> (#[trigger] self.branches@[i]).thoughts@.len() > 0
    }

    /// A fresh session with no records and no branches.
    pub fn new() -> (r: Self)
        ensures
            r.history() == Seq::<ThoughtData>::empty(),
            r.branches_view() == Seq::<Branch>::empty(),
            r.branch_ids() == Seq::<Seq<char>>::empty(),
            r.wf(),
    {
        let session = Self { thought_history: Vec::new(), branches: Vec::new() };
        proof {
            assert(session.branch_ids() =~= Seq::<Seq<char>>::empty());
        }
        session
    }

    /// The main sequence of records.
    pub fn get_thought_history(&self) -> (r: &Vec<ThoughtData>)
        ensures
            r@ == self.history(),
    {
        &self.thought_history
    }

    /// The known branches with their records.
    pub fn get_branches(&self) -> (r: &Vec<Branch>)
        ensures
            r@ == self.branches_view(),
    {
        &self.branches
    }
}

fn find_branch(branches: &Vec<Branch>, id: &String) -> (r: Option<usize>)
    ensures
        r matches Some(k) ==> 0 <= k < branches@.len() && branches@[k as int].id@ == id@ && (forall|
            t: int,
        |
            0 <= t < k ==> branches@[t].id@ != id@),
        r is None ==> forall|t: int| 0 <= t < branches@.len() ==> branches@[t].id@ != id@,
{
    let n: usize = branches.len();
    let mut k: usize = 0;
    while k < n
        invariant
            0 <= k <= n,
            n == branches@.len(),
            forall|t: int| 0 <= t < k ==> branches@[t].id@ != id@,
        decreases n - k,
    {
        if crate::text::str_eq(branches[k].id.as_str(), id.as_str()) {
            return Some(k);
        }
        k = k + 1;
    }
    None
}

proof fn lemma_branch_lookup_at(bs: Seq<Branch>, k: int, id: Seq<char>)
    requires
        0 <= k < bs.len(),
        bs[k].id@ == id,
        forall|t: int| 0 <= t < k ==> bs[t].id@ != id,
    ensures
        branch_lookup(bs, id) == bs[k].thoughts@,
    decreases k,
{
    if k > 0 {
        lemma_branch_lookup_at(bs.drop_first(), k - 1, id);
    }
}

proof fn lemma_branch_lookup_update(bs: Seq<Branch>, k: int, b2: Branch, id: Seq<char>)
    requires
        0 <= k < bs.len(),
        bs[k].id@ == id,
        forall|t: int| 0 <= t < k ==> bs[t].id@ != id,
        b2.id@ == id,
    ensures
        branch_lookup(bs.update(k, b2), id) == b2.thoughts@,
    decreases k,
{
    if k == 0 {
        assert(bs.update(0, b2)[0] == b2);
    } else {
        assert(bs.update(k, b2).drop_first() =~= bs.drop_first().update(k - 1, b2));
        lemma_branch_lookup_update(bs.drop_first(), k - 1, b2, id);
    }
}

proof fn lemma_branch_lookup_update_other(bs: Seq<Branch>, k: int, b2: Branch, other: Seq<char>)
    requires
        0 <= k < bs.len(),
        b2.id@ == bs[k].id@,
        other != bs[k].id@,
    ensures
        branch_lookup(bs.update(k, b2), other) == branch_lookup(bs, other),
    decreases k,
{
    if k == 0 {
        assert(bs.update(0, b2).drop_first() =~= bs.drop_first());
    } else {
        assert(bs.update(k, b2).drop_first() =~= bs.drop_first().update(k - 1, b2));
        lemma_branch_lookup_update_other(bs.drop_first(), k - 1, b2, other);
    }
}

proof fn lemma_branch_lookup_append(bs: Seq<Branch>, nb: Branch, id: Seq<char>)
    requires
        forall|t: int| 0 <= t < bs.len() ==> bs[t].id@ != id,
    ensures
        branch_lookup(bs.push(nb), id) == if nb.id@ == id {
            nb.thoughts@
        } else {
            Seq::<ThoughtData>::empty()
        },
        branch_lookup(bs, id) == Seq::<ThoughtData>::empty(),
    decreases bs.len(),
{
    if bs.len() == 0 {
        assert(bs.push(nb)[0] == nb);
        if nb.id@ == id {
            assert(branch_lookup(bs.push(nb), id) == nb.thoughts@);
        } else {
            assert(bs.push(nb).drop_first() =~= Seq::<Branch>::empty());
            assert(branch_lookup(bs.push(nb), id) == branch_lookup(
                bs.push(nb).drop_first(),
                id,
            ));
        }
    } else {
        assert(bs.push(nb)[0] == bs[0]);
        assert(bs[0].id@ != id);
        assert(bs.push(nb).drop_first() =~= bs.drop_first().push(nb));
        assert(forall|t: int|
            0 <= t < bs.drop_first().len() ==> #[trigger] bs.drop_first()[t].id@ != id);
        lemma_branch_lookup_append(bs.drop_first(), nb, id);
        assert(branch_lookup(bs.push(nb), id) == branch_lookup(bs.drop_first().push(nb), id));
        assert(branch_lookup(bs, id) == branch_lookup(bs.drop_first(), id));
    }
}

proof fn lemma_branch_lookup_push_other(bs: Seq<Branch>, nb: Branch, other: Seq<char>)
    requires
        nb.id@ != other,
    ensures
        branch_lookup(bs.push(nb), other) == branch_lookup(bs, other),
    decreases bs.len(),
{
    if bs.len() == 0 {
        assert(bs.push(nb)[0] == nb);
        assert(bs.push(nb).drop_first() =~= Seq::<Branch>::empty());
        assert(branch_lookup(bs.push(nb), other) == branch_lookup(
            bs.push(nb).drop_first(),
            other,
        ));
    } else {
        assert(bs.push(nb)[0] == bs[0]);
        assert(bs.push(nb).drop_first() =~= bs.drop_first().push(nb));
        if bs[0].id@ == other {
            assert(branch_lookup(bs.push(nb), other) == bs[0].thoughts@);
        } else {
            lemma_branch_lookup_push_other(bs.drop_first(), nb, other);
            assert(branch_lookup(bs.push(nb), other) == branch_lookup(
                bs.drop_first().push(nb),
                other,
            ));
        }
    }
}

impl SequentialThinking {
    /// The known branch ids, in order of first appearance.
    fn branch_id_list(&self) -> (r: Vec<String>)
        ensures
            r.deep_view() == self.branch_ids(),
    {
        let n: usize = self.branches.len();
        let mut out: Vec<String> = Vec::new();
        let mut k: usize = 0;
        while k < n
            invariant
                0 <= k <= n,
                n == self.branches@.len(),
                out@.len() == k,
                forall|t: int| 0 <= t < k ==> (#[trigger] out@[t])@ == self.branches@[t].id@,
            decreases n - k,
        {
            let ghost prev = out@;
            out.push(self.branches[k].id.clone());
            proof {
                assert(forall|t: int| 0 <= t < k ==> out@[t] == prev[t]);
                assert(out@[k as int]@ == self.branches@[k as int].id@);
            }
            k = k + 1;
        }
        proof {
            assert(forall|t: int|
                0 <= t < n ==> #[trigger] out.deep_view()[t] == out@[t]@);
            assert(out.deep_view() =~= self.branch_ids());
        }
        out
    }

    /// Records one refinement step. The record's `total_thoughts` is raised
    /// to its `thought_number` when the number exceeds it (never lowered);
    /// the adjusted record is appended to the main sequence and, when both
    /// branch fields are present, to its branch's sub-sequence, creating
    /// the branch on first use. Returns the record's counters, the known
    /// branch ids, and the new session length.
    pub fn record_thought(&mut self, input: ThoughtData) -> (r: ThoughtSummary)
        requires
            old(self).wf(),
        ensures
            final(self).wf(),
            final(self).history() == old(self).history().push(adjusted(input)),
            (match branch_key(input) {
                Some(id) => {
                    &&& final(self).branch_thoughts(id) == old(self).branch_thoughts(id).push(
                        adjusted(input),
                    )
                    &&& (forall|other: Seq<char>|
                        other != id ==> final(self).branch_thoughts(other) == old(self).branch_thoughts(
                            other,
                        ))
                    &&& final(self).branch_ids() == (if old(self).branch_ids().contains(id) {
                        old(self).branch_ids()
                    } else {
                        old(self).branch_ids().push(id)
                    })
                },
                None => {
                    &&& final(self).branches_view() == old(self).branches_view()
                    &&& final(self).branch_ids() == old(self).branch_ids()
                    &&& forall|id: Seq<char>|
                        #[trigger] final(self).branch_thoughts(id) == old(self).branch_thoughts(
                            id,
                        )
                },
            }),
            r.thought_number == input.thought_number,
            r.total_thoughts == adjusted(input).total_thoughts,
            r.next_thought_needed == input.next_thought_needed,
            r.thought_history_length == old(self).history().len() + 1,
            r.branches.deep_view() == final(self).branch_ids(),
    {
        let mut data = input;
        if data.thought_number > data.total_thoughts {
            data.total_thoughts = data.thought_number;
        }
        self.thought_history.push(data.duplicate());
        if data.branch_from_thought.is_some() {
            if let Some(bid) = &data.branch_id {
                let ghost id = bid@;
                match find_branch(&self.branches, bid) {
                    Some(k) => {
                        let ghost bs = self.branches@;
                        let mut b = self.branches.remove(k);
                        b.thoughts.push(data.duplicate());
                        let ghost b2 = b;
                        self.branches.insert(k, b);
                        proof {
                            assert(self.branches@ =~= bs.update(k as int, b2));
                            lemma_branch_lookup_at(bs, k as int, id);
                            lemma_branch_lookup_update(bs, k as int, b2, id);
                            assert(data == adjusted(input));
                            assert(b2.thoughts@ == bs[k as int].thoughts@.push(adjusted(input)));
                            assert(forall|other: Seq<char>|
                                other != id ==> #[trigger] branch_lookup(
                                    bs.update(k as int, b2),
                                    other,
                                ) == branch_lookup(bs, other)) by {
                                assert forall|other: Seq<char>| other != id implies #[trigger] branch_lookup(
                                    bs.update(k as int, b2),
                                    other,
                                ) == branch_lookup(bs, other) by {
                                    lemma_branch_lookup_update_other(bs, k as int, b2, other);
                                }
                            }
                            assert(self.branch_ids() =~= old(self).branch_ids());
                            assert(old(self).branch_ids()[k as int] == id);
                            assert(old(self).branch_ids().contains(id));
                        }
                    },
                    None => {
                        let ghost bs = self.branches@;
                        let mut thoughts: Vec<ThoughtData> = Vec::new();
                        thoughts.push(data.duplicate());
                        let nb = Branch { id: bid.clone(), thoughts };
                        let ghost nbg = nb;
                        self.branches.push(nb);
                        proof {
                            lemma_branch_lookup_append(bs, nbg, id);
                            assert(self.branch_thoughts(id) =~= old(self).branch_thoughts(
                                id,
                            ).push(adjusted(input)));
                            assert(forall|other: Seq<char>|
                                other != id ==> #[trigger] branch_lookup(bs.push(nbg), other)
                                    == branch_lookup(bs, other)) by {
                                assert forall|other: Seq<char>| other != id implies #[trigger] branch_lookup(
                                    bs.push(nbg),
                                    other,
                                ) == branch_lookup(bs, other) by {
                                    lemma_branch_lookup_push_other(bs, nbg, other);
                                }
                            }
                            assert(!old(self).branch_ids().contains(id)) by {
                                if old(self).branch_ids().contains(id) {
                                    let t = choose|t: int|
                                        0 <= t < old(self).branch_ids().len() && old(
                                            self,
                                        ).branch_ids()[t] == id;
                                    assert(bs[t].id@ == id);
                                }
                            }
                            assert(self.branch_ids() =~= old(self).branch_ids().push(id));
                        }
                    },
                }
            }
        }
        ThoughtSummary {
            thought_number: data.thought_number,
            total_thoughts: data.total_thoughts,
            next_thought_needed: data.next_thought_needed,
            branches: self.branch_id_list(),
            thought_history_length: self.thought_history.len(),
        }
    }
}

/// The marker a record is shown under: a revision, a branch, or a plain
/// thought.
pub open spec fn thought_prefix(d: ThoughtData) -> Seq<char> {
    if d.is_revision == Some(true) {
        ("🔄 Revision")@
    } else if d.branch_from_thought is Some {
        ("🌿 Branch")@
    } else {
        ("💭 Thought")@
    }
}

/// The parenthesized context after the counters: the revised thought, or
/// the branch origin and id, or nothing.
pub open spec fn thought_context(d: ThoughtData) -> Seq<char> {
    if d.revises_thought is Some {
        (" (revising thought ")@ + dec_str(d.revises_thought->0 as nat) + (")")@
    } else if d.branch_from_thought is Some {
        (" (from thought ")@ + dec_str(d.branch_from_thought->0 as nat) + (", ID: ")@
            + (match d.branch_id {
            Some(id) => ("Some(\"")@ + id@ + ("\")")@,
            None => ("None")@,
        }) + (")")@
    } else {
        Seq::empty()
    }
}

/// The two-line rendering of a record: marker, counters and context on the
/// first line, the thought text on the second.
pub open spec fn formatted_thought(d: ThoughtData) -> Seq<char> {
    thought_prefix(d) + (" ")@ + dec_str(d.thought_number as nat) + ("/")@ + dec_str(
        d.total_thoughts as nat,
    ) + thought_context(d) + ("\n")@ + d.thought@
}

impl SequentialThinking {
    /// Renders one record for diagnostic output, as [`formatted_thought`]
    /// describes.
    pub fn format_thought(&self, thought_data: &ThoughtData) -> (r: String)
        ensures
            r@ == formatted_thought(*thought_data),
    {
        let mut out: String = if match thought_data.is_revision {
            Some(b) => b,
            None => false,
        } {
            String::from_str("🔄 Revision")
        } else if thought_data.branch_from_thought.is_some() {
            String::from_str("🌿 Branch")
        } else {
            String::from_str("💭 Thought")
        };
        out.append(" ");
        let num = u64_to_dec(thought_data.thought_number as u64);
        out.append(num.as_str());
        out.append("/");
        let total = u64_to_dec(thought_data.total_thoughts as u64);
        out.append(total.as_str());
        if let Some(revises) = thought_data.revises_thought {
            out.append(" (revising thought ");
            let rev = u64_to_dec(revises as u64);
            out.append(rev.as_str());
            out.append(")");
        } else if let Some(branch_from) = thought_data.branch_from_thought {
            out.append(" (from thought ");
            let from = u64_to_dec(branch_from as u64);
            out.append(from.as_str());
            out.append(", ID: ");
            match &thought_data.branch_id {
                Some(id) => {
                    out.append("Some(\"");
                    out.append(id.as_str());
                    out.append("\")");
                },
                None => {
                    out.append("None");
                },
            }
            out.append(")");
        }
        out.append("\n");
        out.append(thought_data.thought.as_str());
        out
    }
}

/// The main sequence after feeding `inputs` to a session whose main
/// sequence reads `h`, one `record_thought` call per record.
pub open spec fn run_history(h: Seq<ThoughtData>, inputs: Seq<ThoughtData>) -> Seq<ThoughtData>
    decreases inputs.len(),
{
    if inputs.len() == 0 {
        h
    } else {
        run_history(h.push(adjusted(inputs[0])), inputs.drop_first())
    }
}

/// The sub-sequence of branch `id` after feeding `inputs` to a session
/// where that branch reads `b`: a record joins the branch exactly when it
/// carries both branch fields with this id.
pub open spec fn run_branch(b: Seq<ThoughtData>, id: Seq<char>, inputs: Seq<ThoughtData>) -> Seq<
    ThoughtData,
>
    decreases inputs.len(),
{
    if inputs.len() == 0 {
        b
    } else {
        run_branch(
            if branch_key(inputs[0]) == Some(id) {
                b.push(adjusted(inputs[0]))
            } else {
                b
            },
            id,
            inputs.drop_first(),
        )
    }
}

proof fn lemma_run_history_snoc(h: Seq<ThoughtData>, xs: Seq<ThoughtData>, x: ThoughtData)
    ensures
        run_history(h, xs.push(x)) == run_history(h, xs).push(adjusted(x)),
    decreases xs.len(),
{
    if xs.len() == 0 {
        assert(xs.push(x)[0] == x);
        assert(xs.push(x).drop_first() =~= Seq::<ThoughtData>::empty());
        assert(run_history(h, xs.push(x)) == run_history(
            h.push(adjusted(x)),
            xs.push(x).drop_first(),
        ));
        assert(run_history(h.push(adjusted(x)), Seq::<ThoughtData>::empty()) == h.push(
            adjusted(x),
        ));
        assert(run_history(h, xs) == h);
    } else {
        assert(xs.push(x)[0] == xs[0]);
        assert(xs.push(x).drop_first() =~= xs.drop_first().push(x));
        lemma_run_history_snoc(h.push(adjusted(xs[0])), xs.drop_first(), x);
        assert(run_history(h, xs.push(x)) == run_history(
            h.push(adjusted(xs[0])),
            xs.drop_first().push(x),
        ));
        assert(run_history(h, xs) == run_history(h.push(adjusted(xs[0])), xs.drop_first()));
    }
}

/// Feeding a session is appending: after any sequence of records, the main
/// sequence is the old one followed by the adjusted records in call order,
/// so the session's record count equals the number of calls made.
pub proof fn lemma_session_history(h: Seq<ThoughtData>, inputs: Seq<ThoughtData>)
    ensures
        run_history(h, inputs) == h + inputs.map_values(|d: ThoughtData| adjusted(d)),
        run_history(h, inputs).len() == h.len() + inputs.len(),
    decreases inputs.len(),
{
    if inputs.len() == 0 {
        assert(h + inputs.map_values(|d: ThoughtData| adjusted(d)) =~= h);
    } else {
        let butlast = inputs.drop_last();
        lemma_session_history(h, butlast);
        lemma_run_history_snoc(h, butlast, inputs.last());
        assert(butlast.push(inputs.last()) =~= inputs);
        assert((h + butlast.map_values(|d: ThoughtData| adjusted(d))).push(
            adjusted(inputs.last()),
        ) =~= h + inputs.map_values(|d: ThoughtData| adjusted(d)));
    }
}

proof fn lemma_run_branch_snoc(
    b: Seq<ThoughtData>,
    id: Seq<char>,
    xs: Seq<ThoughtData>,
    x: ThoughtData,
)
    ensures
        run_branch(b, id, xs.push(x)) == if branch_key(x) == Some(id) {
            run_branch(b, id, xs).push(adjusted(x))
        } else {
            run_branch(b, id, xs)
        },
    decreases xs.len(),
{
    let start = if branch_key(xs.push(x)[0]) == Some(id) {
        b.push(adjusted(xs.push(x)[0]))
    } else {
        b
    };
    if xs.len() == 0 {
        assert(xs.push(x)[0] == x);
        assert(xs.push(x).drop_first() =~= Seq::<ThoughtData>::empty());
        assert(run_branch(b, id, xs.push(x)) == run_branch(start, id, xs.push(x).drop_first()));
        assert(run_branch(start, id, Seq::<ThoughtData>::empty()) == start);
        assert(run_branch(b, id, xs) == b);
    } else {
        assert(xs.push(x)[0] == xs[0]);
        assert(xs.push(x).drop_first() =~= xs.drop_first().push(x));
        let b2 = if branch_key(xs[0]) == Some(id) {
            b.push(adjusted(xs[0]))
        } else {
            b
        };
        assert(start == b2);
        lemma_run_branch_snoc(b2, id, xs.drop_first(), x);
        assert(run_branch(b, id, xs.push(x)) == run_branch(b2, id, xs.drop_first().push(x)));
        assert(run_branch(b, id, xs) == run_branch(b2, id, xs.drop_first()));
    }
}

/// The total a client sees while feeding one session, when each record
/// carries the previously reported total and every call reports it raised
/// to the record's number, as [`adjusted`] does.
pub open spec fn running_total(initial: u32, numbers: Seq<u32>) -> u32
    decreases numbers.len(),
{
    if numbers.len() == 0 {
        initial
    } else {
        running_total(
            if numbers[0] > initial {
                numbers[0]
            } else {
                initial
            },
            numbers.drop_first(),
        )
    }
}

/// Over a whole session the reported total is the largest thought number
/// observed, or the starting total where no number exceeds it: it never
/// falls below the start, dominates every observed number, and is one of
/// them whenever it moved at all.
pub proof fn lemma_running_total_is_max(initial: u32, numbers: Seq<u32>)
    ensures
        running_total(initial, numbers) >= initial,
        forall|t: int| 0 <= t < numbers.len() ==> running_total(initial, numbers) >= numbers[t],
        running_total(initial, numbers) == initial || exists|t: int|
            0 <= t < numbers.len() && running_total(initial, numbers) == numbers[t],
    decreases numbers.len(),
{
    if numbers.len() > 0 {
        let first = numbers[0];
        let start = if first > initial {
            first
        } else {
            initial
        };
        lemma_running_total_is_max(start, numbers.drop_first());
        assert forall|t: int| 0 <= t < numbers.len() implies running_total(initial, numbers)
            >= numbers[t] by {
            if t > 0 {
                assert(numbers.drop_first()[t - 1] == numbers[t]);
            }
        }
        if running_total(initial, numbers) != initial {
            if running_total(start, numbers.drop_first()) == start {
                assert(running_total(initial, numbers) == first);
            } else {
                let t = choose|t: int|
                    0 <= t < numbers.drop_first().len() && running_total(
                        start,
                        numbers.drop_first(),
                    ) == numbers.drop_first()[t];
                assert(numbers[t + 1] == numbers.drop_first()[t]);
            }
        }
    }
}

/// A record with branch id `B` lands in both the main sequence and the
/// branch-`B` sub-sequence, in the same relative order: after any sequence
/// of records, branch `B` holds exactly the adjusted records that carry
/// `B`, in call order, while the main sequence holds them all.
pub proof fn lemma_session_branch(b: Seq<ThoughtData>, id: Seq<char>, inputs: Seq<ThoughtData>)
    ensures
        run_branch(b, id, inputs) == b + inputs.filter(
            |d: ThoughtData| branch_key(d) == Some(id),
        ).map_values(|d: ThoughtData| adjusted(d)),
    decreases inputs.len(),
{
    reveal(Seq::filter);
    let pred = |d: ThoughtData| branch_key(d) == Some(id);
    let adj = |d: ThoughtData| adjusted(d);
    if inputs.len() == 0 {
        assert(b + inputs.filter(pred).map_values(adj) =~= b);
    } else {
        let butlast = inputs.drop_last();
        lemma_session_branch(b, id, butlast);
        lemma_run_branch_snoc(b, id, butlast, inputs.last());
        assert(butlast.push(inputs.last()) =~= inputs);
        if pred(inputs.last()) {
            assert(inputs.filter(pred) == butlast.filter(pred).push(inputs.last()));
            assert((b + butlast.filter(pred).map_values(adj)).push(adjusted(inputs.last())) =~= b
                + inputs.filter(pred).map_values(adj));
        } else {
            assert(inputs.filter(pred) == butlast.filter(pred));
        }
    }
}

/// The raw JSON record carries every required field, well-typed: it is a
/// JSON object whose `thought` is a string, whose `thoughtNumber` and
/// `totalThoughts` are numbers, and whose `nextThoughtNeeded` is a boolean.
pub open spec fn thought_record_parses(v: serde_json::Value) -> bool {
    &&& json_is_object_of(v)
    &&& raw_str_field(v, ("thought")@) is Some
    &&& raw_u64_field(v, ("thoughtNumber")@) is Some
    &&& raw_u64_field(v, ("totalThoughts")@) is Some
    &&& raw_bool_field(v, ("nextThoughtNeeded")@) is Some
}

/// Assembles a record from the extracted raw fields, failing on the first
/// missing or mistyped required field with a message naming it. The
/// numeric fields are taken modulo 2^32, as a plain narrowing cast reads
/// them. A branch is kept only when both of its fields are present.
pub fn build_thought_data(
    thought: Option<String>,
    thought_number: Option<u64>,
    total_thoughts: Option<u64>,
    next_thought_needed: Option<bool>,
    branch_from_thought: Option<u64>,
    branch_id: Option<String>,
) -> (r: Result<ThoughtData, String>)
    ensures
        thought is None ==> (r matches Err(e) && e@ == ("Invalid thought: must be a string")@),
        thought is Some && thought_number is None ==> (r matches Err(e) && e@ == (
        "Invalid thoughtNumber: must be a number")@),
        thought is Some && thought_number is Some && total_thoughts is None ==> (r matches Err(e)
            && e@ == ("Invalid totalThoughts: must be a number")@),
        thought is Some && thought_number is Some && total_thoughts is Some
            && next_thought_needed is None ==> (r matches Err(e) && e@ == (
        "Invalid nextThoughtNeeded: must be a boolean")@),
        thought is Some && thought_number is Some && total_thoughts is Some
            && next_thought_needed is Some ==> (r matches Ok(d) && {
            &&& d.thought == thought->0
            &&& d.thought_number == thought_number->0 as u32
            &&& d.total_thoughts == total_thoughts->0 as u32
            &&& d.next_thought_needed == next_thought_needed->0
            &&& d.is_revision is None
            &&& d.revises_thought is None
            &&& d.needs_more_thoughts is None
            &&& (match (branch_from_thought, branch_id) {
                (Some(from), Some(id)) => d.branch_from_thought == Some(from as u32)
                    && d.branch_id == Some(id),
                _ => d.branch_from_thought is None && d.branch_id is None,
            })
        }),
{
    let thought = match thought {
        Some(t) => t,
        None => {
            return Err(String::from_str("Invalid thought: must be a string"));
        },
    };
    let thought_number = match thought_number {
        Some(n) => n,
        None => {
            return Err(String::from_str("Invalid thoughtNumber: must be a number"));
        },
    };
    let total_thoughts = match total_thoughts {
        Some(n) => n,
        None => {
            return Err(String::from_str("Invalid totalThoughts: must be a number"));
        },
    };
    let next_thought_needed = match next_thought_needed {
        Some(b) => b,
        None => {
            return Err(String::from_str("Invalid nextThoughtNeeded: must be a boolean"));
        },
    };
    let number32: u32 = #[verifier::truncate] (thought_number as u32);
    let total32: u32 = #[verifier::truncate] (total_thoughts as u32);
    let mut data = ThoughtData::new(thought, number32, total32, next_thought_needed);
    if let Some(from) = branch_from_thought {
        if let Some(id) = branch_id {
            data = data.with_branch(#[verifier::truncate] (from as u32), id);
        }
    }
    Ok(data)
}

impl SequentialThinking {
    /// Parses a raw JSON record into a [`ThoughtData`]. The required
    /// fields are `thought` (a string), `thoughtNumber` and
    /// `totalThoughts` (numbers), and `nextThoughtNeeded` (a boolean);
    /// `branchFromThought` and `branchId` are optional, kept only when
    /// both are present and well-typed. What each opaque JSON read hands
    /// back is decided by [`build_thought_data`].
    pub fn validate_thought_data(&self, input: &serde_json::Value) -> (r: Result<
        ThoughtData,
        String,
    >)
        ensures
            !json_is_object_of(*input) ==> (r matches Err(e) && e@ == (
            "Input must be a JSON object")@),
            json_is_object_of(*input) ==> ({
                let v = *input;
                let thought = raw_str_field(v, ("thought")@);
                let number = raw_u64_field(v, ("thoughtNumber")@);
                let total = raw_u64_field(v, ("totalThoughts")@);
                let next = raw_bool_field(v, ("nextThoughtNeeded")@);
                &&& (thought is None ==> (r matches Err(e) && e@ == (
                "Invalid thought: must be a string")@))
                &&& (thought is Some && number is None ==> (r matches Err(e) && e@ == (
                "Invalid thoughtNumber: must be a number")@))
                &&& (thought is Some && number is Some && total is None ==> (r matches Err(e)
                    && e@ == ("Invalid totalThoughts: must be a number")@))
                &&& (thought is Some && number is Some && total is Some && next is None ==> (
                r matches Err(e) && e@ == ("Invalid nextThoughtNeeded: must be a boolean")@))
                &&& (thought is Some && number is Some && total is Some && next is Some ==> (
                r matches Ok(d) && {
                    &&& d.thought@ == thought->0
                    &&& d.thought_number == number->0 as u32
                    &&& d.total_thoughts == total->0 as u32
                    &&& d.next_thought_needed == next->0
                    &&& d.is_revision is None
                    &&& d.revises_thought is None
                    &&& d.needs_more_thoughts is None
                    &&& (match (raw_u64_field(v, ("branchFromThought")@), raw_str_field(
                        v,
                        ("branchId")@,
                    )) {
                        (Some(from), Some(id)) => d.branch_from_thought == Some(from as u32) && (
                        d.branch_id matches Some(b) && b@ == id),
                        _ => d.branch_from_thought is None && d.branch_id is None,
                    })
                }))
            }),
    {
        if !json_is_object(input) {
            return Err(String::from_str("Input must be a JSON object"));
        }
        let thought = match json_get(input, "thought") {
            Some(v) => json_as_str(v),
            None => None,
        };
        let thought_number = match json_get(input, "thoughtNumber") {
            Some(v) => json_as_u64(v),
            None => None,
        };
        let total_thoughts = match json_get(input, "totalThoughts") {
            Some(v) => json_as_u64(v),
            None => None,
        };
        let next_thought_needed = match json_get(input, "nextThoughtNeeded") {
            Some(v) => json_as_bool(v),
            None => None,
        };
        let branch_from_thought = match json_get(input, "branchFromThought") {
            Some(v) => json_as_u64(v),
            None => None,
        };
        let branch_id = match json_get(input, "branchId") {
            Some(v) => json_as_str(v),
            None => None,
        };
        build_thought_data(
            thought,
            thought_number,
            total_thoughts,
            next_thought_needed,
            branch_from_thought,
            branch_id,
        )
    }

    /// Parses a raw JSON record and records it: [`validate_thought_data`]
    /// followed by [`Self::record_thought`], with the formatted record
    /// written to the diagnostic stream. Fails exactly on malformed input
    /// and then leaves the session untouched; a well-formed record is
    /// appended with its total raised to its number when needed.
    pub fn process_thought(&mut self, input: &serde_json::Value) -> (r: Result<
        ThoughtSummary,
        String,
    >)
        requires
            old(self).wf(),
        ensures
            final(self).wf(),
            r is Ok <==> thought_record_parses(*input),
            r is Err ==> *final(self) == *old(self),
            r matches Ok(s) ==> ({
                let v = *input;
                let number = raw_u64_field(v, ("thoughtNumber")@)->0 as u32;
                let total_given = raw_u64_field(v, ("totalThoughts")@)->0 as u32;
                let total = if number > total_given {
                    number
                } else {
                    total_given
                };
                let next = raw_bool_field(v, ("nextThoughtNeeded")@)->0;
                &&& final(self).history().len() == old(self).history().len() + 1
                &&& final(self).history().drop_last() == old(self).history()
                &&& ({
                    let d = final(self).history().last();
                    &&& d.thought@ == raw_str_field(v, ("thought")@)->0
                    &&& d.thought_number == number
                    &&& d.total_thoughts == total
                    &&& d.next_thought_needed == next
                    &&& (match (raw_u64_field(v, ("branchFromThought")@), raw_str_field(
                        v,
                        ("branchId")@,
                    )) {
                        (Some(from), Some(id)) => d.branch_from_thought == Some(from as u32) && (
                        d.branch_id matches Some(b) && b@ == id),
                        _ => d.branch_from_thought is None && d.branch_id is None,
                    })
                    &&& (branch_key(d) matches Some(id) ==> final(self).branch_thoughts(id)
                        == old(self).branch_thoughts(id).push(d) && final(self).branch_ids() == (
                    if old(self).branch_ids().contains(id) {
                        old(self).branch_ids()
                    } else {
                        old(self).branch_ids().push(id)
                    }))
                    &&& (branch_key(d) is None ==> final(self).branch_ids() == old(
                        self,
                    ).branch_ids())
                })
                &&& s.thought_number == number
                &&& s.total_thoughts == total
                &&& s.next_thought_needed == next
                &&& s.thought_history_length == old(self).history().len() + 1
                &&& s.branches.deep_view() == final(self).branch_ids()
            }),
    {
        let mut data = match self.validate_thought_data(input) {
            Ok(d) => d,
            Err(e) => {
                return Err(e);
            },
        };
        if data.thought_number > data.total_thoughts {
            data.total_thoughts = data.thought_number;
        }
        let line = self.format_thought(&data);
        proof {
            assert(adjusted(data) == data);
        }
        let summary = self.record_thought(data);
        proof {
            assert(self.history().drop_last() =~= old(self).history());
        }
        emit_diagnostic(line.as_str());
        Ok(summary)
    }
}

impl Default for SequentialThinking {
    fn default() -> (r: Self)
        ensures
            r.history() == Seq::<ThoughtData>::empty(),
            r.branches_view() == Seq::<Branch>::empty(),
            r.branch_ids() == Seq::<Seq<char>>::empty(),
            r.wf(),
    {
        Self::new()
    }
}

} // verus!
