//! Chained failures and their flattening into an ordered list of records.
//!
//! A [`Failure`] is one node of a causal chain: it has a type label, an
//! optional display text, an optional raw stack trace, and an optional
//! cause, which is again a `Failure`. Flattening walks the chain from the
//! outermost node to the root cause and yields one record per node.

use vstd::prelude::*;
use crate::record::{
    copy_text,
    copy_trace,
    records_view,
    text_view,
    trace_view,
    ExceptionRecord,
    Frame,
    RecordView,
};

verus! {

/// One node of a chain of causally linked failures.
#[derive(Debug, PartialEq, Eq)]
pub struct Failure {
    pub type_label: String,
    pub display: Option<String>,
    pub backtrace: Option<Vec<Frame>>,
    pub cause: Option<Box<Failure>>,
}

impl Failure {
    /// The number of nodes in the chain that starts at this node.
    pub open spec fn depth(self) -> nat
        decreases self,
    {
        match self.cause {
            Some(inner) => 1 + inner.depth(),
            None => 1,
        }
    }

    /// The record of this node alone: its label, its display text and its
    /// raw trace, exactly as the node holds them.
    pub open spec fn record(self) -> RecordView {
        RecordView {
            type_label: self.type_label@,
            value: text_view(self.display),
            stacktrace: trace_view(self.backtrace),
        }
    }

    /// The node reached from this one by following `steps` cause links.
    pub open spec fn nth(self, steps: nat) -> Failure
        recommends
            steps < self.depth(),
        decreases steps,
    {
        if steps == 0 {
            self
        } else {
            match self.cause {
                Some(inner) => inner.nth((steps - 1) as nat),
                None => self,
            }
        }
    }

    /// The records of the chain, outermost node first, root cause last.
    pub open spec fn records(self) -> Seq<RecordView>
        decreases self,
    {
        match self.cause {
            Some(inner) => seq![self.record()] + inner.records(),
            None => seq![self.record()],
        }
    }

    /// A failure without a cause and without a trace.
    pub fn root(type_label: String, display: Option<String>) -> (node: Failure)
        ensures
            node.type_label == type_label,
            node.display == display,
            node.backtrace is None,
            node.cause is None,
            node.depth() == 1,
    {
        Failure { type_label, display, backtrace: None, cause: None }
    }

    /// A failure that wraps `cause`: the new node becomes the outermost one
    /// and `cause` the next in the chain.
    pub fn wrapping(
        type_label: String,
        display: Option<String>,
        backtrace: Option<Vec<Frame>>,
        cause: Failure,
    ) -> (node: Failure)
        ensures
            node.type_label == type_label,
            node.display == display,
            node.backtrace == backtrace,
            node.cause == Some(Box::new(cause)),
            node.depth() == cause.depth() + 1,
            node.records() == seq![node.record()] + cause.records(),
    {
        Failure { type_label, display, backtrace, cause: Some(Box::new(cause)) }
    }

    /// The record of this node alone.
    pub fn to_record(&self) -> (record: ExceptionRecord)
        ensures
            record@ == self.record(),
    {
        ExceptionRecord {
            type_label: self.type_label.clone(),
            value: copy_text(&self.display),
            stacktrace: copy_trace(&self.backtrace),
        }
    }
}

/// Flattening yields exactly one record per node, and the record at index
/// `i` is that of the node reached after `i` cause links: the outermost
/// failure stands first and the root cause last.
pub proof fn lemma_flatten_one_record_per_node(chain: Failure)
    ensures
        chain.records().len() == chain.depth(),
        forall|i: int|
            0 <= i < chain.depth() ==> #[trigger] chain.records()[i] == chain.nth(
                i as nat,
            ).record(),
    decreases chain,
{
    match chain.cause {
        Some(inner) => {
            lemma_flatten_one_record_per_node(*inner);
            assert forall|i: int| 0 <= i < chain.depth() implies #[trigger] chain.records()[i]
                == chain.nth(i as nat).record() by {
                if i > 0 {
                    assert(chain.records()[i] == inner.records()[i - 1]);
                    assert(chain.nth(i as nat) == inner.nth((i - 1) as nat));
                }
            }
        },
        None => {},
    }
}

/// The first record of a flattened chain is that of the outermost node, and
/// the last one is that of the root cause.
pub proof fn lemma_flatten_ends(chain: Failure)
    ensures
        chain.records().len() >= 1,
        chain.records()[0] == chain.record(),
        chain.records().last() == chain.nth((chain.depth() - 1) as nat).record(),
        chain.nth((chain.depth() - 1) as nat).cause is None,
    decreases chain,
{
    lemma_flatten_one_record_per_node(chain);
    match chain.cause {
        Some(inner) => {
            lemma_flatten_ends(*inner);
            assert(chain.nth((chain.depth() - 1) as nat) == inner.nth(
                (inner.depth() - 1) as nat,
            ));
        },
        None => {},
    }
}

/// Walks the chain from its outermost node to its root cause and returns
/// one record per node, in that order. Each record holds the node's label,
/// its display text and its raw, unfiltered trace; a node without a trace
/// gives a record without one.
pub fn flatten(chain: &Failure) -> (records: Vec<ExceptionRecord>)
    ensures
        records_view(records@) == chain.records(),
        records@.len() == chain.depth(),
{
    let mut records: Vec<ExceptionRecord> = Vec::new();
    let mut node: &Failure = chain;
    loop
        invariant_except_break
            records_view(records@) + node.records() == chain.records(),
        ensures
            records_view(records@) == chain.records(),
        decreases node.depth(),
    {
        let ghost before = records@;
        records.push(node.to_record());
        assert(records_view(records@) =~= records_view(before).push(node.record()));
        match &node.cause {
            Some(inner) => {
                assert(records_view(records@) + inner.records() =~= records_view(before)
                    + node.records());
                node = &**inner;
            },
            None => {
                assert(records_view(records@) =~= records_view(before) + node.records());
                break;
            },
        }
    }
    proof {
        lemma_flatten_one_record_per_node(*chain);
    }
    records
}

/// Links records into a chain: the first record becomes the outermost
/// node, the last one the root cause, and each node takes label, display
/// text and trace from its record. An empty list gives no chain. Flattening
/// the chain gives the records back.
pub fn chain_from_records(records: Vec<ExceptionRecord>) -> (chain: Option<Failure>)
    ensures
        records@.len() == 0 <==> chain is None,
        chain is Some ==> chain->0.records() == records_view(records@),
        chain is Some ==> chain->0.depth() == records@.len(),
{
    let ghost views = records_view(records@);
    let ghost total = records@.len() as int;
    let mut rest = records;
    let mut chain: Option<Failure> = None;
    while rest.len() > 0
        invariant
            views == records_view(records@),
            total == records@.len(),
            rest@.len() <= total,
            forall|k: int| 0 <= k < rest@.len() ==> (#[trigger] rest@[k])@ == views[k],
            rest@.len() == total <==> chain is None,
            chain is Some ==> chain->0.records() == views.subrange(rest@.len() as int, total),
        decreases rest.len(),
    {
        let ghost k = rest@.len() as int;
        match rest.pop() {
            Some(record) => {
                assert(record@ == views[k - 1]);
                let ExceptionRecord { type_label, value, stacktrace } = record;
                let cause = match chain {
                    Some(inner) => Some(Box::new(inner)),
                    None => None,
                };
                let node = Failure { type_label, display: value, backtrace: stacktrace, cause };
                assert(node.record() == views[k - 1]);
                assert(node.records() =~= views.subrange(k - 1, total));
                chain = Some(node);
            },
            None => {},
        }
    }
    proof {
        if chain is Some {
            assert(views.subrange(0, total) =~= views);
            lemma_flatten_one_record_per_node(chain->0);
        }
    }
    chain
}

} // verus!
