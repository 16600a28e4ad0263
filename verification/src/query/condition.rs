//! The conditions of a `WHERE` clause and their evaluation against one
//! record.

use vstd::prelude::*;
use crate::query::data::KeyAccess;
use crate::query::error::{QueryError, QueryErrorView};
use crate::query::token::Logical;
use crate::query::value::{compare_spec, truth_outcome, Operator, Value, ValueView};

verus! {

/// One comparison of a condition chain, as mathematics sees it.
pub struct Leaf {
    pub attribute: Seq<char>,
    pub operation: Operator,
    pub value: ValueView,
}

/// A comparison of an attribute with a literal, and the chain of the
/// comparisons that follow it, each joined to the one before by a
/// connective. A chain has at least one comparison.
#[derive(Debug, PartialEq)]
pub struct Condition {
    pub attribute: String,
    pub operation: Operator,
    pub value: Value,
    pub next: Option<(Logical, Box<Condition>)>,
}

impl Condition {
    /// The comparison at the head of the chain.
    pub open spec fn head(self) -> Leaf {
        Leaf { attribute: self.attribute@, operation: self.operation, value: self.value@ }
    }

    /// The comparisons of the chain, in order.
    pub open spec fn leaves(self) -> Seq<Leaf>
        decreases self,
    {
        match self.next {
            None => seq![self.head()],
            Some((_, rest)) => seq![self.head()] + rest.leaves(),
        }
    }

    /// The connectives of the chain, in order: one fewer than its
    /// comparisons.
    pub open spec fn connectives(self) -> Seq<Logical>
        decreases self,
    {
        match self.next {
            None => seq![],
            Some((logical, rest)) => seq![logical] + rest.connectives(),
        }
    }

    pub proof fn lemma_shape(self)
        ensures
            self.leaves().len() == self.connectives().len() + 1,
            self.leaves()[0] == self.head(),
        decreases self,
    {
        match self.next {
            None => {},
            Some((_, rest)) => {
                rest.lemma_shape();
            },
        }
    }

    /// A single comparison.
    pub fn new(attribute: String, operation: Operator, value: Value) -> (r: Condition)
        ensures
            r.leaves() == seq![
                Leaf { attribute: attribute@, operation: operation, value: value@ },
            ],
            r.connectives() == Seq::<Logical>::empty(),
    {
        Condition { attribute, operation, value, next: None }
    }

    /// Appends `condition` at the end of the chain, joined by `logical`.
    pub fn add_next_condition(&mut self, logical: Logical, condition: Condition)
        ensures
            final(self).leaves() == old(self).leaves() + condition.leaves(),
            final(self).connectives() == old(self).connectives().push(logical)
                + condition.connectives(),
        decreases *old(self),
    {
        let ghost before = *self;
        match &mut self.next {
            Some((_, rest)) => {
                let ghost tail = **rest;
                rest.add_next_condition(logical, condition);
                assert(seq![before.head()] + (tail.leaves() + condition.leaves()) =~= (seq![
                    before.head(),
                ] + tail.leaves()) + condition.leaves());
                assert(seq![(before.next->0).0] + (tail.connectives().push(logical)
                    + condition.connectives()) =~= (seq![(before.next->0).0]
                    + tail.connectives()).push(logical) + condition.connectives());
            },
            None => {
                self.next = Some((logical, Box::new(condition)));
                assert(before.connectives().push(logical) + condition.connectives() =~= seq![
                    logical,
                ] + condition.connectives());
            },
        }
    }
}

impl Clone for Condition {
    fn clone(&self) -> (r: Self)
        ensures
            r.leaves() == self.leaves(),
            r.connectives() == self.connectives(),
        decreases self,
    {
        match &self.next {
            None => Condition {
                attribute: self.attribute.clone(),
                operation: self.operation,
                value: self.value.clone(),
                next: None,
            },
            Some((logical, rest)) => {
                let tail = (**rest).clone();
                Condition {
                    attribute: self.attribute.clone(),
                    operation: self.operation,
                    value: self.value.clone(),
                    next: Some((*logical, Box::new(tail))),
                }
            },
        }
    }
}

/// A chain of truth values, each joined to the one before by a connective:
/// what a condition chain comes to on one record.
#[derive(Debug, PartialEq)]
pub struct ConditionResult {
    pub val: bool,
    pub next: Option<(Logical, Box<ConditionResult>)>,
}

impl ConditionResult {
    /// The truth values of the chain, in order.
    pub open spec fn values(self) -> Seq<bool>
        decreases self,
    {
        match self.next {
            None => seq![self.val],
            Some((_, rest)) => seq![self.val] + rest.values(),
        }
    }

    /// The connectives of the chain, in order.
    pub open spec fn connectives(self) -> Seq<Logical>
        decreases self,
    {
        match self.next {
            None => seq![],
            Some((logical, rest)) => seq![logical] + rest.connectives(),
        }
    }

    pub proof fn lemma_shape(self)
        ensures
            self.values().len() == self.connectives().len() + 1,
            self.values()[0] == self.val,
        decreases self,
    {
        match self.next {
            None => {},
            Some((_, rest)) => {
                rest.lemma_shape();
            },
        }
    }

    /// Appends `val` at the end of the chain, joined by `logical`.
    pub fn add_next_condition(&mut self, logical: Logical, val: bool)
        ensures
            final(self).values() == old(self).values().push(val),
            final(self).connectives() == old(self).connectives().push(logical),
        decreases *old(self),
    {
        let ghost before = *self;
        match &mut self.next {
            Some((_, rest)) => {
                let ghost tail = **rest;
                rest.add_next_condition(logical, val);
                assert(seq![before.val] + tail.values().push(val) =~= (seq![before.val]
                    + tail.values()).push(val));
                assert(seq![(before.next->0).0] + tail.connectives().push(logical) =~= (seq![
                    (before.next->0).0,
                ] + tail.connectives()).push(logical));
            },
            None => {
                self.next = Some((logical, Box::new(ConditionResult { val, next: None })));
                assert(self.values() =~= before.values().push(val)) by {
                    reveal_with_fuel(ConditionResult::values, 3);
                }
                assert(self.connectives() =~= before.connectives().push(logical)) by {
                    reveal_with_fuel(ConditionResult::connectives, 3);
                }
            },
        }
    }
}

/// One pass over a chain of truth values for the connective `op`, from left
/// to right: two neighbours joined by `op` become one value, which keeps the
/// connective that followed the second of them, and the pass goes on behind
/// that pair; a value joined to its right neighbour by the other connective
/// is carried over with its connective. The result is the new chain, as its
/// values and its connectives.
pub open spec fn pass_spec(values: Seq<bool>, connectives: Seq<Logical>, op: Logical) -> (
    Seq<bool>,
    Seq<Logical>,
)
    decreases values.len(),
{
    if connectives.len() == 0 || values.len() < 2 {
        (values, seq![])
    } else if connectives[0] == op {
        let merged = op.apply(values[0], values[1]);
        if connectives.len() == 1 || values.len() < 3 {
            (seq![merged], seq![])
        } else {
            let rest = pass_spec(values.skip(2), connectives.skip(2), op);
            (seq![merged] + rest.0, seq![connectives[1]] + rest.1)
        }
    } else {
        let rest = pass_spec(values.skip(1), connectives.skip(1), op);
        (seq![values[0]] + rest.0, seq![connectives[0]] + rest.1)
    }
}

/// The truth value that a chain comes to. A single value stands for itself.
/// A longer chain goes through one pass for `OR` and then one pass for
/// `AND`; if more than one value is left, the first two are joined by the
/// connective between them.
pub open spec fn collapse_spec(values: Seq<bool>, connectives: Seq<Logical>) -> bool {
    if connectives.len() == 0 {
        values[0]
    } else {
        let first = pass_spec(values, connectives, Logical::Or);
        let second = pass_spec(first.0, first.1, Logical::And);
        if second.1.len() > 0 {
            second.1[0].apply(second.0[0], second.0[1])
        } else {
            second.0[0]
        }
    }
}

impl ConditionResult {
    /// One pass over the chain for the connective `op`.
    pub fn collapse_pass(&self, op: Logical) -> (r: ConditionResult)
        ensures
            (r.values(), r.connectives()) == pass_spec(self.values(), self.connectives(), op),
        decreases self,
    {
        proof {
            self.lemma_shape();
        }
        match &self.next {
            None => ConditionResult { val: self.val, next: None },
            Some((logical, second)) => {
                proof {
                    second.lemma_shape();
                    assert(self.values().skip(1) =~= second.values());
                    assert(self.connectives().skip(1) =~= second.connectives());
                }
                if *logical == op {
                    let merged = op.eval(self.val, second.val);
                    match &second.next {
                        None => ConditionResult { val: merged, next: None },
                        Some((following, third)) => {
                            proof {
                                third.lemma_shape();
                                assert(self.values().skip(2) =~= third.values());
                                assert(self.connectives().skip(2) =~= third.connectives());
                            }
                            let rest = third.collapse_pass(op);
                            ConditionResult { val: merged, next: Some((*following, Box::new(rest))) }
                        },
                    }
                } else {
                    let rest = second.collapse_pass(op);
                    ConditionResult { val: self.val, next: Some((*logical, Box::new(rest))) }
                }
            },
        }
    }

    /// The truth value that the chain comes to.
    pub fn collapse(&self) -> (r: bool)
        ensures
            r == collapse_spec(self.values(), self.connectives()),
    {
        proof {
            self.lemma_shape();
        }
        if self.next.is_none() {
            return self.val;
        }
        let first = self.collapse_pass(Logical::Or);
        let second = first.collapse_pass(Logical::And);
        proof {
            second.lemma_shape();
        }
        match &second.next {
            Some((logical, other)) => {
                proof {
                    other.lemma_shape();
                    assert(second.values()[1] == other.values()[0]);
                }
                logical.eval(second.val, other.val)
            },
            None => second.val,
        }
    }
}

/// What one comparison comes to on a record: the attribute is read, and its
/// value is compared with the literal.
pub open spec fn leaf_spec<T: KeyAccess>(data: &T, leaf: Leaf) -> Result<bool, QueryErrorView> {
    match data.attribute(leaf.attribute) {
        Ok(v) => compare_spec(v, leaf.value, leaf.operation),
        Err(e) => Err(e),
    }
}

/// The truth values of the comparisons `leaves` on a record, or the error
/// of the first of them that fails.
pub open spec fn leaves_spec<T: KeyAccess>(data: &T, leaves: Seq<Leaf>) -> Result<
    Seq<bool>,
    QueryErrorView,
>
    decreases leaves.len(),
{
    if leaves.len() == 0 {
        Ok(seq![])
    } else {
        match leaves_spec(data, leaves.drop_last()) {
            Err(e) => Err(e),
            Ok(values) => match leaf_spec(data, leaves.last()) {
                Err(e) => Err(e),
                Ok(b) => Ok(values.push(b)),
            },
        }
    }
}

/// What a condition chain comes to on a record.
pub open spec fn conditions_spec<T: KeyAccess>(
    data: &T,
    leaves: Seq<Leaf>,
    connectives: Seq<Logical>,
) -> Result<bool, QueryErrorView> {
    match leaves_spec(data, leaves) {
        Err(e) => Err(e),
        Ok(values) => Ok(collapse_spec(values, connectives)),
    }
}

/// Evaluates one comparison on a record.
pub fn compute_leaf<T: KeyAccess>(data: &T, condition: &Condition) -> (r: Result<bool, QueryError>)
    ensures
        truth_outcome(r) == leaf_spec(data, condition.head()),
{
    match data.access(condition.attribute.as_str()) {
        Ok(v) => v.compare(condition.value.clone(), condition.operation),
        Err(e) => Err(e),
    }
}

/// Decides whether a record meets a condition chain: every comparison is
/// evaluated, in order, and the chain of their truth values is collapsed.
/// The first comparison that fails ends the evaluation with its error.
pub fn compute_conditions<T: KeyAccess>(data: &T, conditions: Condition) -> (r: Result<
    bool,
    QueryError,
>)
    ensures
        truth_outcome(r) == conditions_spec(data, conditions.leaves(), conditions.connectives()),
{
    let first = match compute_leaf(data, &conditions) {
        Ok(b) => b,
        Err(e) => {
            proof {
                lemma_leaves_fail(data, conditions.leaves(), 0);
                conditions.lemma_shape();
            }
            return Err(e);
        },
    };
    let mut result_tree = ConditionResult { val: first, next: None };
    let mut current: &Condition = &conditions;
    let ghost mut done: int = 1;
    proof {
        conditions.lemma_shape();
        assert(conditions.leaves().take(1) =~= seq![conditions.head()]);
        assert(seq![conditions.head()].drop_last() =~= Seq::<Leaf>::empty());
        assert(conditions.leaves().skip(0) =~= conditions.leaves());
        assert(conditions.connectives().skip(0) =~= conditions.connectives());
        assert(conditions.connectives().take(0) =~= Seq::<Logical>::empty());
    }
    loop
        invariant
            1 <= done <= conditions.leaves().len(),
            conditions.leaves().len() == conditions.connectives().len() + 1,
            current.leaves() == conditions.leaves().skip(done - 1),
            current.connectives() == conditions.connectives().skip(done - 1),
            leaves_spec(data, conditions.leaves().take(done)) == Ok::<Seq<bool>, QueryErrorView>(
                result_tree.values(),
            ),
            result_tree.connectives() == conditions.connectives().take(done - 1),
        ensures
            done == conditions.leaves().len(),
            leaves_spec(data, conditions.leaves()) == Ok::<Seq<bool>, QueryErrorView>(
                result_tree.values(),
            ),
            result_tree.connectives() == conditions.connectives(),
        decreases conditions.leaves().len() - done,
    {
        proof {
            current.lemma_shape();
        }
        match &current.next {
            None => {
                proof {
                    assert(conditions.leaves().take(done) =~= conditions.leaves());
                    assert(conditions.connectives().take(done - 1) =~= conditions.connectives());
                }
                break ;
            },
            Some((logical, rest)) => {
                proof {
                    rest.lemma_shape();
                    assert(rest.leaves() =~= current.leaves().skip(1));
                    assert(current.leaves().skip(1) =~= conditions.leaves().skip(done));
                    assert(rest.connectives() =~= current.connectives().skip(1));
                    assert(current.connectives().skip(1) =~= conditions.connectives().skip(done));
                    assert(current.connectives()[0] == *logical);
                    assert(conditions.connectives().skip(done - 1)[0]
                        == conditions.connectives()[done - 1]);
                    assert(conditions.leaves().skip(done)[0] == conditions.leaves()[done]);
                    assert(rest.head() == conditions.leaves()[done]);
                    assert(conditions.leaves().take(done + 1).drop_last()
                        =~= conditions.leaves().take(done));
                    assert(conditions.connectives().take(done) =~= conditions.connectives().take(
                        done - 1,
                    ).push(*logical));
                }
                match compute_leaf(data, rest) {
                    Ok(b) => {
                        result_tree.add_next_condition(*logical, b);
                    },
                    Err(e) => {
                        proof {
                            lemma_leaves_fail(data, conditions.leaves(), done);
                        }
                        return Err(e);
                    },
                }
                current = rest;
                proof {
                    done = done + 1;
                }
            },
        }
    }
    Ok(result_tree.collapse())
}

/// Where the comparisons before position `at` succeed and the one at `at`
/// fails, the whole sequence fails with that error.
pub proof fn lemma_leaves_fail<T: KeyAccess>(data: &T, leaves: Seq<Leaf>, at: int)
    requires
        0 <= at < leaves.len(),
        leaves_spec(data, leaves.take(at)) is Ok,
        leaf_spec(data, leaves[at]) is Err,
    ensures
        leaves_spec(data, leaves) == Err::<Seq<bool>, QueryErrorView>(
            leaf_spec(data, leaves[at])->Err_0,
        ),
    decreases leaves.len(),
{
    if at == leaves.len() - 1 {
        assert(leaves.drop_last() =~= leaves.take(at));
    } else {
        assert(leaves.drop_last().take(at) =~= leaves.take(at));
        lemma_leaves_fail(data, leaves.drop_last(), at);
    }
}

} // verus!
