//! The typed values that records yield and literals denote.

use vstd::prelude::*;
use crate::query::error::{QueryError, QueryErrorView};
use crate::text::{chars_of, contains_chars, contains_seq, lowercase, to_lowercase};

verus! {

/// The number of decimal places that a fractional number keeps.
pub const DECIMAL_PLACES: usize = 18;

/// The number of units in one: ten to the power `DECIMAL_PLACES`.
pub const UNITS_PER_ONE: i128 = 1_000_000_000_000_000_000;

/// A fractional number in fixed point: `units` counts quintillionths, so the
/// number is `units / 10^18`. Two numbers are equal exactly when their units
/// are.
#[derive(Clone, Copy, Debug, PartialEq, Eq, Structural)]
pub struct Decimal {
    pub units: i128,
}

/// The comparison that a condition makes.
#[derive(Clone, Copy, Debug, PartialEq, Eq, Structural)]
pub enum Operator {
    Equals,
    NotEquals,
    Like,
    In,
    NotIn,
    Less,
    LessEqual,
    Greater,
    GreaterEqual,
}

/// Which variant a value is.
#[derive(Clone, Copy, Debug, PartialEq, Eq, Structural)]
pub enum Kind {
    Str,
    Int,
    Float,
    Bool,
    List,
}

/// A value of the query language.
#[derive(Debug, PartialEq)]
pub enum Value {
    Str(String),
    Int(i64),
    Float(Decimal),
    Bool(bool),
    List(Vec<Value>),
}

/// What a `Value` holds, as mathematics sees it.
pub enum ValueView {
    Str(Seq<char>),
    Int(i64),
    Float(Decimal),
    Bool(bool),
    List(Seq<ValueView>),
}

impl View for Value {
    type V = ValueView;

    open spec fn view(&self) -> ValueView
        decreases self,
    {
        match self {
            Value::Str(s) => ValueView::Str(s@),
            Value::Int(i) => ValueView::Int(*i),
            Value::Float(d) => ValueView::Float(*d),
            Value::Bool(b) => ValueView::Bool(*b),
            Value::List(items) => ValueView::List(
                Seq::new(
                    items@.len(),
                    |i: int|
                        if 0 <= i < items@.len() {
                            items@[i]@
                        } else {
                            ValueView::Bool(false)
                        },
                ),
            ),
        }
    }
}

/// The views of the values of `items`, in order.
pub open spec fn views_of(items: Seq<Value>) -> Seq<ValueView> {
    Seq::new(items.len(), |i: int| items[i]@)
}

pub proof fn lemma_list_view(items: Vec<Value>)
    ensures
        Value::List(items)@ == ValueView::List(views_of(items@)),
{
    reveal_with_fuel(<Value as View>::view, 2);
    assert(Value::List(items)@->List_0 =~= views_of(items@));
}

impl ValueView {
    pub open spec fn kind(self) -> Kind {
        match self {
            ValueView::Str(_) => Kind::Str,
            ValueView::Int(_) => Kind::Int,
            ValueView::Float(_) => Kind::Float,
            ValueView::Bool(_) => Kind::Bool,
            ValueView::List(_) => Kind::List,
        }
    }

    /// The number that a numeric value stands for, counted in units of
    /// `10^-18`; `None` for a value that is no number.
    pub open spec fn units(self) -> Option<int> {
        match self {
            ValueView::Int(i) => Some(i * UNITS_PER_ONE),
            ValueView::Float(d) => Some(d.units as int),
            _ => None,
        }
    }
}

impl Value {
    pub fn kind(&self) -> (r: Kind)
        ensures
            r == self@.kind(),
    {
        match self {
            Value::Str(_) => Kind::Str,
            Value::Int(_) => Kind::Int,
            Value::Float(_) => Kind::Float,
            Value::Bool(_) => Kind::Bool,
            Value::List(_) => Kind::List,
        }
    }

    /// Structural equality: the same variant with the same content.
    pub fn same(&self, other: &Value) -> (r: bool)
        ensures
            r == (self@ == other@),
        decreases self,
    {
        match (self, other) {
            (Value::Str(a), Value::Str(b)) => *a == *b,
            (Value::Int(a), Value::Int(b)) => *a == *b,
            (Value::Float(a), Value::Float(b)) => a.units == b.units,
            (Value::Bool(a), Value::Bool(b)) => *a == *b,
            (Value::List(a), Value::List(b)) => {
                proof {
                    lemma_list_view(*a);
                    lemma_list_view(*b);
                }
                if a.len() != b.len() {
                    assert(views_of(a@).len() != views_of(b@).len());
                    return false;
                }
                let mut i: usize = 0;
                while i < a.len()
                    invariant
                        i <= a.len(),
                        a.len() == b.len(),
                        *self == Value::List(*a),
                        self@ == ValueView::List(views_of(a@)),
                        other@ == ValueView::List(views_of(b@)),
                        forall|j: int| 0 <= j < i ==> a@[j]@ == b@[j]@,
                    decreases a.len() - i,
                {
                    assert(self->List_0 == *a);
                    assert(decreases_to!(*self => self->List_0[i as int]));
                    if !a[i].same(&b[i]) {
                        assert(views_of(a@)[i as int] != views_of(b@)[i as int]);
                        return false;
                    }
                    i += 1;
                }
                assert(views_of(a@) =~= views_of(b@));
                true
            },
            _ => false,
        }
    }

    /// A copy of the value.
    pub fn duplicate(&self) -> (r: Value)
        ensures
            r@ == self@,
        decreases self,
    {
        match self {
            Value::Str(s) => Value::Str(s.clone()),
            Value::Int(i) => Value::Int(*i),
            Value::Float(d) => Value::Float(*d),
            Value::Bool(b) => Value::Bool(*b),
            Value::List(items) => {
                let mut out: Vec<Value> = Vec::new();
                let mut i: usize = 0;
                while i < items.len()
                    invariant
                        i <= items.len(),
                        out@.len() == i,
                        *self == Value::List(*items),
                        forall|j: int| 0 <= j < i ==> out@[j]@ == items@[j]@,
                    decreases items.len() - i,
                {
                    assert(self->List_0 == *items);
                    assert(decreases_to!(*self => self->List_0[i as int]));
                    out.push(items[i].duplicate());
                    i += 1;
                }
                proof {
                    lemma_list_view(*items);
                    lemma_list_view(out);
                    assert(views_of(out@) =~= views_of(items@));
                }
                Value::List(out)
            },
        }
    }
}


/// Whether every value of `items` is of the variant `kind`.
pub open spec fn all_of_kind(items: Seq<ValueView>, kind: Kind) -> bool {
    forall|i: int| 0 <= i < items.len() ==> (#[trigger] items[i]).kind() == kind
}

/// Whether `probe` is among `items`; an error where an item is of another
/// variant than the probe. Nothing is among the items of an empty list.
pub open spec fn member_spec(items: Seq<ValueView>, probe: ValueView, op: Operator) -> Result<
    bool,
    QueryErrorView,
> {
    if all_of_kind(items, probe.kind()) {
        Ok(items.contains(probe))
    } else {
        Err(QueryErrorView::ListMismatch(op))
    }
}

/// `IN`: exactly one of the two operands is a list, and the other is looked
/// for in it.
pub open spec fn membership_spec(lhs: ValueView, rhs: ValueView, op: Operator) -> Result<
    bool,
    QueryErrorView,
> {
    match (lhs, rhs) {
        (ValueView::List(_), ValueView::List(_)) => Err(QueryErrorView::NeedsOneList(op)),
        (ValueView::List(items), probe) => member_spec(items, probe, op),
        (probe, ValueView::List(items)) => member_spec(items, probe, op),
        _ => Err(QueryErrorView::NeedsOneList(op)),
    }
}

/// The four ordering operators: both operands are numbers, compared exactly
/// as the numbers they stand for. `<=` and `>=` hold where the strict
/// comparison holds or the two values are structurally equal, so that an
/// integer is never `<=` the fractional number of the same size.
pub open spec fn ordering_spec(lhs: ValueView, rhs: ValueView, op: Operator) -> Result<
    bool,
    QueryErrorView,
> {
    match (lhs.units(), rhs.units()) {
        (Some(a), Some(b)) => Ok(
            match op {
                Operator::Less => a < b,
                Operator::LessEqual => a < b || lhs == rhs,
                Operator::Greater => a > b,
                _ => a > b || lhs == rhs,
            },
        ),
        _ => Err(QueryErrorView::NotNumeric(op)),
    }
}

/// What `lhs <op> rhs` is.
pub open spec fn compare_spec(lhs: ValueView, rhs: ValueView, op: Operator) -> Result<
    bool,
    QueryErrorView,
> {
    match op {
        Operator::Equals => Ok(lhs == rhs),
        Operator::NotEquals => Ok(lhs != rhs),
        Operator::Like => match (lhs, rhs) {
            (ValueView::Str(a), ValueView::Str(b)) => Ok(contains_seq(lowercase(a), b)),
            _ => Err(QueryErrorView::LikeNeedsStrings),
        },
        Operator::In => membership_spec(lhs, rhs, op),
        Operator::NotIn => match membership_spec(lhs, rhs, op) {
            Ok(found) => Ok(!found),
            Err(e) => Err(e),
        },
        _ => ordering_spec(lhs, rhs, op),
    }
}

/// What a result with a truth value holds, as mathematics sees it.
pub open spec fn truth_outcome(r: Result<bool, QueryError>) -> Result<bool, QueryErrorView> {
    match r {
        Ok(b) => Ok(b),
        Err(e) => Err(e@),
    }
}

impl Value {
    /// The number that a numeric value stands for, in units of `10^-18`.
    pub fn units(&self) -> (r: Option<i128>)
        ensures
            match r {
                Some(u) => self@.units() == Some(u as int),
                None => self@.units() is None,
            },
    {
        match self {
            Value::Int(i) => {
                assert(-0x8000_0000_0000_0000 * 1_000_000_000_000_000_000 <= *i
                    * 1_000_000_000_000_000_000 <= 0x8000_0000_0000_0000
                    * 1_000_000_000_000_000_000) by (nonlinear_arith)
                    requires
                        -0x8000_0000_0000_0000 <= *i <= 0x8000_0000_0000_0000,
                ;
                Some((*i as i128) * UNITS_PER_ONE)
            },
            Value::Float(d) => Some(d.units),
            _ => None,
        }
    }

    /// Whether `probe` is among `items`.
    fn member(items: &Vec<Value>, probe: &Value, op: Operator) -> (r: Result<bool, QueryError>)
        ensures
            truth_outcome(r) == member_spec(views_of(items@), probe@, op),
    {
        let kind = probe.kind();
        let mut found = false;
        let mut i: usize = 0;
        while i < items.len()
            invariant
                i <= items.len(),
                kind == probe@.kind(),
                forall|j: int| 0 <= j < i ==> (#[trigger] views_of(items@)[j]).kind() == kind,
                found == views_of(items@).take(i as int).contains(probe@),
            decreases items.len() - i,
        {
            if items[i].kind() != kind {
                assert(views_of(items@)[i as int].kind() != kind);
                return Err(QueryError::ListMismatch(op));
            }
            let here = items[i].same(probe);
            proof {
                let all = views_of(items@);
                let before = all.take(i as int);
                let after = all.take(i + 1);
                assert(after =~= before.push(all[i as int]));
                if found {
                    let k = choose|k: int| 0 <= k < before.len() && before[k] == probe@;
                    assert(after[k] == probe@);
                }
                if here {
                    assert(after[i as int] == probe@);
                }
                if after.contains(probe@) {
                    let k = choose|k: int| 0 <= k < after.len() && after[k] == probe@;
                    if k < i {
                        assert(before[k] == probe@);
                    }
                }
            }
            found = found || here;
            i += 1;
        }
        assert(views_of(items@).take(items.len() as int) =~= views_of(items@));
        Ok(found)
    }

    fn membership(&self, rhs: &Value, op: Operator) -> (r: Result<bool, QueryError>)
        ensures
            truth_outcome(r) == membership_spec(self@, rhs@, op),
    {
        match (self, rhs) {
            (Value::List(_), Value::List(_)) => Err(QueryError::NeedsOneList(op)),
            (Value::List(items), probe) => {
                proof {
                    lemma_list_view(*items);
                }
                Value::member(items, probe, op)
            },
            (probe, Value::List(items)) => {
                proof {
                    lemma_list_view(*items);
                }
                Value::member(items, probe, op)
            },
            _ => Err(QueryError::NeedsOneList(op)),
        }
    }

    fn ordering(&self, rhs: &Value, op: Operator) -> (r: Result<bool, QueryError>)
        requires
            op == Operator::Less || op == Operator::LessEqual || op == Operator::Greater || op
                == Operator::GreaterEqual,
        ensures
            truth_outcome(r) == ordering_spec(self@, rhs@, op),
    {
        match (self.units(), rhs.units()) {
            (Some(a), Some(b)) => Ok(
                match op {
                    Operator::Less => a < b,
                    Operator::LessEqual => a < b || self.same(rhs),
                    Operator::Greater => a > b,
                    _ => a > b || self.same(rhs),
                },
            ),
            _ => Err(QueryError::NotNumeric(op)),
        }
    }

    /// Decides `self <op> rhs`.
    ///
    /// `==` and `!=` compare structurally, and a whole number never equals a
    /// fractional one. `LIKE` takes two strings and looks for the right one,
    /// as it is written, in the lower-case form of the left one. `IN` and
    /// `NOT IN` take a list on exactly one side. The ordering operators take
    /// numbers.
    pub fn compare(self, rhs: Value, op: Operator) -> (r: Result<bool, QueryError>)
        ensures
            truth_outcome(r) == compare_spec(self@, rhs@, op),
    {
        match op {
            Operator::Equals => Ok(self.same(&rhs)),
            Operator::NotEquals => Ok(!self.same(&rhs)),
            Operator::Like => match (&self, &rhs) {
                (Value::Str(a), Value::Str(b)) => {
                    let lowered = to_lowercase(a.as_str());
                    let hay = chars_of(lowered.as_str());
                    let needle = chars_of(b.as_str());
                    Ok(contains_chars(hay.as_slice(), needle.as_slice()))
                },
                _ => Err(QueryError::LikeNeedsStrings),
            },
            Operator::In => self.membership(&rhs, op),
            Operator::NotIn => match self.membership(&rhs, op) {
                Ok(found) => Ok(!found),
                Err(e) => Err(e),
            },
            _ => self.ordering(&rhs, op),
        }
    }
}

impl Clone for Value {
    fn clone(&self) -> (r: Self)
        ensures
            r@ == self@,
    {
        self.duplicate()
    }
}

} // verus!
