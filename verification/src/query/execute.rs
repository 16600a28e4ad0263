//! The executor: rows are filtered by the conditions of a statement, and
//! what is left is projected or aggregated.

use vstd::prelude::*;
use crate::query::condition::{compute_conditions, conditions_spec, Condition};
use crate::query::data::KeyAccess;
use crate::query::error::{QueryError, QueryErrorView};
use crate::query::statements::{chain_view, Aggregation, ChainView, SelectStatement};
use crate::query::value::{views_of, Decimal, Value, ValueView};
use crate::text::{copy_names, texts_of};

verus! {

/// The result of an aggregation for one target.
#[derive(Clone, Copy, Debug, PartialEq, Eq, Structural)]
pub enum AggregationResult {
    /// A count of rows.
    Int(u64),
    /// A mean.
    Float(Decimal),
}

/// One target of an aggregation with its result.
#[derive(Debug, PartialEq)]
pub struct Aggregated {
    pub target: String,
    pub result: AggregationResult,
}

/// What a statement yields: structured data for the display, never text.
#[derive(Debug, PartialEq)]
pub enum QueryOutput {
    /// The rows that passed the conditions, each as the values of the
    /// targets, in the order of the targets.
    Table { targets: Vec<String>, rows: Vec<Vec<Value>> },
    /// The result of the aggregation for each target, in the order of the
    /// targets.
    Aggregate(Vec<Aggregated>),
}

pub enum OutputView {
    Table { targets: Seq<Seq<char>>, rows: Seq<Seq<ValueView>> },
    Aggregate(Seq<(Seq<char>, AggregationResult)>),
}

/// The rows of a table, as mathematics sees them.
pub open spec fn table_view(rows: Seq<Vec<Value>>) -> Seq<Seq<ValueView>> {
    Seq::new(rows.len(), |i: int| views_of(rows[i]@))
}

/// The results of an aggregation, as mathematics sees them.
pub open spec fn aggregate_view(results: Seq<Aggregated>) -> Seq<(Seq<char>, AggregationResult)> {
    Seq::new(results.len(), |i: int| (results[i].target@, results[i].result))
}

impl View for QueryOutput {
    type V = OutputView;

    open spec fn view(&self) -> OutputView {
        match self {
            QueryOutput::Table { targets, rows } => OutputView::Table {
                targets: texts_of(targets@),
                rows: table_view(rows@),
            },
            QueryOutput::Aggregate(results) => OutputView::Aggregate(aggregate_view(results@)),
        }
    }
}

/// Whether a row passes the conditions. Every row passes where there are
/// none.
pub open spec fn passes_spec<T: KeyAccess>(row: &T, chain: Option<ChainView>) -> Result<
    bool,
    QueryErrorView,
> {
    match chain {
        None => Ok(true),
        Some(c) => conditions_spec(row, c.leaves, c.connectives),
    }
}

/// The positions of the rows that pass the conditions, in order, or the
/// error of the first row on which the conditions fail.
pub open spec fn kept_spec<T: KeyAccess>(rows: Seq<T>, chain: Option<ChainView>) -> Result<
    Seq<int>,
    QueryErrorView,
>
    decreases rows.len(),
{
    if rows.len() == 0 {
        Ok(seq![])
    } else {
        match kept_spec(rows.drop_last(), chain) {
            Err(e) => Err(e),
            Ok(kept) => match passes_spec(&rows.last(), chain) {
                Err(e) => Err(e),
                Ok(pass) => Ok(
                    if pass {
                        kept.push(rows.len() - 1)
                    } else {
                        kept
                    },
                ),
            },
        }
    }
}

/// Every kept position is the position of a row.
pub proof fn lemma_kept_in_range<T: KeyAccess>(rows: Seq<T>, chain: Option<ChainView>)
    requires
        kept_spec(rows, chain) is Ok,
    ensures
        kept_spec(rows, chain)->Ok_0.len() <= rows.len(),
        forall|i: int|
            0 <= i < kept_spec(rows, chain)->Ok_0.len() ==> 0 <= (#[trigger] kept_spec(
                rows,
                chain,
            )->Ok_0[i]) < rows.len(),
    decreases rows.len(),
{
    if rows.len() > 0 {
        lemma_kept_in_range(rows.drop_last(), chain);
    }
}

/// Where the rows before position `at` pass or fail the conditions without
/// an error and the conditions fail with an error on the row at `at`, the
/// filtering fails with that error.
pub proof fn lemma_kept_fails<T: KeyAccess>(rows: Seq<T>, chain: Option<ChainView>, at: int)
    requires
        0 <= at < rows.len(),
        kept_spec(rows.take(at), chain) is Ok,
        passes_spec(&rows[at], chain) is Err,
    ensures
        kept_spec(rows, chain) == Err::<Seq<int>, QueryErrorView>(
            passes_spec(&rows[at], chain)->Err_0,
        ),
    decreases rows.len(),
{
    if at == rows.len() - 1 {
        assert(rows.drop_last() =~= rows.take(at));
    } else {
        assert(rows.drop_last().take(at) =~= rows.take(at));
        lemma_kept_fails(rows.drop_last(), chain, at);
    }
}

/// The positions in `v`, as mathematics sees them.
pub open spec fn positions(v: Seq<usize>) -> Seq<int> {
    Seq::new(v.len(), |i: int| v[i] as int)
}

/// The positions of the rows that pass the conditions.
pub fn filter_rows<T: KeyAccess>(rows: &Vec<T>, conditions: &Option<Condition>) -> (r: Result<
    Vec<usize>,
    QueryError,
>)
    ensures
        match r {
            Ok(kept) => kept_spec(rows@, chain_view(*conditions)) == Ok::<
                Seq<int>,
                QueryErrorView,
            >(positions(kept@)),
            Err(e) => kept_spec(rows@, chain_view(*conditions)) == Err::<Seq<int>, QueryErrorView>(
                e@,
            ),
        },
{
    let mut kept: Vec<usize> = Vec::new();
    let mut i: usize = 0;
    let ghost chain = chain_view(*conditions);
    proof {
        assert(positions(kept@) =~= Seq::<int>::empty());
    }
    while i < rows.len()
        invariant
            i <= rows.len(),
            chain == chain_view(*conditions),
            kept_spec(rows@.take(i as int), chain) == Ok::<Seq<int>, QueryErrorView>(
                positions(kept@),
            ),
        decreases rows.len() - i,
    {
        proof {
            assert(rows@.take(i + 1).drop_last() =~= rows@.take(i as int));
            assert(rows@.take(i + 1).last() == rows@[i as int]);
        }
        let pass = match conditions {
            None => true,
            Some(c) => match compute_conditions(&rows[i], c.clone()) {
                Ok(b) => b,
                Err(e) => {
                    proof {
                        lemma_kept_fails(rows@, chain, i as int);
                    }
                    return Err(e);
                },
            },
        };
        if pass {
            let ghost before = positions(kept@);
            kept.push(i);
            proof {
                assert(positions(kept@) =~= before.push(i as int));
            }
        }
        i += 1;
    }
    proof {
        assert(rows@.take(rows.len() as int) =~= rows@);
    }
    Ok(kept)
}

/// The values of the attributes `targets` of a row, in order, or the error
/// of the first of them that the row does not have.
pub open spec fn project_spec<T: KeyAccess>(row: &T, targets: Seq<Seq<char>>) -> Result<
    Seq<ValueView>,
    QueryErrorView,
>
    decreases targets.len(),
{
    if targets.len() == 0 {
        Ok(seq![])
    } else {
        match project_spec(row, targets.drop_last()) {
            Err(e) => Err(e),
            Ok(values) => match row.attribute(targets.last()) {
                Err(e) => Err(e),
                Ok(v) => Ok(values.push(v)),
            },
        }
    }
}

pub proof fn lemma_project_fails<T: KeyAccess>(row: &T, targets: Seq<Seq<char>>, at: int)
    requires
        0 <= at < targets.len(),
        project_spec(row, targets.take(at)) is Ok,
        row.attribute(targets[at]) is Err,
    ensures
        project_spec(row, targets) == Err::<Seq<ValueView>, QueryErrorView>(
            row.attribute(targets[at])->Err_0,
        ),
    decreases targets.len(),
{
    if at == targets.len() - 1 {
        assert(targets.drop_last() =~= targets.take(at));
    } else {
        assert(targets.drop_last().take(at) =~= targets.take(at));
        lemma_project_fails(row, targets.drop_last(), at);
    }
}

/// The values of the attributes `targets` of a row.
pub fn project<T: KeyAccess>(row: &T, targets: &Vec<String>) -> (r: Result<Vec<Value>, QueryError>)
    ensures
        match r {
            Ok(values) => project_spec(row, texts_of(targets@)) == Ok::<
                Seq<ValueView>,
                QueryErrorView,
            >(views_of(values@)),
            Err(e) => project_spec(row, texts_of(targets@)) == Err::<
                Seq<ValueView>,
                QueryErrorView,
            >(e@),
        },
{
    let mut values: Vec<Value> = Vec::new();
    let mut i: usize = 0;
    let ghost names = texts_of(targets@);
    proof {
        assert(views_of(values@) =~= Seq::<ValueView>::empty());
    }
    while i < targets.len()
        invariant
            i <= targets.len(),
            names == texts_of(targets@),
            project_spec(row, names.take(i as int)) == Ok::<Seq<ValueView>, QueryErrorView>(
                views_of(values@),
            ),
        decreases targets.len() - i,
    {
        proof {
            assert(names.take(i + 1).drop_last() =~= names.take(i as int));
            assert(names.take(i + 1).last() == targets@[i as int]@);
        }
        match row.access(targets[i].as_str()) {
            Ok(v) => {
                let ghost before = views_of(values@);
                values.push(v);
                proof {
                    assert(views_of(values@) =~= before.push(v@));
                }
            },
            Err(e) => {
                proof {
                    assert(names[i as int] == targets@[i as int]@);
                    lemma_project_fails(row, names, i as int);
                }
                return Err(e);
            },
        }
        i += 1;
    }
    proof {
        assert(names.take(targets.len() as int) =~= names);
    }
    Ok(values)
}

/// The rows at the positions `kept`, each as the values of the attributes
/// `targets`, or the error of the first row that lacks one of them.
pub open spec fn table_spec<T: KeyAccess>(rows: Seq<T>, kept: Seq<int>, targets: Seq<Seq<char>>)
    -> Result<Seq<Seq<ValueView>>, QueryErrorView>
    decreases kept.len(),
{
    if kept.len() == 0 {
        Ok(seq![])
    } else {
        match table_spec(rows, kept.drop_last(), targets) {
            Err(e) => Err(e),
            Ok(table) => match project_spec(&rows[kept.last()], targets) {
                Err(e) => Err(e),
                Ok(values) => Ok(table.push(values)),
            },
        }
    }
}

pub proof fn lemma_table_fails<T: KeyAccess>(
    rows: Seq<T>,
    kept: Seq<int>,
    targets: Seq<Seq<char>>,
    at: int,
)
    requires
        0 <= at < kept.len(),
        table_spec(rows, kept.take(at), targets) is Ok,
        project_spec(&rows[kept[at]], targets) is Err,
    ensures
        table_spec(rows, kept, targets) == Err::<Seq<Seq<ValueView>>, QueryErrorView>(
            project_spec(&rows[kept[at]], targets)->Err_0,
        ),
    decreases kept.len(),
{
    if at == kept.len() - 1 {
        assert(kept.drop_last() =~= kept.take(at));
    } else {
        assert(kept.drop_last().take(at) =~= kept.take(at));
        lemma_table_fails(rows, kept.drop_last(), targets, at);
    }
}

/// The rows at the positions `kept` as a table.
pub fn build_rows<T: KeyAccess>(rows: &Vec<T>, kept: &Vec<usize>, targets: &Vec<String>) -> (r:
    Result<Vec<Vec<Value>>, QueryError>)
    requires
        forall|i: int| 0 <= i < kept@.len() ==> (#[trigger] kept@[i]) < rows@.len(),
    ensures
        match r {
            Ok(table) => table_spec(rows@, positions(kept@), texts_of(targets@)) == Ok::<
                Seq<Seq<ValueView>>,
                QueryErrorView,
            >(table_view(table@)),
            Err(e) => table_spec(rows@, positions(kept@), texts_of(targets@)) == Err::<
                Seq<Seq<ValueView>>,
                QueryErrorView,
            >(e@),
        },
{
    let mut table: Vec<Vec<Value>> = Vec::new();
    let mut i: usize = 0;
    let ghost at = positions(kept@);
    let ghost names = texts_of(targets@);
    proof {
        assert(table_view(table@) =~= Seq::<Seq<ValueView>>::empty());
    }
    while i < kept.len()
        invariant
            i <= kept.len(),
            at == positions(kept@),
            names == texts_of(targets@),
            forall|j: int| 0 <= j < kept@.len() ==> (#[trigger] kept@[j]) < rows@.len(),
            table_spec(rows@, at.take(i as int), names) == Ok::<
                Seq<Seq<ValueView>>,
                QueryErrorView,
            >(table_view(table@)),
        decreases kept.len() - i,
    {
        proof {
            assert(at.take(i + 1).drop_last() =~= at.take(i as int));
            assert(at.take(i + 1).last() == kept@[i as int] as int);
            assert(at[i as int] == kept@[i as int] as int);
        }
        match project(&rows[kept[i]], targets) {
            Ok(values) => {
                let ghost before = table_view(table@);
                table.push(values);
                proof {
                    assert(table_view(table@) =~= before.push(views_of(values@)));
                }
            },
            Err(e) => {
                proof {
                    lemma_table_fails(rows@, at, names, i as int);
                }
                return Err(e);
            },
        }
        i += 1;
    }
    proof {
        assert(at.take(kept.len() as int) =~= at);
    }
    Ok(table)
}

/// What a row adds to the sum of the attribute `name`, in units of
/// `10^-18`: the number that the attribute is, or an error where the row
/// lacks the attribute or its value is no number.
pub open spec fn addend_spec<T: KeyAccess>(row: &T, name: Seq<char>) -> Result<int, QueryErrorView> {
    match row.attribute(name) {
        Err(e) => Err(e),
        Ok(v) => match v.units() {
            Some(u) => Ok(u),
            None => Err(QueryErrorView::AverageNotNumeric(name)),
        },
    }
}

/// The sum of the attribute `name` over the rows at the positions `kept`,
/// in units of `10^-18`. An error where a row adds none: the error of the
/// first such row.
pub open spec fn total_spec<T: KeyAccess>(rows: Seq<T>, kept: Seq<int>, name: Seq<char>) -> Result<
    int,
    QueryErrorView,
>
    decreases kept.len(),
{
    if kept.len() == 0 {
        Ok(0)
    } else {
        match total_spec(rows, kept.drop_last(), name) {
            Err(e) => Err(e),
            Ok(sum) => match addend_spec(&rows[kept.last()], name) {
                Err(e) => Err(e),
                Ok(u) => Ok(sum + u),
            },
        }
    }
}

pub proof fn lemma_total_fails<T: KeyAccess>(
    rows: Seq<T>,
    kept: Seq<int>,
    name: Seq<char>,
    at: int,
)
    requires
        0 <= at < kept.len(),
        total_spec(rows, kept.take(at + 1), name) is Err,
    ensures
        total_spec(rows, kept, name) == total_spec(rows, kept.take(at + 1), name),
    decreases kept.len(),
{
    if at == kept.len() - 1 {
        assert(kept.take(at + 1) =~= kept);
    } else {
        assert(kept.drop_last().take(at + 1) =~= kept.take(at + 1));
        lemma_total_fails(rows, kept.drop_last(), name, at);
    }
}

/// The mean of a sum over `rows` rows, rounded towards zero to a whole
/// number of units.
pub open spec fn mean_spec(total: int, rows: int) -> int {
    if total >= 0 {
        total / rows
    } else {
        -((-total) / rows)
    }
}

/// Whether `quotient` and `rest` are the sum `sum` divided by `rows`: the
/// quotient rounded down, and what is left over.
pub open spec fn divides(sum: int, rows: int, quotient: int, rest: int) -> bool {
    sum == quotient * rows + rest && 0 <= rest < rows
}

/// A number divided by `rows`, the quotient rounded down.
fn divide(v: i128, n: u128) -> (r: (i128, u128))
    requires
        0 < n,
    ensures
        divides(v as int, n as int, r.0 as int, r.1 as int),
{
    if v >= 0 {
        let m = v as u128;
        let q = m / n;
        let rest = m % n;
        proof {
            vstd::arithmetic::div_mod::lemma_fundamental_div_mod(m as int, n as int);
            assert(q <= m) by (nonlinear_arith)
                requires
                    m == n * q + rest,
                    0 <= rest,
                    n >= 1,
                    q >= 0,
            ;
            assert(n * q == q * n) by (nonlinear_arith);
        }
        (q as i128, rest)
    } else {
        let m: u128 = if v == i128::MIN {
            170141183460469231731687303715884105728u128
        } else {
            (-v) as u128
        };
        let q = m / n;
        let rest = m % n;
        proof {
            vstd::arithmetic::div_mod::lemma_fundamental_div_mod(m as int, n as int);
            assert(q <= m) by (nonlinear_arith)
                requires
                    m == n * q + rest,
                    0 <= rest,
                    n >= 1,
                    q >= 0,
            ;
            assert(n * q == q * n) by (nonlinear_arith);
        }
        if rest == 0 {
            let quotient: i128 = if q == 170141183460469231731687303715884105728u128 {
                i128::MIN
            } else {
                -(q as i128)
            };
            assert(v == quotient * n) by (nonlinear_arith)
                requires
                    -v == q * n,
                    quotient == -q,
            ;
            (quotient, 0)
        } else {
            assert(q < 170141183460469231731687303715884105728) by (nonlinear_arith)
                requires
                    m == q * n + rest,
                    rest > 0,
                    n >= 1,
                    q >= 0,
                    m <= 170141183460469231731687303715884105728,
            ;
            let quotient: i128 = -(q as i128) - 1;
            assert(v == quotient * n + (n - rest)) by (nonlinear_arith)
                requires
                    -v == q * n + rest,
                    quotient == -q - 1,
            ;
            (quotient, n - rest)
        }
    }
}

/// Adds the number `v` to a sum of `count` numbers that is held as its
/// quotient by `rows` and what is left over. The sum itself may be too
/// large to be held; its quotient by `rows` never is, as long as no more
/// than `rows` numbers are added up.
fn add_divided(q: i128, rest: u128, v: i128, n: u128, Ghost(sum): Ghost<int>, Ghost(count): Ghost<
    int,
>) -> (r: (i128, u128))
    requires
        0 < n <= u64::MAX,
        divides(sum, n as int, q as int, rest as int),
        0 <= count < n,
        count * i128::MIN <= sum <= count * i128::MAX,
    ensures
        divides(sum + v, n as int, r.0 as int, r.1 as int),
        (count + 1) * i128::MIN <= sum + v <= (count + 1) * i128::MAX,
{
    let (qv, rv) = divide(v, n);
    let both = rest + rv;
    let carry: i128 = if both >= n {
        1
    } else {
        0
    };
    let left: u128 = if both >= n {
        both - n
    } else {
        both
    };
    let ghost total = sum + v;
    let ghost quotient: int = q + qv + carry;
    proof {
        assert(total == quotient * n + left) by (nonlinear_arith)
            requires
                total == sum + v,
                sum == q * n + rest,
                v == qv * n + rv,
                quotient == q + qv + carry,
                left == rest + rv - carry * n,
        ;
        assert((count + 1) * i128::MIN <= total <= (count + 1) * i128::MAX) by (nonlinear_arith)
            requires
                total == sum + v,
                count * i128::MIN <= sum <= count * i128::MAX,
                i128::MIN <= v <= i128::MAX,
        ;
        assert(n * i128::MIN <= total <= n * i128::MAX) by (nonlinear_arith)
            requires
                (count + 1) * i128::MIN <= total <= (count + 1) * i128::MAX,
                0 <= count + 1 <= n,
        ;
        assert(i128::MIN <= quotient <= i128::MAX) by (nonlinear_arith)
            requires
                total == quotient * n + left,
                0 <= left < n,
                n * i128::MIN <= total <= n * i128::MAX,
        ;
    }
    let next: i128 = if qv >= 0 {
        (q + qv) + carry
    } else {
        q + (qv + carry)
    };
    (next, left)
}

/// The mean of a sum that is held as its quotient by `rows` and what is
/// left over.
fn round_to_zero(q: i128, rest: u128, n: u128, Ghost(sum): Ghost<int>) -> (r: i128)
    requires
        0 < n,
        divides(sum, n as int, q as int, rest as int),
        q < i128::MAX || rest == 0,
    ensures
        r == mean_spec(sum, n as int),
{
    if q >= 0 {
        proof {
            assert(sum >= 0) by (nonlinear_arith)
                requires
                    sum == q * n + rest,
                    q >= 0,
                    n > 0,
                    rest >= 0,
            ;
            vstd::arithmetic::div_mod::lemma_fundamental_div_mod_converse(
                sum,
                n as int,
                q as int,
                rest as int,
            );
        }
        q
    } else if rest == 0 {
        proof {
            assert(sum < 0 && -sum == (-q) * n + 0) by (nonlinear_arith)
                requires
                    sum == q * n + rest,
                    rest == 0,
                    q < 0,
                    n > 0,
            ;
            vstd::arithmetic::div_mod::lemma_fundamental_div_mod_converse(
                -sum,
                n as int,
                -(q as int),
                0,
            );
        }
        q
    } else {
        proof {
            assert(sum < 0 && -sum == (-q - 1) * n + (n - rest)) by (nonlinear_arith)
                requires
                    sum == q * n + rest,
                    0 < rest < n,
                    q < 0,
            ;
            vstd::arithmetic::div_mod::lemma_fundamental_div_mod_converse(
                -sum,
                n as int,
                -(q as int) - 1,
                n - rest,
            );
        }
        q + 1
    }
}

fn unnumeric(name: &String) -> (r: QueryError)
    ensures
        r@ == QueryErrorView::AverageNotNumeric(name@),
{
    QueryError::AverageNotNumeric(name.clone())
}

/// The mean of the attribute `name` over the rows at the positions `kept`,
/// rounded towards zero to a whole number of units. The sum of the rows is
/// never formed, so that a mean of numbers that can be held can be held
/// whatever their sum is.
pub fn mean_of<T: KeyAccess>(rows: &Vec<T>, kept: &Vec<usize>, name: &String) -> (r: Result<
    i128,
    QueryError,
>)
    requires
        kept@.len() > 0,
        forall|i: int| 0 <= i < kept@.len() ==> (#[trigger] kept@[i]) < rows@.len(),
    ensures
        match r {
            Ok(mean) => total_spec(rows@, positions(kept@), name@) is Ok && mean == mean_spec(
                total_spec(rows@, positions(kept@), name@)->Ok_0,
                kept@.len() as int,
            ),
            Err(e) => total_spec(rows@, positions(kept@), name@) == Err::<int, QueryErrorView>(e@),
        },
{
    let n = kept.len() as u128;
    let mut q: i128 = 0;
    let mut rest: u128 = 0;
    let ghost mut sum: int = 0;
    let mut i: usize = 0;
    let ghost at = positions(kept@);
    while i < kept.len()
        invariant
            i <= kept.len(),
            n == kept.len(),
            n > 0,
            at == positions(kept@),
            forall|j: int| 0 <= j < kept@.len() ==> (#[trigger] kept@[j]) < rows@.len(),
            total_spec(rows@, at.take(i as int), name@) == Ok::<int, QueryErrorView>(sum),
            divides(sum, n as int, q as int, rest as int),
            i * i128::MIN <= sum <= i * i128::MAX,
        decreases kept.len() - i,
    {
        proof {
            assert(at.take(i + 1).drop_last() =~= at.take(i as int));
            assert(at.take(i + 1).last() == kept@[i as int] as int);
        }
        let value = match rows[kept[i]].access(name.as_str()) {
            Ok(v) => v,
            Err(e) => {
                proof {
                    lemma_total_fails(rows@, at, name@, i as int);
                }
                return Err(e);
            },
        };
        let units = match value.units() {
            Some(u) => u,
            None => {
                proof {
                    lemma_total_fails(rows@, at, name@, i as int);
                }
                return Err(unnumeric(name));
            },
        };
        let next = add_divided(q, rest, units, n, Ghost(sum), Ghost(i as int));
        q = next.0;
        rest = next.1;
        proof {
            sum = sum + units;
        }
        i += 1;
    }
    proof {
        assert(at.take(kept.len() as int) =~= at);
        assert(q < i128::MAX || rest == 0) by (nonlinear_arith)
            requires
                sum == q * n + rest,
                0 <= rest < n,
                sum <= n * i128::MAX,
        ;
    }
    Ok(round_to_zero(q, rest, n, Ghost(sum)))
}

/// The names `names` without those that occur earlier among them: each
/// name once, in the order in which the names first occur.
pub open spec fn without_repeats(names: Seq<Seq<char>>) -> Seq<Seq<char>>
    decreases names.len(),
{
    if names.len() == 0 {
        seq![]
    } else {
        let before = without_repeats(names.drop_last());
        if before.contains(names.last()) {
            before
        } else {
            before.push(names.last())
        }
    }
}

/// Whether no name occurs twice among `names`.
pub open spec fn no_repeats(names: Seq<Seq<char>>) -> bool {
    forall|i: int, j: int| 0 <= i < j < names.len() ==> #[trigger] names[i] != #[trigger] names[j]
}

/// What is left of names without their repeats holds no name twice.
pub proof fn lemma_without_repeats(names: Seq<Seq<char>>)
    ensures
        no_repeats(without_repeats(names)),
    decreases names.len(),
{
    if names.len() > 0 {
        lemma_without_repeats(names.drop_last());
        let before = without_repeats(names.drop_last());
        let after = without_repeats(names);
        assert forall|i: int, j: int| 0 <= i < j < after.len() implies #[trigger] after[i]
            != #[trigger] after[j] by {
            if before.contains(names.last()) {
            } else {
                if j < before.len() {
                    assert(after[i] == before[i]);
                    assert(after[j] == before[j]);
                } else {
                    assert(after[i] == before[i]);
                    assert(before.contains(before[i]));
                }
            }
        }
    }
}

/// The targets of an aggregation, each once.
pub fn distinct_targets(targets: &Vec<String>) -> (r: Vec<String>)
    ensures
        texts_of(r@) == without_repeats(texts_of(targets@)),
{
    let ghost names = texts_of(targets@);
    let mut out: Vec<String> = Vec::new();
    let mut i: usize = 0;
    assert(names.take(0) =~= Seq::<Seq<char>>::empty());
    assert(texts_of(out@) =~= without_repeats(names.take(0)));
    while i < targets.len()
        invariant
            i <= targets.len(),
            names == texts_of(targets@),
            texts_of(out@) == without_repeats(names.take(i as int)),
        decreases targets.len() - i,
    {
        let ghost before = texts_of(out@);
        proof {
            assert(names.take(i + 1).drop_last() =~= names.take(i as int));
            assert(names.take(i + 1).last() == targets@[i as int]@);
        }
        let mut found = false;
        let mut k: usize = 0;
        while k < out.len()
            invariant
                k <= out.len(),
                i < targets.len(),
                before == texts_of(out@),
                found == before.take(k as int).contains(targets@[i as int]@),
            decreases out.len() - k,
        {
            let ghost name = targets@[i as int]@;
            let same = out[k] == targets[i];
            proof {
                let short = before.take(k as int);
                let long = before.take(k + 1);
                assert(before[k as int] == out@[k as int]@);
                assert(long =~= short.push(before[k as int]));
                if found {
                    let w = choose|w: int| 0 <= w < short.len() && short[w] == name;
                    assert(long[w] == name);
                }
                if same {
                    assert(long[k as int] == name);
                }
                if long.contains(name) {
                    let w = choose|w: int| 0 <= w < long.len() && long[w] == name;
                    if w < k {
                        assert(short[w] == name);
                    }
                }
            }
            found = found || same;
            k += 1;
        }
        proof {
            assert(before.take(out.len() as int) =~= before);
        }
        if !found {
            out.push(targets[i].clone());
            proof {
                assert(texts_of(out@) =~= before.push(targets@[i as int]@));
            }
        }
        i += 1;
    }
    proof {
        assert(names.take(targets.len() as int) =~= names);
    }
    out
}

/// The count of `rows` rows for each of the targets.
pub open spec fn counts_spec(targets: Seq<Seq<char>>, rows: nat) -> Seq<
    (Seq<char>, AggregationResult),
> {
    Seq::new(targets.len(), |i: int| (targets[i], AggregationResult::Int(rows as u64)))
}

/// The mean of each of the targets over the rows at the positions `kept`,
/// or the error of the first target that has none.
pub open spec fn means_spec<T: KeyAccess>(rows: Seq<T>, kept: Seq<int>, targets: Seq<Seq<char>>)
    -> Result<Seq<(Seq<char>, AggregationResult)>, QueryErrorView>
    decreases targets.len(),
{
    if targets.len() == 0 {
        Ok(seq![])
    } else {
        match means_spec(rows, kept, targets.drop_last()) {
            Err(e) => Err(e),
            Ok(results) => match total_spec(rows, kept, targets.last()) {
                Err(e) => Err(e),
                Ok(sum) => Ok(
                    results.push(
                        (
                            targets.last(),
                            AggregationResult::Float(
                                Decimal { units: mean_spec(sum, kept.len() as int) as i128 },
                            ),
                        ),
                    ),
                ),
            },
        }
    }
}

pub proof fn lemma_means_fails<T: KeyAccess>(
    rows: Seq<T>,
    kept: Seq<int>,
    targets: Seq<Seq<char>>,
    at: int,
)
    requires
        0 <= at < targets.len(),
        means_spec(rows, kept, targets.take(at)) is Ok,
        total_spec(rows, kept, targets[at]) is Err,
    ensures
        means_spec(rows, kept, targets) == Err::<
            Seq<(Seq<char>, AggregationResult)>,
            QueryErrorView,
        >(total_spec(rows, kept, targets[at])->Err_0),
    decreases targets.len(),
{
    if at == targets.len() - 1 {
        assert(targets.drop_last() =~= targets.take(at));
    } else {
        assert(targets.drop_last().take(at) =~= targets.take(at));
        lemma_means_fails(rows, kept, targets.drop_last(), at);
    }
}

/// What the rows `rows` yield for a statement with the aggregation
/// `aggregation`, the targets `targets` and the conditions `chain`.
///
/// The rows are filtered first. Without aggregation the result is the table
/// of the rows that are left. `COUNT` gives each target the number of those
/// rows, whatever the target is. `AVERAGE` gives each target its mean over
/// those rows, and is an error where none is left. An aggregation has one
/// result for each target, also where the statement names a target twice.
pub open spec fn execute_spec<T: KeyAccess>(
    aggregation: Aggregation,
    targets: Seq<Seq<char>>,
    chain: Option<ChainView>,
    rows: Seq<T>,
) -> Result<OutputView, QueryErrorView> {
    match kept_spec(rows, chain) {
        Err(e) => Err(e),
        Ok(kept) => match aggregation {
            Aggregation::Plain => match table_spec(rows, kept, targets) {
                Err(e) => Err(e),
                Ok(table) => Ok(OutputView::Table { targets: targets, rows: table }),
            },
            Aggregation::Count => Ok(
                OutputView::Aggregate(counts_spec(without_repeats(targets), kept.len())),
            ),
            Aggregation::Average => if kept.len() == 0 {
                Err(QueryErrorView::NoRows)
            } else {
                match means_spec(rows, kept, without_repeats(targets)) {
                    Err(e) => Err(e),
                    Ok(results) => Ok(OutputView::Aggregate(results)),
                }
            },
        },
    }
}

/// The targets of the results of an aggregation, in order.
pub open spec fn result_names(results: Seq<(Seq<char>, AggregationResult)>) -> Seq<Seq<char>> {
    Seq::new(results.len(), |i: int| results[i].0)
}

/// The means of targets are the results of those targets, in their order.
pub proof fn lemma_means_names<T: KeyAccess>(rows: Seq<T>, kept: Seq<int>, targets: Seq<Seq<char>>)
    requires
        means_spec(rows, kept, targets) is Ok,
    ensures
        result_names(means_spec(rows, kept, targets)->Ok_0) == targets,
    decreases targets.len(),
{
    if targets.len() > 0 {
        lemma_means_names(rows, kept, targets.drop_last());
        let before = means_spec(rows, kept, targets.drop_last())->Ok_0;
        let after = means_spec(rows, kept, targets)->Ok_0;
        assert(result_names(after) =~= result_names(before).push(targets.last()));
        assert(targets.drop_last().push(targets.last()) =~= targets);
    } else {
        assert(result_names(means_spec(rows, kept, targets)->Ok_0) =~= targets);
    }
}

/// An aggregation holds one result for each target: no target occurs
/// twice among the results of a statement.
pub proof fn lemma_one_result_for_each_target<T: KeyAccess>(
    aggregation: Aggregation,
    targets: Seq<Seq<char>>,
    chain: Option<ChainView>,
    rows: Seq<T>,
)
    requires
        execute_spec(aggregation, targets, chain, rows) is Ok,
        execute_spec(aggregation, targets, chain, rows)->Ok_0 is Aggregate,
    ensures
        result_names(execute_spec(aggregation, targets, chain, rows)->Ok_0->Aggregate_0)
            == without_repeats(targets),
        no_repeats(
            result_names(execute_spec(aggregation, targets, chain, rows)->Ok_0->Aggregate_0),
        ),
{
    let kept = kept_spec(rows, chain)->Ok_0;
    let names = without_repeats(targets);
    lemma_without_repeats(targets);
    match aggregation {
        Aggregation::Count => {
            assert(result_names(counts_spec(names, kept.len())) =~= names);
        },
        Aggregation::Average => {
            lemma_means_names(rows, kept, names);
        },
        Aggregation::Plain => {},
    }
}

/// What a result with an output holds, as mathematics sees it.
pub open spec fn output_outcome(r: Result<QueryOutput, QueryError>) -> Result<
    OutputView,
    QueryErrorView,
> {
    match r {
        Ok(o) => Ok(o@),
        Err(e) => Err(e@),
    }
}

fn counts(targets: &Vec<String>, rows: usize) -> (r: Vec<Aggregated>)
    ensures
        aggregate_view(r@) == counts_spec(texts_of(targets@), rows as nat),
{
    let mut out: Vec<Aggregated> = Vec::new();
    let mut i: usize = 0;
    while i < targets.len()
        invariant
            i <= targets.len(),
            out@.len() == i,
            forall|j: int|
                0 <= j < i ==> (#[trigger] out@[j]).target@ == targets@[j]@ && out@[j].result
                    == AggregationResult::Int(rows as u64),
        decreases targets.len() - i,
    {
        out.push(Aggregated { target: targets[i].clone(), result: AggregationResult::Int(rows as u64) });
        i += 1;
    }
    assert(aggregate_view(out@) =~= counts_spec(texts_of(targets@), rows as nat));
    out
}

fn means<T: KeyAccess>(rows: &Vec<T>, kept: &Vec<usize>, targets: &Vec<String>) -> (r: Result<
    Vec<Aggregated>,
    QueryError,
>)
    requires
        kept@.len() > 0,
        forall|i: int| 0 <= i < kept@.len() ==> (#[trigger] kept@[i]) < rows@.len(),
    ensures
        match r {
            Ok(results) => means_spec(rows@, positions(kept@), texts_of(targets@)) == Ok::<
                Seq<(Seq<char>, AggregationResult)>,
                QueryErrorView,
            >(aggregate_view(results@)),
            Err(e) => means_spec(rows@, positions(kept@), texts_of(targets@)) == Err::<
                Seq<(Seq<char>, AggregationResult)>,
                QueryErrorView,
            >(e@),
        },
{
    let mut out: Vec<Aggregated> = Vec::new();
    let mut i: usize = 0;
    let ghost at = positions(kept@);
    let ghost names = texts_of(targets@);
    proof {
        assert(aggregate_view(out@) =~= Seq::<(Seq<char>, AggregationResult)>::empty());
    }
    while i < targets.len()
        invariant
            i <= targets.len(),
            at == positions(kept@),
            names == texts_of(targets@),
            kept@.len() > 0,
            forall|j: int| 0 <= j < kept@.len() ==> (#[trigger] kept@[j]) < rows@.len(),
            means_spec(rows@, at, names.take(i as int)) == Ok::<
                Seq<(Seq<char>, AggregationResult)>,
                QueryErrorView,
            >(aggregate_view(out@)),
        decreases targets.len() - i,
    {
        proof {
            assert(names.take(i + 1).drop_last() =~= names.take(i as int));
            assert(names.take(i + 1).last() == targets@[i as int]@);
            assert(names[i as int] == targets@[i as int]@);
        }
        match mean_of(rows, kept, &targets[i]) {
            Ok(mean) => {
                let ghost before = aggregate_view(out@);
                let result = AggregationResult::Float(Decimal { units: mean });
                out.push(Aggregated { target: targets[i].clone(), result });
                proof {
                    assert(aggregate_view(out@) =~= before.push((targets@[i as int]@, result)));
                }
            },
            Err(e) => {
                proof {
                    lemma_means_fails(rows@, at, names, i as int);
                }
                return Err(e);
            },
        }
        i += 1;
    }
    proof {
        assert(names.take(targets.len() as int) =~= names);
    }
    Ok(out)
}

/// Runs a statement over the rows of its source.
pub fn execute<T: KeyAccess>(statement: &SelectStatement, rows: &Vec<T>) -> (r: Result<
    QueryOutput,
    QueryError,
>)
    ensures
        output_outcome(r) == execute_spec(
            statement.aggregation,
            texts_of(statement.targets@),
            chain_view(statement.conditions),
            rows@,
        ),
{
    let kept = match filter_rows(rows, &statement.conditions) {
        Ok(kept) => kept,
        Err(e) => {
            return Err(e);
        },
    };
    proof {
        lemma_kept_in_range(rows@, chain_view(statement.conditions));
        assert forall|i: int| 0 <= i < kept@.len() implies (#[trigger] kept@[i]) < rows@.len() by {
            assert(positions(kept@)[i] == kept@[i] as int);
        }
    }
    match statement.aggregation {
        Aggregation::Plain => {
            match build_rows(rows, &kept, &statement.targets) {
                Ok(table) => Ok(
                    QueryOutput::Table { targets: copy_names(&statement.targets), rows: table },
                ),
                Err(e) => Err(e),
            }
        },
        Aggregation::Count => {
            let targets = distinct_targets(&statement.targets);
            Ok(QueryOutput::Aggregate(counts(&targets, kept.len())))
        },
        Aggregation::Average => {
            if kept.len() == 0 {
                return Err(QueryError::NoRows);
            }
            let targets = distinct_targets(&statement.targets);
            match means(rows, &kept, &targets) {
                Ok(results) => Ok(QueryOutput::Aggregate(results)),
                Err(e) => Err(e),
            }
        },
    }
}

} // verus!
