//! The parser: from the tokens of a statement to the statement.

use vstd::prelude::*;
use crate::query::condition::{Condition, Leaf};
use crate::query::data::{attributes_of, inventory_of};
use crate::query::error::{Expected, QueryError, QueryErrorView};
use crate::query::statements::{Aggregation, ChainView, SelectStatement, StatementView};
use crate::query::token::{token_views, Logical, Token, TokenView};
use crate::query::value::Operator;
use crate::text::{copy_names, texts_of};

verus! {

/// What the reading of the targets comes to.
pub struct Targets {
    pub aggregation: Aggregation,
    pub names: Seq<Seq<char>>,
    /// Whether `*` stands for the targets.
    pub wildcard: bool,
    /// Whether the reading ended with `FROM`.
    pub from_seen: bool,
    /// The position of the token behind the targets.
    pub next: int,
}

/// Reads the targets from position `at` on, with the names `sofar` read
/// before: attributes are collected up to `FROM`; an aggregation or `*` ends
/// the reading at once and must not follow an attribute.
pub open spec fn targets_spec(tokens: Seq<TokenView>, at: int, sofar: Seq<Seq<char>>) -> Result<
    Targets,
    QueryErrorView,
>
    decreases tokens.len() - at,
{
    if at < 0 || at >= tokens.len() {
        Ok(
            Targets {
                aggregation: Aggregation::Plain,
                names: sofar,
                wildcard: false,
                from_seen: false,
                next: at,
            },
        )
    } else {
        match tokens[at] {
            TokenView::COUNT(names) => if sofar.len() != 0 {
                Err(QueryErrorView::MixedAggregation(tokens[at]))
            } else {
                Ok(
                    Targets {
                        aggregation: Aggregation::Count,
                        names: names,
                        wildcard: false,
                        from_seen: false,
                        next: at + 1,
                    },
                )
            },
            TokenView::AVERAGE(names) => if sofar.len() != 0 {
                Err(QueryErrorView::MixedAggregation(tokens[at]))
            } else {
                Ok(
                    Targets {
                        aggregation: Aggregation::Average,
                        names: names,
                        wildcard: false,
                        from_seen: false,
                        next: at + 1,
                    },
                )
            },
            TokenView::Wildcard => if sofar.len() != 0 {
                Err(QueryErrorView::MixedWildcard)
            } else {
                Ok(
                    Targets {
                        aggregation: Aggregation::Plain,
                        names: seq![],
                        wildcard: true,
                        from_seen: false,
                        next: at + 1,
                    },
                )
            },
            TokenView::Attribute(name) => targets_spec(tokens, at + 1, sofar.push(name)),
            TokenView::FROM => Ok(
                Targets {
                    aggregation: Aggregation::Plain,
                    names: sofar,
                    wildcard: false,
                    from_seen: true,
                    next: at + 1,
                },
            ),
            other => Err(QueryErrorView::UnexpectedToken { expected: Expected::Target, found: other }),
        }
    }
}

/// Reads the operator of a condition at position `at`: the operator and the
/// position behind it. `NOT` must be followed by `IN`, and the two are one
/// operator.
pub open spec fn operator_spec(tokens: Seq<TokenView>, at: int) -> Result<
    (Operator, int),
    QueryErrorView,
> {
    if at < 0 || at >= tokens.len() {
        Err(QueryErrorView::IncompleteCondition)
    } else {
        match tokens[at] {
            TokenView::Operator(Operator::NotIn) => if at + 1 >= tokens.len() {
                Err(QueryErrorView::IncompleteCondition)
            } else if tokens[at + 1] == TokenView::Operator(Operator::In) {
                Ok((Operator::NotIn, at + 2))
            } else {
                Err(
                    QueryErrorView::UnexpectedToken {
                        expected: Expected::In,
                        found: tokens[at + 1],
                    },
                )
            },
            TokenView::Operator(op) => Ok((op, at + 1)),
            other => Err(
                QueryErrorView::UnexpectedToken { expected: Expected::Operator, found: other },
            ),
        }
    }
}

/// Reads one condition at position `at`: the comparison and the position
/// behind it. A condition is an attribute, an operator and a literal, or a
/// literal, an operator and an attribute; which side the attribute stood on
/// is not kept.
pub open spec fn triple_spec(tokens: Seq<TokenView>, at: int) -> Result<(Leaf, int), QueryErrorView> {
    if at < 0 || at >= tokens.len() {
        Err(QueryErrorView::IncompleteCondition)
    } else {
        match tokens[at] {
            TokenView::Attribute(name) => match operator_spec(tokens, at + 1) {
                Err(e) => Err(e),
                Ok((op, n)) => if n >= tokens.len() {
                    Err(QueryErrorView::IncompleteCondition)
                } else {
                    match tokens[n] {
                        TokenView::Value(v) => Ok(
                            (Leaf { attribute: name, operation: op, value: v }, n + 1),
                        ),
                        other => Err(
                            QueryErrorView::UnexpectedToken {
                                expected: Expected::Literal,
                                found: other,
                            },
                        ),
                    }
                },
            },
            TokenView::Value(v) => match operator_spec(tokens, at + 1) {
                Err(e) => Err(e),
                Ok((op, n)) => if n >= tokens.len() {
                    Err(QueryErrorView::IncompleteCondition)
                } else {
                    match tokens[n] {
                        TokenView::Attribute(name) => Ok(
                            (Leaf { attribute: name, operation: op, value: v }, n + 1),
                        ),
                        other => Err(
                            QueryErrorView::UnexpectedToken {
                                expected: Expected::Attribute,
                                found: other,
                            },
                        ),
                    }
                },
            },
            other => Err(
                QueryErrorView::UnexpectedToken { expected: Expected::Operand, found: other },
            ),
        }
    }
}

/// A condition takes at least three tokens.
pub proof fn lemma_triple_advances(tokens: Seq<TokenView>, at: int)
    requires
        triple_spec(tokens, at) is Ok,
    ensures
        at + 3 <= triple_spec(tokens, at)->Ok_0.1 <= tokens.len(),
{
}

/// Reads the chain of conditions from position `at` to the end of the
/// tokens: conditions with one connective between each two. A token behind
/// a condition that is no connective is an error.
pub open spec fn chain_spec(tokens: Seq<TokenView>, at: int) -> Result<ChainView, QueryErrorView>
    decreases tokens.len() - at,
{
    match triple_spec(tokens, at) {
        Err(e) => Err(e),
        Ok((leaf, n)) => if n >= tokens.len() {
            Ok(ChainView { leaves: seq![leaf], connectives: seq![] })
        } else {
            match tokens[n] {
                TokenView::Logical(logical) => {
                    proof {
                        lemma_triple_advances(tokens, at);
                    }
                    match chain_spec(tokens, n + 1) {
                        Err(e) => Err(e),
                        Ok(rest) => Ok(
                            ChainView {
                                leaves: seq![leaf] + rest.leaves,
                                connectives: seq![logical] + rest.connectives,
                            },
                        ),
                    }
                },
                other => Err(
                    QueryErrorView::UnexpectedToken {
                        expected: Expected::Connective,
                        found: other,
                    },
                ),
            }
        },
    }
}

/// The position behind `FROM`, where the targets end at `targets.next`.
pub open spec fn from_spec(tokens: Seq<TokenView>, targets: Targets) -> Result<int, QueryErrorView> {
    if targets.from_seen {
        Ok(targets.next)
    } else if targets.next >= tokens.len() {
        Err(QueryErrorView::IncompleteStatement)
    } else if tokens[targets.next] == TokenView::FROM {
        Ok(targets.next + 1)
    } else {
        Err(
            QueryErrorView::UnexpectedToken {
                expected: Expected::From,
                found: tokens[targets.next],
            },
        )
    }
}

/// The statement behind the targets: the data source at position `at`, and
/// the conditions behind `WHERE` if `WHERE` follows the source. `*` stands
/// for all attributes of the source's records. What follows the source and
/// is not `WHERE` is not read.
pub open spec fn body_spec(tokens: Seq<TokenView>, targets: Targets, at: int) -> Result<
    StatementView,
    QueryErrorView,
> {
    if at >= tokens.len() {
        Err(QueryErrorView::IncompleteStatement)
    } else {
        match tokens[at] {
            TokenView::Source(source) => {
                let names = if targets.wildcard {
                    inventory_of(source.record_kind())
                } else {
                    targets.names
                };
                if at + 1 >= tokens.len() || tokens[at + 1] != TokenView::WHERE {
                    Ok(
                        StatementView {
                            aggregation: targets.aggregation,
                            targets: names,
                            source: source,
                            conditions: None,
                        },
                    )
                } else {
                    match chain_spec(tokens, at + 2) {
                        Err(e) => Err(e),
                        Ok(chain) => Ok(
                            StatementView {
                                aggregation: targets.aggregation,
                                targets: names,
                                source: source,
                                conditions: Some(chain),
                            },
                        ),
                    }
                }
            },
            other => Err(
                QueryErrorView::UnexpectedToken { expected: Expected::Source, found: other },
            ),
        }
    }
}

/// The statement that the tokens `tokens` are.
///
/// There are at least four tokens and the first is `SELECT`. Then come the
/// targets, `FROM`, the data source, and after `WHERE` the conditions.
pub open spec fn statement_spec(tokens: Seq<TokenView>) -> Result<StatementView, QueryErrorView> {
    if tokens.len() < 4 {
        Err(QueryErrorView::TooFewTokens)
    } else if tokens[0] != TokenView::SELECT {
        Err(QueryErrorView::UnexpectedToken { expected: Expected::Select, found: tokens[0] })
    } else {
        match targets_spec(tokens, 1, seq![]) {
            Err(e) => Err(e),
            Ok(targets) => if !targets.wildcard && targets.names.len() == 0 {
                Err(QueryErrorView::NoTargets)
            } else {
                match from_spec(tokens, targets) {
                    Err(e) => Err(e),
                    Ok(at) => body_spec(tokens, targets, at),
                }
            },
        }
    }
}

/// What a result with a statement holds, as mathematics sees it.
pub open spec fn statement_outcome(r: Result<SelectStatement, QueryError>) -> Result<
    StatementView,
    QueryErrorView,
> {
    match r {
        Ok(s) => Ok(s@),
        Err(e) => Err(e@),
    }
}

fn unexpected(expected: Expected, found: &Token) -> (r: QueryError)
    ensures
        r@ == (QueryErrorView::UnexpectedToken { expected: expected, found: found@ }),
{
    QueryError::UnexpectedToken { expected, found: found.clone() }
}

/// The token at position `at`, or the error for tokens that end too early.
fn safe_next(tokens: &Vec<Token>, at: usize) -> (r: Result<&Token, QueryError>)
    ensures
        match r {
            Ok(t) => at < tokens.len() && *t == tokens@[at as int],
            Err(e) => at >= tokens.len() && e@ == QueryErrorView::IncompleteStatement,
        },
{
    if at < tokens.len() {
        Ok(&tokens[at])
    } else {
        Err(QueryError::IncompleteStatement)
    }
}

struct ReadTargets {
    aggregation: Aggregation,
    names: Vec<String>,
    wildcard: bool,
    from_seen: bool,
    next: usize,
}

impl ReadTargets {
    spec fn view(self) -> Targets {
        Targets {
            aggregation: self.aggregation,
            names: texts_of(self.names@),
            wildcard: self.wildcard,
            from_seen: self.from_seen,
            next: self.next as int,
        }
    }
}

fn read_targets(tokens: &Vec<Token>) -> (r: Result<ReadTargets, QueryError>)
    requires
        tokens.len() >= 1,
    ensures
        match r {
            Ok(t) => targets_spec(token_views(tokens@), 1, seq![]) == Ok::<Targets, QueryErrorView>(
                t.view(),
            ) && 1 <= t.next <= tokens.len(),
            Err(e) => targets_spec(token_views(tokens@), 1, seq![]) == Err::<
                Targets,
                QueryErrorView,
            >(e@),
        },
{
    let mut names: Vec<String> = Vec::new();
    let mut at: usize = 1;
    let ghost views = token_views(tokens@);
    proof {
        assert(texts_of(names@) =~= Seq::<Seq<char>>::empty());
    }
    while at < tokens.len()
        invariant
            1 <= at <= tokens.len(),
            views == token_views(tokens@),
            targets_spec(views, 1, seq![]) == targets_spec(views, at as int, texts_of(names@)),
        decreases tokens.len() - at,
    {
        let token = &tokens[at];
        assert(views[at as int] == token@);
        match token {
            Token::COUNT(list) => {
                if names.len() != 0 {
                    return Err(QueryError::MixedAggregation(token.clone()));
                }
                return Ok(
                    ReadTargets {
                        aggregation: Aggregation::Count,
                        names: copy_names(list),
                        wildcard: false,
                        from_seen: false,
                        next: at + 1,
                    },
                );
            },
            Token::AVERAGE(list) => {
                if names.len() != 0 {
                    return Err(QueryError::MixedAggregation(token.clone()));
                }
                return Ok(
                    ReadTargets {
                        aggregation: Aggregation::Average,
                        names: copy_names(list),
                        wildcard: false,
                        from_seen: false,
                        next: at + 1,
                    },
                );
            },
            Token::Wildcard => {
                if names.len() != 0 {
                    return Err(QueryError::MixedWildcard);
                }
                assert(texts_of(names@) =~= Seq::<Seq<char>>::empty());
                return Ok(
                    ReadTargets {
                        aggregation: Aggregation::Plain,
                        names: names,
                        wildcard: true,
                        from_seen: false,
                        next: at + 1,
                    },
                );
            },
            Token::Attribute(name) => {
                let ghost before = texts_of(names@);
                names.push(name.clone());
                proof {
                    assert(texts_of(names@) =~= before.push(name@));
                }
            },
            Token::FROM => {
                return Ok(
                    ReadTargets {
                        aggregation: Aggregation::Plain,
                        names: names,
                        wildcard: false,
                        from_seen: true,
                        next: at + 1,
                    },
                );
            },
            _ => {
                return Err(unexpected(Expected::Target, token));
            },
        }
        at += 1;
    }
    Ok(
        ReadTargets {
            aggregation: Aggregation::Plain,
            names: names,
            wildcard: false,
            from_seen: false,
            next: at,
        },
    )
}

fn read_operator(tokens: &Vec<Token>, at: usize) -> (r: Result<(Operator, usize), QueryError>)
    ensures
        match r {
            Ok((op, n)) => operator_spec(token_views(tokens@), at as int) == Ok::<
                (Operator, int),
                QueryErrorView,
            >((op, n as int)) && n <= tokens.len(),
            Err(e) => operator_spec(token_views(tokens@), at as int) == Err::<
                (Operator, int),
                QueryErrorView,
            >(e@),
        },
{
    if at >= tokens.len() {
        return Err(QueryError::IncompleteCondition);
    }
    assert(token_views(tokens@)[at as int] == tokens@[at as int]@);
    match &tokens[at] {
        Token::Operator(Operator::NotIn) => {
            if at + 1 >= tokens.len() {
                return Err(QueryError::IncompleteCondition);
            }
            assert(token_views(tokens@)[at + 1] == tokens@[at + 1]@);
            match &tokens[at + 1] {
                Token::Operator(Operator::In) => Ok((Operator::NotIn, at + 2)),
                other => Err(unexpected(Expected::In, other)),
            }
        },
        Token::Operator(op) => Ok((*op, at + 1)),
        other => Err(unexpected(Expected::Operator, other)),
    }
}

fn read_triple(tokens: &Vec<Token>, at: usize) -> (r: Result<(Condition, usize), QueryError>)
    ensures
        match r {
            Ok((c, n)) => triple_spec(token_views(tokens@), at as int) == Ok::<
                (Leaf, int),
                QueryErrorView,
            >((c.head(), n as int)) && c.next is None && n <= tokens.len(),
            Err(e) => triple_spec(token_views(tokens@), at as int) == Err::<
                (Leaf, int),
                QueryErrorView,
            >(e@),
        },
{
    if at >= tokens.len() {
        return Err(QueryError::IncompleteCondition);
    }
    assert(token_views(tokens@)[at as int] == tokens@[at as int]@);
    match &tokens[at] {
        Token::Attribute(name) => {
            let (op, n) = match read_operator(tokens, at + 1) {
                Ok(p) => p,
                Err(e) => {
                    return Err(e);
                },
            };
            if n >= tokens.len() {
                return Err(QueryError::IncompleteCondition);
            }
            assert(token_views(tokens@)[n as int] == tokens@[n as int]@);
            match &tokens[n] {
                Token::Value(v) => Ok(
                    (
                        Condition {
                            attribute: name.clone(),
                            operation: op,
                            value: v.clone(),
                            next: None,
                        },
                        n + 1,
                    ),
                ),
                other => Err(unexpected(Expected::Literal, other)),
            }
        },
        Token::Value(v) => {
            let (op, n) = match read_operator(tokens, at + 1) {
                Ok(p) => p,
                Err(e) => {
                    return Err(e);
                },
            };
            if n >= tokens.len() {
                return Err(QueryError::IncompleteCondition);
            }
            assert(token_views(tokens@)[n as int] == tokens@[n as int]@);
            match &tokens[n] {
                Token::Attribute(name) => Ok(
                    (
                        Condition {
                            attribute: name.clone(),
                            operation: op,
                            value: v.clone(),
                            next: None,
                        },
                        n + 1,
                    ),
                ),
                other => Err(unexpected(Expected::Attribute, other)),
            }
        },
        other => Err(unexpected(Expected::Operand, other)),
    }
}

/// The chain `done` followed by the connective `logical` and the chain
/// `rest`, if `rest` is one.
pub open spec fn chain_then(
    done: ChainView,
    logical: Logical,
    rest: Result<ChainView, QueryErrorView>,
) -> Result<ChainView, QueryErrorView> {
    match rest {
        Err(e) => Err(e),
        Ok(chain) => Ok(
            ChainView {
                leaves: done.leaves + chain.leaves,
                connectives: done.connectives.push(logical) + chain.connectives,
            },
        ),
    }
}

fn read_chain(tokens: &Vec<Token>, start: usize) -> (r: Result<Condition, QueryError>)
    ensures
        match r {
            Ok(c) => chain_spec(token_views(tokens@), start as int) == Ok::<
                ChainView,
                QueryErrorView,
            >(ChainView { leaves: c.leaves(), connectives: c.connectives() }),
            Err(e) => chain_spec(token_views(tokens@), start as int) == Err::<
                ChainView,
                QueryErrorView,
            >(e@),
        },
{
    let ghost views = token_views(tokens@);
    let (mut chain, mut at) = match read_triple(tokens, start) {
        Ok(p) => p,
        Err(e) => {
            return Err(e);
        },
    };
    if at >= tokens.len() {
        return Ok(chain);
    }
    assert(views[at as int] == tokens@[at as int]@);
    let mut logical = match &tokens[at] {
        Token::Logical(l) => *l,
        other => {
            return Err(unexpected(Expected::Connective, other));
        },
    };
    proof {
        lemma_triple_advances(views, start as int);
        let rest = chain_spec(views, at + 1);
        if rest is Ok {
            assert(seq![chain.head()] + rest->Ok_0.leaves =~= chain.leaves()
                + rest->Ok_0.leaves);
            assert(seq![logical] + rest->Ok_0.connectives =~= chain.connectives().push(logical)
                + rest->Ok_0.connectives);
        }
    }
    loop
        invariant
            views == token_views(tokens@),
            at < tokens.len(),
            chain_spec(views, start as int) == chain_then(
                ChainView { leaves: chain.leaves(), connectives: chain.connectives() },
                logical,
                chain_spec(views, at + 1),
            ),
        decreases tokens.len() - at,
    {
        let ghost done = ChainView { leaves: chain.leaves(), connectives: chain.connectives() };
        let ghost joint = logical;
        let (condition, n) = match read_triple(tokens, at + 1) {
            Ok(p) => p,
            Err(e) => {
                return Err(e);
            },
        };
        proof {
            lemma_triple_advances(views, at + 1);
        }
        let ghost leaf = condition.head();
        chain.add_next_condition(logical, condition);
        proof {
            assert(chain.leaves() =~= done.leaves.push(leaf));
            assert(chain.connectives() =~= done.connectives.push(joint));
        }
        if n >= tokens.len() {
            proof {
                assert(done.leaves + seq![leaf] =~= done.leaves.push(leaf));
                assert(done.connectives.push(joint) + Seq::<Logical>::empty()
                    =~= done.connectives.push(joint));
            }
            return Ok(chain);
        }
        assert(views[n as int] == tokens@[n as int]@);
        logical = match &tokens[n] {
            Token::Logical(l) => *l,
            other => {
                return Err(unexpected(Expected::Connective, other));
            },
        };
        proof {
            let rest = chain_spec(views, n + 1);
            if rest is Ok {
                assert(done.leaves + (seq![leaf] + rest->Ok_0.leaves) =~= done.leaves.push(leaf)
                    + rest->Ok_0.leaves);
                assert(done.connectives.push(joint) + (seq![logical] + rest->Ok_0.connectives)
                    =~= done.connectives.push(joint).push(logical) + rest->Ok_0.connectives);
            }
        }
        at = n;
    }
}

/// Turns the tokens of a statement into the statement.
pub fn parse(tokens: Vec<Token>) -> (r: Result<SelectStatement, QueryError>)
    ensures
        statement_outcome(r) == statement_spec(token_views(tokens@)),
{
    let ghost views = token_views(tokens@);
    if tokens.len() < 4 {
        return Err(QueryError::TooFewTokens);
    }
    assert(views[0] == tokens@[0]@);
    match &tokens[0] {
        Token::SELECT => {},
        other => {
            return Err(unexpected(Expected::Select, other));
        },
    }
    let targets = match read_targets(&tokens) {
        Ok(t) => t,
        Err(e) => {
            return Err(e);
        },
    };
    if !targets.wildcard && targets.names.len() == 0 {
        return Err(QueryError::NoTargets);
    }
    let at: usize = if targets.from_seen {
        targets.next
    } else {
        let token = match safe_next(&tokens, targets.next) {
            Ok(t) => t,
            Err(e) => {
                return Err(e);
            },
        };
        assert(views[targets.next as int] == token@);
        match token {
            Token::FROM => targets.next + 1,
            other => {
                return Err(unexpected(Expected::From, other));
            },
        }
    };
    let token = match safe_next(&tokens, at) {
        Ok(t) => t,
        Err(e) => {
            return Err(e);
        },
    };
    assert(views[at as int] == token@);
    let source = match token {
        Token::Source(source) => source.clone(),
        other => {
            return Err(unexpected(Expected::Source, other));
        },
    };
    let aggregation = targets.aggregation;
    let names = if targets.wildcard {
        attributes_of(source.record_kind())
    } else {
        targets.names
    };
    if at + 1 < tokens.len() {
        assert(views[at + 1] == tokens@[at + 1]@);
        match &tokens[at + 1] {
            Token::WHERE => {
                let chain = match read_chain(&tokens, at + 2) {
                    Ok(c) => c,
                    Err(e) => {
                        return Err(e);
                    },
                };
                return Ok(
                    SelectStatement {
                        aggregation,
                        targets: names,
                        source,
                        conditions: Some(chain),
                    },
                );
            },
            _ => {},
        }
    }
    Ok(SelectStatement { aggregation, targets: names, source, conditions: None })
}

/// The names of the attribute tokens at the positions from `from` up to
/// `to`.
pub open spec fn attribute_names(tokens: Seq<TokenView>, from: int, to: int) -> Seq<Seq<char>>
    decreases to - from,
{
    if to <= from {
        seq![]
    } else {
        attribute_names(tokens, from, to - 1).push(tokens[to - 1]->Attribute_0)
    }
}

/// Whether the tokens at the positions from `from` up to `to` are all
/// attributes.
pub open spec fn all_attributes(tokens: Seq<TokenView>, from: int, to: int) -> bool {
    forall|i: int| from <= i < to ==> (#[trigger] tokens[i]) is Attribute
}

/// Reading the targets over a run of attributes collects their names.
pub proof fn lemma_targets_collect(
    tokens: Seq<TokenView>,
    from: int,
    to: int,
    sofar: Seq<Seq<char>>,
)
    requires
        0 <= from <= to <= tokens.len(),
        all_attributes(tokens, from, to),
    ensures
        targets_spec(tokens, from, sofar) == targets_spec(
            tokens,
            to,
            sofar + attribute_names(tokens, from, to),
        ),
        attribute_names(tokens, from, to).len() == to - from,
    decreases to - from,
{
    if from == to {
        assert(sofar + attribute_names(tokens, from, to) =~= sofar);
    } else {
        lemma_targets_collect(tokens, from, to - 1, sofar);
        let mid = sofar + attribute_names(tokens, from, to - 1);
        assert(tokens[to - 1] is Attribute);
        assert(mid.push(tokens[to - 1]->Attribute_0) =~= sofar + attribute_names(
            tokens,
            from,
            to,
        ));
    }
}

/// An aggregation behind one or more plain attributes is a syntax error:
/// aggregated and plain targets do not mix.
pub proof fn lemma_aggregation_excludes_attributes(tokens: Seq<TokenView>, at: int)
    requires
        tokens.len() >= 4,
        tokens[0] == TokenView::SELECT,
        1 < at < tokens.len(),
        all_attributes(tokens, 1, at),
        tokens[at] is COUNT || tokens[at] is AVERAGE,
    ensures
        statement_spec(tokens) == Err::<StatementView, QueryErrorView>(
            QueryErrorView::MixedAggregation(tokens[at]),
        ),
        statement_spec(tokens)->Err_0.kind() == crate::query::error::ErrorKind::Syntax,
{
    lemma_targets_collect(tokens, 1, at, seq![]);
}

/// `*` behind one or more plain attributes is a syntax error.
pub proof fn lemma_wildcard_excludes_attributes(tokens: Seq<TokenView>, at: int)
    requires
        tokens.len() >= 4,
        tokens[0] == TokenView::SELECT,
        1 < at < tokens.len(),
        all_attributes(tokens, 1, at),
        tokens[at] == TokenView::Wildcard,
    ensures
        statement_spec(tokens) == Err::<StatementView, QueryErrorView>(
            QueryErrorView::MixedWildcard,
        ),
        statement_spec(tokens)->Err_0.kind() == crate::query::error::ErrorKind::Syntax,
{
    lemma_targets_collect(tokens, 1, at, seq![]);
}

/// Anything but `FROM` behind `*` is a syntax error: `*` stands alone.
pub proof fn lemma_wildcard_stands_alone(tokens: Seq<TokenView>)
    requires
        tokens.len() >= 4,
        tokens[0] == TokenView::SELECT,
        tokens[1] == TokenView::Wildcard,
        tokens[2] != TokenView::FROM,
    ensures
        statement_spec(tokens) == Err::<StatementView, QueryErrorView>(
            QueryErrorView::UnexpectedToken { expected: Expected::From, found: tokens[2] },
        ),
        statement_spec(tokens)->Err_0.kind() == crate::query::error::ErrorKind::Syntax,
{
}

/// `*` selects exactly the attributes of the kind of record that the source
/// yields, whatever the records hold: the targets of a statement that begins
/// `SELECT * FROM <source>` are the inventory of the source's record kind.
pub proof fn lemma_wildcard_expands(tokens: Seq<TokenView>)
    requires
        tokens.len() >= 4,
        tokens[0] == TokenView::SELECT,
        tokens[1] == TokenView::Wildcard,
        tokens[2] == TokenView::FROM,
        tokens[3] is Source,
        statement_spec(tokens) is Ok,
    ensures
        statement_spec(tokens)->Ok_0.targets == inventory_of(
            tokens[3]->Source_0.record_kind(),
        ),
        statement_spec(tokens)->Ok_0.source == tokens[3]->Source_0,
        statement_spec(tokens)->Ok_0.aggregation == Aggregation::Plain,
{
}

/// A statement selects something: the targets of every statement are at
/// least one name.
pub proof fn lemma_targets_not_empty(tokens: Seq<TokenView>)
    requires
        statement_spec(tokens) is Ok,
    ensures
        statement_spec(tokens)->Ok_0.targets.len() > 0,
{
    let targets = targets_spec(tokens, 1, seq![])->Ok_0;
    let at = from_spec(tokens, targets)->Ok_0;
    assert(inventory_of(crate::query::token::RecordKind::Track).len() == 8);
    assert(inventory_of(crate::query::token::RecordKind::Playlist).len() == 5);
    assert(inventory_of(crate::query::token::RecordKind::Album).len() == 5);
}

/// `SELECT * FROM <source>` with nothing behind it is a statement.
pub proof fn lemma_wildcard_statement(tokens: Seq<TokenView>)
    requires
        tokens.len() == 4,
        tokens[0] == TokenView::SELECT,
        tokens[1] == TokenView::Wildcard,
        tokens[2] == TokenView::FROM,
        tokens[3] is Source,
    ensures
        statement_spec(tokens) == Ok::<StatementView, QueryErrorView>(
            StatementView {
                aggregation: Aggregation::Plain,
                targets: inventory_of(tokens[3]->Source_0.record_kind()),
                source: tokens[3]->Source_0,
                conditions: None,
            },
        ),
{
}

} // verus!
