//! A query from its text to its result, at once or stage by stage.

use vstd::prelude::*;
use vstd::string::*;
use crate::query::data::Data;
use crate::query::error::{QueryError, QueryErrorView};
use crate::query::execute::{output_outcome, OutputView, QueryOutput};
use crate::query::message::message_text;
use crate::query::parse::{parse, statement_outcome, statement_spec};
use crate::query::statements::{run_spec, SelectStatement, StatementView};
use crate::query::token::{token_views, DataSource, DataSourceView, Token, TokenView};
use crate::query::tokenise::{tokenise, tokens_spec};
use crate::ui::tui::{Log, Severity};

verus! {

/// The statement that a text is: its tokens, parsed.
pub open spec fn prepare_spec(query: Seq<char>) -> Result<StatementView, QueryErrorView> {
    match tokens_spec(query) {
        Err(e) => Err(e),
        Ok(tokens) => statement_spec(tokens),
    }
}

/// Turns the text of a query into a statement.
pub fn prepare(query: String) -> (r: Result<SelectStatement, QueryError>)
    ensures
        statement_outcome(r) == prepare_spec(query@),
{
    match tokenise(query) {
        Ok(tokens) => parse(tokens),
        Err(e) => Err(e),
    }
}

/// What a query yields over the loaded collections `data`.
pub open spec fn query_spec(query: Seq<char>, data: Data) -> Result<OutputView, QueryErrorView> {
    match prepare_spec(query) {
        Err(e) => Err(e),
        Ok(statement) => run_spec(statement, data),
    }
}

/// Runs a query over the collections that have been loaded.
pub fn run_query(data: &Data, query: String) -> (r: Result<QueryOutput, QueryError>)
    ensures
        output_outcome(r) == query_spec(query@, *data),
{
    match prepare(query) {
        Ok(statement) => statement.run(data),
        Err(e) => Err(e),
    }
}

/// How far a query has come on its way through the interface, which takes
/// one stage at each of its rounds.
#[derive(Debug, PartialEq)]
pub enum TUIQueryStage {
    NotRunning,
    /// The text of a query waits.
    Queued(String),
    Tokenised(Vec<Token>),
    /// The statement waits for its data.
    Parsed(SelectStatement),
    /// The data is there.
    ParsedWithData(SelectStatement),
}

pub enum StageView {
    NotRunning,
    Queued(Seq<char>),
    Tokenised(Seq<TokenView>),
    Parsed(StatementView),
    ParsedWithData(StatementView),
}

impl View for TUIQueryStage {
    type V = StageView;

    open spec fn view(&self) -> StageView {
        match self {
            TUIQueryStage::NotRunning => StageView::NotRunning,
            TUIQueryStage::Queued(q) => StageView::Queued(q@),
            TUIQueryStage::Tokenised(tokens) => StageView::Tokenised(token_views(tokens@)),
            TUIQueryStage::Parsed(statement) => StageView::Parsed(statement@),
            TUIQueryStage::ParsedWithData(statement) => StageView::ParsedWithData(statement@),
        }
    }
}

/// What a stage comes to: the next stage, and what the interface has to do
/// for it.
#[derive(Debug, PartialEq)]
pub struct Step {
    pub stage: TUIQueryStage,
    /// Lines for the log.
    pub logs: Vec<Log>,
    /// The source whose data has to be loaded before the next round.
    pub load: Option<DataSource>,
    /// The result of the query, to be shown.
    pub output: Option<QueryOutput>,
}

pub struct StepView {
    pub stage: StageView,
    pub logs: Seq<(Severity, Seq<char>)>,
    pub load: Option<DataSourceView>,
    pub output: Option<OutputView>,
}

/// The lines of a log, each as its severity and its text.
pub open spec fn log_lines(logs: Seq<Log>) -> Seq<(Severity, Seq<char>)> {
    Seq::new(logs.len(), |i: int| (logs[i].severity, logs[i].content@))
}

impl View for Step {
    type V = StepView;

    open spec fn view(&self) -> StepView {
        StepView {
            stage: self.stage@,
            logs: log_lines(self.logs@),
            load: match self.load {
                Some(source) => Some(source@),
                None => None,
            },
            output: match self.output {
                Some(output) => Some(output@),
                None => None,
            },
        }
    }
}

/// The step that ends a query with the error `error`: one line says what
/// was begun, one says what went wrong, and no query is running.
pub open spec fn failed(begun: Seq<char>, error: QueryErrorView) -> StepView {
    StepView {
        stage: StageView::NotRunning,
        logs: seq![(Severity::Log, begun), (Severity::Error, message_text(error))],
        load: None,
        output: None,
    }
}

/// What a stage comes to over the loaded collections `data`.
///
/// A waiting text is split into tokens, tokens are parsed, a statement
/// without its data asks for the data of its source, and a statement with
/// its data is run. An error ends the query.
pub open spec fn advance_spec(stage: StageView, data: Data) -> StepView {
    match stage {
        StageView::NotRunning => StepView {
            stage: StageView::NotRunning,
            logs: seq![],
            load: None,
            output: None,
        },
        StageView::Queued(query) => match tokens_spec(query) {
            Ok(tokens) => StepView {
                stage: StageView::Tokenised(tokens),
                logs: seq![(Severity::Log, "Tokenising"@), (Severity::Success, "Tokenised"@)],
                load: None,
                output: None,
            },
            Err(e) => failed("Tokenising"@, e),
        },
        StageView::Tokenised(tokens) => match statement_spec(tokens) {
            Ok(statement) => StepView {
                stage: StageView::Parsed(statement),
                logs: seq![(Severity::Log, "Parsing"@), (Severity::Success, "Parsed"@)],
                load: None,
                output: None,
            },
            Err(e) => failed("Parsing"@, e),
        },
        StageView::Parsed(statement) => StepView {
            stage: StageView::Parsed(statement),
            logs: seq![(Severity::Log, "Loading Data"@)],
            load: Some(statement.source),
            output: None,
        },
        StageView::ParsedWithData(statement) => match run_spec(statement, data) {
            Ok(output) => StepView {
                stage: StageView::NotRunning,
                logs: seq![],
                load: None,
                output: Some(output),
            },
            Err(e) => StepView {
                stage: StageView::NotRunning,
                logs: seq![(Severity::Error, message_text(e))],
                load: None,
                output: None,
            },
        },
    }
}

/// What the answer of the loader does to a statement that waits for its
/// data: the statement has its data, or the query ends with the loader's
/// message.
pub open spec fn loaded_spec(stage: StageView, failure: Option<Seq<char>>) -> StepView {
    match (stage, failure) {
        (StageView::Parsed(statement), None) => StepView {
            stage: StageView::ParsedWithData(statement),
            logs: seq![(Severity::Success, "Loaded Data"@)],
            load: None,
            output: None,
        },
        (StageView::Parsed(_), Some(message)) => StepView {
            stage: StageView::NotRunning,
            logs: seq![(Severity::Error, message)],
            load: None,
            output: None,
        },
        (other, _) => StepView { stage: other, logs: seq![], load: None, output: None },
    }
}

fn line(severity: Severity, text: &str) -> (r: Log)
    ensures
        r.severity == severity,
        r.content@ == text@,
{
    Log { severity, content: String::from_str(text) }
}

fn fail(begun: &str, error: &QueryError) -> (r: Step)
    ensures
        r@ == failed(begun@, error@),
{
    let mut logs: Vec<Log> = Vec::new();
    logs.push(line(Severity::Log, begun));
    logs.push(Log { severity: Severity::Error, content: error.message() });
    assert(log_lines(logs@) =~= seq![
        (Severity::Log, begun@),
        (Severity::Error, message_text(error@)),
    ]);
    Step { stage: TUIQueryStage::NotRunning, logs, load: None, output: None }
}

impl TUIQueryStage {
    /// Takes the query one stage further.
    pub fn advance(self, data: &Data) -> (r: Step)
        ensures
            r@ == advance_spec(self@, *data),
    {
        let mut logs: Vec<Log> = Vec::new();
        match self {
            TUIQueryStage::NotRunning => {
                assert(log_lines(logs@) =~= Seq::<(Severity, Seq<char>)>::empty());
                Step { stage: TUIQueryStage::NotRunning, logs, load: None, output: None }
            },
            TUIQueryStage::Queued(query) => match tokenise(query) {
                Ok(tokens) => {
                    logs.push(line(Severity::Log, "Tokenising"));
                    logs.push(line(Severity::Success, "Tokenised"));
                    assert(log_lines(logs@) =~= seq![
                        (Severity::Log, "Tokenising"@),
                        (Severity::Success, "Tokenised"@),
                    ]);
                    Step { stage: TUIQueryStage::Tokenised(tokens), logs, load: None, output: None }
                },
                Err(e) => fail("Tokenising", &e),
            },
            TUIQueryStage::Tokenised(tokens) => match parse(tokens) {
                Ok(statement) => {
                    logs.push(line(Severity::Log, "Parsing"));
                    logs.push(line(Severity::Success, "Parsed"));
                    assert(log_lines(logs@) =~= seq![
                        (Severity::Log, "Parsing"@),
                        (Severity::Success, "Parsed"@),
                    ]);
                    Step { stage: TUIQueryStage::Parsed(statement), logs, load: None, output: None }
                },
                Err(e) => fail("Parsing", &e),
            },
            TUIQueryStage::Parsed(statement) => {
                logs.push(line(Severity::Log, "Loading Data"));
                assert(log_lines(logs@) =~= seq![(Severity::Log, "Loading Data"@)]);
                let source = statement.source.clone();
                Step { stage: TUIQueryStage::Parsed(statement), logs, load: Some(source), output: None }
            },
            TUIQueryStage::ParsedWithData(statement) => match statement.run(data) {
                Ok(output) => {
                    assert(log_lines(logs@) =~= Seq::<(Severity, Seq<char>)>::empty());
                    Step { stage: TUIQueryStage::NotRunning, logs, load: None, output: Some(output) }
                },
                Err(e) => {
                    logs.push(Log { severity: Severity::Error, content: e.message() });
                    assert(log_lines(logs@) =~= seq![(Severity::Error, message_text(e@))]);
                    Step { stage: TUIQueryStage::NotRunning, logs, load: None, output: None }
                },
            },
        }
    }

    /// Takes the answer of the loader: `None` where the data is there, and
    /// the loader's message where it is not.
    pub fn loaded(self, failure: Option<String>) -> (r: Step)
        ensures
            r@ == loaded_spec(
                self@,
                match failure {
                    Some(message) => Some(message@),
                    None => None,
                },
            ),
    {
        let mut logs: Vec<Log> = Vec::new();
        match self {
            TUIQueryStage::Parsed(statement) => match failure {
                None => {
                    logs.push(line(Severity::Success, "Loaded Data"));
                    assert(log_lines(logs@) =~= seq![(Severity::Success, "Loaded Data"@)]);
                    Step {
                        stage: TUIQueryStage::ParsedWithData(statement),
                        logs,
                        load: None,
                        output: None,
                    }
                },
                Some(message) => {
                    logs.push(Log { severity: Severity::Error, content: message });
                    assert(log_lines(logs@) =~= seq![(Severity::Error, message@)]);
                    Step { stage: TUIQueryStage::NotRunning, logs, load: None, output: None }
                },
            },
            other => {
                assert(log_lines(logs@) =~= Seq::<(Severity, Seq<char>)>::empty());
                Step { stage: other, logs, load: None, output: None }
            },
        }
    }
}

} // verus!
