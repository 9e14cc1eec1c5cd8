//! Requests to the API, and calls that go through several of them.
//!
//! A call is a chain of steps: it sends a request and waits for the reply, or it
//! is finished. Whoever runs it sends the requests and hands the replies back.

use crate::budget_api::documents::pair_views;
use crate::json::{Json, JsonView};
use crate::text::string_view;
use vstd::prelude::*;
use vstd::string::*;

verus! {

// ── Requests ─────────────────────────────────────────────────────────────────

#[derive(Debug, Clone, Copy, PartialEq, Eq, Structural)]
pub enum Method {
    Get,
    Post,
    Patch,
    Put,
}

pub enum Payload {
    Nothing,
    Document(Json),
    Text { content_type: String, body: String },
}

pub enum PayloadView {
    Nothing,
    Document(JsonView),
    Text { content_type: Seq<char>, body: Seq<char> },
}

impl View for Payload {
    type V = PayloadView;

    open spec fn view(&self) -> PayloadView {
        match self {
            Payload::Nothing => PayloadView::Nothing,
            Payload::Document(j) => PayloadView::Document(j@),
            Payload::Text { content_type, body } => PayloadView::Text {
                content_type: content_type@,
                body: body@,
            },
        }
    }
}

pub struct Request {
    pub method: Method,
    pub url: String,
    pub payload: Payload,
}

pub struct RequestView {
    pub method: Method,
    pub url: Seq<char>,
    pub payload: PayloadView,
}

impl View for Request {
    type V = RequestView;

    open spec fn view(&self) -> RequestView {
        RequestView { method: self.method, url: self.url@, payload: self.payload@ }
    }
}

// ── Steps ────────────────────────────────────────────────────────────────────

/// What a call comes to.
pub enum Answer {
    Id(String),
    /// The reply, which has no id where it should have one.
    NoId(Json),
    Done,
    Document(Json),
}

pub enum AnswerView {
    Id(Seq<char>),
    NoId(JsonView),
    Done,
    Document(JsonView),
}

impl View for Answer {
    type V = AnswerView;

    open spec fn view(&self) -> AnswerView {
        match self {
            Answer::Id(t) => AnswerView::Id(t@),
            Answer::NoId(j) => AnswerView::NoId(j@),
            Answer::Done => AnswerView::Done,
            Answer::Document(j) => AnswerView::Document(j@),
        }
    }
}

/// Where a statement comes from.
pub enum Source {
    /// The text of the statement.
    Csv(String),
    /// A file in the import inbox.
    Inbox(String),
}

pub enum SourceView {
    Csv(Seq<char>),
    Inbox(Seq<char>),
}

impl View for Source {
    type V = SourceView;

    open spec fn view(&self) -> SourceView {
        match self {
            Source::Csv(t) => SourceView::Csv(t@),
            Source::Inbox(t) => SourceView::Inbox(t@),
        }
    }
}

/// What a transfer says besides its accounts.
pub struct Transfer {
    pub date: String,
    pub amount_cents: i64,
    pub notes: Option<String>,
    pub cleared: Option<bool>,
}

pub struct TransferView {
    pub date: Seq<char>,
    pub amount_cents: int,
    pub notes: Option<Seq<char>>,
    pub cleared: Option<bool>,
}

impl View for Transfer {
    type V = TransferView;

    open spec fn view(&self) -> TransferView {
        TransferView {
            date: self.date@,
            amount_cents: self.amount_cents as int,
            notes: string_view(self.notes),
            cleared: self.cleared,
        }
    }
}

/// What a call waits for.
pub enum Pending {
    /// The id of a new category.
    NewCategory,
    /// The id of a new payee.
    NewPayee,
    /// The categories, one of which is to be changed.
    CategoryToUpdate { wanted: String, body: Json },
    /// The payees, one of which is to be renamed.
    PayeeToRename { wanted: String, new_name: String },
    /// That the thing with this id was changed.
    Changed { id: String },
    /// The categories, one of which a transaction is to have.
    CategoryToSet { tx_id: String, wanted: String },
    /// That something was changed.
    Confirmation,
    /// A document, which is handed on as it is.
    Document,
    /// The categories, one of which a rule is to set.
    RuleCategory { needle: String, wanted: String },
    /// The rules, among which a new one may already be.
    RuleList { needle: String, category_id: String },
    /// The id of a new rule.
    NewRule { needle: String, category_id: String },
    /// The categories, one of which is to be allotted an amount.
    CategoryToBudget { month: String, wanted: String, amount_cents: i64 },
    /// The categories, some of which are to be allotted amounts.
    CategoriesToBudget { month: String, items: Vec<(String, i64)> },
    /// The accounts, one of which a statement is for.
    AccountToImport { source: Source, format: String, wanted: String },
    /// The accounts, one of which a transfer leaves.
    AccountToDebit { from: String, to: String, transfer: Transfer },
    /// The accounts, one of which a transfer reaches.
    AccountToCredit { from_id: String, to: String, transfer: Transfer },
    /// The accounts, one of which is to have a balance.
    AccountToPin { wanted: String, balance_cents: i64 },
    /// The categories, one of which is looked for.
    CategoryToResolve { wanted: String },
    /// The payees, one of which is looked for.
    PayeeToResolve { wanted: String },
    /// The accounts, one of which is looked for.
    AccountToResolve { wanted: String },
}

pub enum PendingView {
    NewCategory,
    NewPayee,
    CategoryToUpdate { wanted: Seq<char>, body: JsonView },
    PayeeToRename { wanted: Seq<char>, new_name: Seq<char> },
    Changed { id: Seq<char> },
    CategoryToSet { tx_id: Seq<char>, wanted: Seq<char> },
    Confirmation,
    Document,
    RuleCategory { needle: Seq<char>, wanted: Seq<char> },
    RuleList { needle: Seq<char>, category_id: Seq<char> },
    NewRule { needle: Seq<char>, category_id: Seq<char> },
    CategoryToBudget { month: Seq<char>, wanted: Seq<char>, amount_cents: int },
    CategoriesToBudget { month: Seq<char>, items: Seq<(Seq<char>, int)> },
    AccountToImport { source: SourceView, format: Seq<char>, wanted: Seq<char> },
    AccountToDebit { from: Seq<char>, to: Seq<char>, transfer: TransferView },
    AccountToCredit { from_id: Seq<char>, to: Seq<char>, transfer: TransferView },
    AccountToPin { wanted: Seq<char>, balance_cents: int },
    CategoryToResolve { wanted: Seq<char> },
    PayeeToResolve { wanted: Seq<char> },
    AccountToResolve { wanted: Seq<char> },
}

impl View for Pending {
    type V = PendingView;

    open spec fn view(&self) -> PendingView {
        match self {
            Pending::NewCategory => PendingView::NewCategory,
            Pending::NewPayee => PendingView::NewPayee,
            Pending::CategoryToUpdate { wanted, body } => PendingView::CategoryToUpdate {
                wanted: wanted@,
                body: body@,
            },
            Pending::PayeeToRename { wanted, new_name } => PendingView::PayeeToRename {
                wanted: wanted@,
                new_name: new_name@,
            },
            Pending::Changed { id } => PendingView::Changed {
                id: id@,
            },
            Pending::CategoryToSet { tx_id, wanted } => PendingView::CategoryToSet {
                tx_id: tx_id@,
                wanted: wanted@,
            },
            Pending::Confirmation => PendingView::Confirmation,
            Pending::Document => PendingView::Document,
            Pending::RuleCategory { needle, wanted } => PendingView::RuleCategory {
                needle: needle@,
                wanted: wanted@,
            },
            Pending::RuleList { needle, category_id } => PendingView::RuleList {
                needle: needle@,
                category_id: category_id@,
            },
            Pending::NewRule { needle, category_id } => PendingView::NewRule {
                needle: needle@,
                category_id: category_id@,
            },
            Pending::CategoryToBudget { month, wanted, amount_cents } => PendingView::CategoryToBudget {
                month: month@,
                wanted: wanted@,
                amount_cents: *amount_cents as int,
            },
            Pending::CategoriesToBudget { month, items } => PendingView::CategoriesToBudget {
                month: month@,
                items: pair_views(items@),
            },
            Pending::AccountToImport { source, format, wanted } => PendingView::AccountToImport {
                source: source@,
                format: format@,
                wanted: wanted@,
            },
            Pending::AccountToDebit { from, to, transfer } => PendingView::AccountToDebit {
                from: from@,
                to: to@,
                transfer: transfer@,
            },
            Pending::AccountToCredit { from_id, to, transfer } => PendingView::AccountToCredit {
                from_id: from_id@,
                to: to@,
                transfer: transfer@,
            },
            Pending::AccountToPin { wanted, balance_cents } => PendingView::AccountToPin {
                wanted: wanted@,
                balance_cents: *balance_cents as int,
            },
            Pending::CategoryToResolve { wanted } => PendingView::CategoryToResolve {
                wanted: wanted@,
            },
            Pending::PayeeToResolve { wanted } => PendingView::PayeeToResolve {
                wanted: wanted@,
            },
            Pending::AccountToResolve { wanted } => PendingView::AccountToResolve {
                wanted: wanted@,
            },
        }
    }
}

pub enum Step {
    Send(Request, Pending),
    Finish(Result<Answer, String>),
}

pub enum StepView {
    Send(RequestView, PendingView),
    Finish(Result<AnswerView, Seq<char>>),
}

impl View for Step {
    type V = StepView;

    open spec fn view(&self) -> StepView {
        match self {
            Step::Send(request, pending) => StepView::Send(request@, pending@),
            Step::Finish(Ok(answer)) => StepView::Finish(Ok(answer@)),
            Step::Finish(Err(message)) => StepView::Finish(Err(message@)),
        }
    }
}

pub open spec fn reply_view(reply: Result<Json, String>) -> Result<JsonView, Seq<char>> {
    match reply {
        Ok(j) => Ok(j@),
        Err(message) => Err(message@),
    }
}

} // verus!
