//! The tools that go through the API.

use crate::budget_api::bulk::{outcome_view, BulkPendingView, BulkStep, BulkStepView};
use crate::budget_api::calls::{
    allocations_step, apply_rules_step, budget_amount_step, by_category_step, categories, copy_step,
    create_category_step, create_payee_step, import_step, loans_step, member, one_member,
    payee_rule_step, pin_step, projection_step, rename_payee_step, rollover_step, set_category_step,
    set_payee_step, summary_step, transfer_step, uncategorized_step, update_category_step,
    BudgetApi,
};
use crate::budget_api::requests::{
    applies_rules, asked, asks_by_category, asks_loans, asks_projection, asks_summary,
    asks_uncategorized, budgets_allocations, budgets_amount, copies_budget, imports_statement,
    makes_rule, patches_category, pins_balance, posts_category, posts_payee, renames_payee,
    rolls_over, sets_category_of, sets_payee_of, transfers,
};
use crate::budget_api::steps::{Answer, AnswerView, Step, StepView};
use crate::json::{item_views, with_member, Json, JsonView};
use crate::models::{month_to_ym, ym_of};
use crate::server::errors::{api_error, budget_api_error, invalid, ToolError, ToolErrorView};
use crate::server::loading::{base_of, ActualServer};
use crate::server::reads::bad_month;
use crate::server::replies::{
    answers_updated, answers_with_id, answers_with_name, answers_with_payee, hands_on, is_judged,
    is_unjudged, lemma_name_told, lemma_payee_told,
};
use crate::text::{join3, text_view, views};
use vstd::prelude::*;
use vstd::string::*;

verus! {

// ── Calls ────────────────────────────────────────────────────────────────────

/// How a tool answers.
pub enum Shape {
    /// With the id and the name of what was made by this call.
    Made { call: String, name: String },
    /// With the id of what was changed.
    Updated,
    /// With the id and the new name.
    Renamed { name: String },
    /// With the transaction that was changed.
    SetCategory { tx_id: String },
    /// With the transaction that was changed and its payee.
    SetPayee { tx_id: String, payee: String },
    /// With the document that came back.
    AsIs,
}

pub enum ShapeView {
    Made { call: Seq<char>, name: Seq<char> },
    Updated,
    Renamed { name: Seq<char> },
    SetCategory { tx_id: Seq<char> },
    SetPayee { tx_id: Seq<char>, payee: Seq<char> },
    AsIs,
}

impl View for Shape {
    type V = ShapeView;

    open spec fn view(&self) -> ShapeView {
        match self {
            Shape::Made { call, name } => ShapeView::Made { call: call@, name: name@ },
            Shape::Updated => ShapeView::Updated,
            Shape::Renamed { name } => ShapeView::Renamed { name: name@ },
            Shape::SetCategory { tx_id } => ShapeView::SetCategory { tx_id: tx_id@ },
            Shape::SetPayee { tx_id, payee } => ShapeView::SetPayee {
                tx_id: tx_id@,
                payee: payee@,
            },
            Shape::AsIs => ShapeView::AsIs,
        }
    }
}

/// A call that a tool makes: its first step, how the tool answers, and whether
/// errors of the API are told apart.
pub struct ToolCall {
    pub step: Step,
    pub shape: Shape,
    pub judged: bool,
}

pub struct ToolCallView {
    pub step: StepView,
    pub shape: ShapeView,
    pub judged: bool,
}

impl View for ToolCall {
    type V = ToolCallView;

    open spec fn view(&self) -> ToolCallView {
        ToolCallView { step: self.step@, shape: self.shape@, judged: self.judged }
    }
}

/// What a tool comes to.
pub enum Finished {
    Reply(Json),
    /// A call brought no id where it should have: this is its reply.
    NoId { call: String, reply: Json },
    Error(ToolError),
}

pub enum FinishedView {
    Reply(JsonView),
    NoId { call: Seq<char>, reply: JsonView },
    Error(ToolErrorView),
}

impl View for Finished {
    type V = FinishedView;

    open spec fn view(&self) -> FinishedView {
        match self {
            Finished::Reply(j) => FinishedView::Reply(j@),
            Finished::NoId { call, reply } => FinishedView::NoId { call: call@, reply: reply@ },
            Finished::Error(e) => FinishedView::Error(e@),
        }
    }
}

/// The answer of a tool to what its call came to.
pub open spec fn reply_shaped(shape: ShapeView, answer: AnswerView) -> FinishedView {
    match (shape, answer) {
        (ShapeView::Made { call: _, name }, AnswerView::Id(id)) => FinishedView::Reply(
            with_member(one_member("id"@, JsonView::Str(id)), "name"@, JsonView::Str(name)),
        ),
        (ShapeView::Made { call, name: _ }, AnswerView::NoId(reply)) => FinishedView::NoId {
            call,
            reply,
        },
        (ShapeView::Updated, AnswerView::Id(id)) => FinishedView::Reply(
            one_member("updated"@, JsonView::Str(id)),
        ),
        (ShapeView::Renamed { name }, AnswerView::Id(id)) => FinishedView::Reply(
            with_member(one_member("id"@, JsonView::Str(id)), "name"@, JsonView::Str(name)),
        ),
        (ShapeView::SetCategory { tx_id }, _) => FinishedView::Reply(
            one_member("updated"@, JsonView::Str(tx_id)),
        ),
        (ShapeView::SetPayee { tx_id, payee }, _) => FinishedView::Reply(
            with_member(
                one_member("updated"@, JsonView::Str(tx_id)),
                "payee"@,
                JsonView::Str(payee),
            ),
        ),
        (_, AnswerView::Document(doc)) => FinishedView::Reply(doc),
        (_, AnswerView::NoId(doc)) => FinishedView::Reply(doc),
        (_, AnswerView::Id(id)) => FinishedView::Reply(JsonView::Str(id)),
        (_, AnswerView::Done) => FinishedView::Reply(JsonView::Null),
    }
}

pub open spec fn finished(shape: ShapeView, judged: bool, outcome: Result<AnswerView, Seq<char>>) -> FinishedView {
    match outcome {
        Ok(answer) => reply_shaped(shape, answer),
        Err(e) => FinishedView::Error(
            if judged {
                api_error(e)
            } else {
                ToolErrorView::Internal(e)
            },
        ),
    }
}

/// The answer of a tool whose call came to `outcome`.
pub fn finish(shape: Shape, judged: bool, outcome: Result<Answer, String>) -> (r: Finished)
    ensures
        r@ == finished(shape@, judged, outcome_view(outcome)),
{
    let answer = match outcome {
        Ok(answer) => answer,
        Err(e) => return Finished::Error(
            if judged {
                budget_api_error(e)
            } else {
                ToolError::Internal(e)
            },
        ),
    };
    match (shape, answer) {
        (Shape::Made { call: _, name }, Answer::Id(id)) => Finished::Reply(
            member("id", Json::Str(id)).with("name", Json::Str(name)),
        ),
        (Shape::Made { call, name: _ }, Answer::NoId(reply)) => Finished::NoId { call, reply },
        (Shape::Updated, Answer::Id(id)) => Finished::Reply(member("updated", Json::Str(id))),
        (Shape::Renamed { name }, Answer::Id(id)) => Finished::Reply(
            member("id", Json::Str(id)).with("name", Json::Str(name)),
        ),
        (Shape::SetCategory { tx_id }, _) => Finished::Reply(member("updated", Json::Str(tx_id))),
        (Shape::SetPayee { tx_id, payee }, _) => Finished::Reply(
            member("updated", Json::Str(tx_id)).with("payee", Json::Str(payee)),
        ),
        (_, Answer::Document(doc)) => Finished::Reply(doc),
        (_, Answer::NoId(doc)) => Finished::Reply(doc),
        (_, Answer::Id(id)) => Finished::Reply(Json::Str(id)),
        (_, Answer::Done) => Finished::Reply(Json::Null),
    }
}

/// The error of a call that brought no id; `reply` is what it brought, written out.
pub fn missing_id(call: &str, reply: &str) -> (r: ToolError)
    ensures
        r@ == ToolErrorView::Internal(call@ + " missing id: "@ + reply@),
{
    ToolError::Internal(join3(call, " missing id: ", reply))
}

pub open spec fn no_api() -> ToolErrorView {
    ToolErrorView::InvalidParams(
        "Write tools require LIBERADO_BUDGET_API_URL (Liberado Budget REST, not SQLite)"@,
    )
}

pub open spec fn call_view(r: Result<ToolCall, ToolError>) -> Result<ToolCallView, ToolErrorView> {
    match r {
        Ok(call) => Ok(call@),
        Err(e) => Err(e@),
    }
}

/// A month that is given has the form of one.
pub open spec fn month_error(what: Seq<char>, month: Seq<char>) -> Option<ToolErrorView> {
    if ym_of(month) is Some {
        None
    } else {
        Some(bad_month(what, month))
    }
}

fn check_month(what: &str, month: &str) -> (r: Option<ToolError>)
    ensures
        match r {
            Some(e) => month_error(what@, month@) == Some(e@),
            None => month_error(what@, month@) is None,
        },
{
    match month_to_ym(month) {
        Some(_) => None,
        None => Some(invalid(what, month, "YYYY-MM")),
    }
}

// ── Tools ────────────────────────────────────────────────────────────────────

impl ActualServer {
    /// The API that the tools go through.
    pub fn budget_writes(&self) -> (r: Result<&BudgetApi, ToolError>)
        ensures
            match r {
                Ok(api) => base_of(self.budget_api) == Some(api.base@),
                Err(e) => self.budget_api is None && e@ == no_api(),
            },
    {
        match &self.budget_api {
            Some(api) => Ok(api),
            None => Err(
                ToolError::InvalidParams(
                    "Write tools require LIBERADO_BUDGET_API_URL (Liberado Budget REST, not SQLite)".to_string(),
                ),
            ),
        }
    }

    pub fn create_category(
        &self,
        name: &str,
        kind: Option<&str>,
        group_name: Option<&str>,
    ) -> (r: Result<ToolCall, ToolError>)
        ensures
            call_view(r) == match base_of(self.budget_api) {
                Some(base) => Ok(
                    ToolCallView {
                        step: create_category_step(base, name@, text_view(kind), text_view(group_name)),
                        shape: ShapeView::Made { call: "create_category"@, name: name@ },
                        judged: false,
                    },
                ),
                None => Err(no_api()),
            },
            match r {
                Ok(call) => {
                    &&& base_of(self.budget_api) is Some
                    &&& posts_category(
                            call@.step,
                            base_of(self.budget_api)->0,
                            name@,
                            text_view(kind),
                            text_view(group_name),
                        )
                    &&& answers_with_name(call@, name@)
                    &&& is_unjudged(call@)
                },
                Err(_) => true,
            },
    {
        proof {
            lemma_name_told(name@);
        }
        match self.budget_writes() {
            Ok(api) => Ok(
                ToolCall {
                    step: api.create_category(name, kind, group_name),
                    shape: Shape::Made { call: "create_category".to_string(), name: name.to_string() },
                    judged: false,
                },
            ),
            Err(e) => Err(e),
        }
    }

    pub fn update_category(
        &self,
        category: &str,
        name: Option<&str>,
        hidden: Option<bool>,
    ) -> (r: Result<ToolCall, ToolError>)
        ensures
            call_view(r) == match base_of(self.budget_api) {
                Some(base) => Ok(
                    ToolCallView {
                        step: update_category_step(base, category@, text_view(name), hidden),
                        shape: ShapeView::Updated,
                        judged: false,
                    },
                ),
                None => Err(no_api()),
            },
            match r {
                Ok(call) => {
                    &&& base_of(self.budget_api) is Some
                    &&& patches_category(
                            call@.step,
                            base_of(self.budget_api)->0,
                            category@,
                            text_view(name),
                            hidden,
                        )
                    &&& answers_with_id(call@)
                    &&& is_unjudged(call@)
                },
                Err(_) => true,
            },
    {
        match self.budget_writes() {
            Ok(api) => Ok(
                ToolCall {
                    step: api.update_category(category, name, hidden),
                    shape: Shape::Updated,
                    judged: false,
                },
            ),
            Err(e) => Err(e),
        }
    }

    pub fn create_payee(&self, name: &str) -> (r: Result<ToolCall, ToolError>)
        ensures
            call_view(r) == match base_of(self.budget_api) {
                Some(base) => Ok(
                    ToolCallView {
                        step: create_payee_step(base, name@),
                        shape: ShapeView::Made { call: "create_payee"@, name: name@ },
                        judged: false,
                    },
                ),
                None => Err(no_api()),
            },
            match r {
                Ok(call) => {
                    &&& base_of(self.budget_api) is Some
                    &&& posts_payee(call@.step, base_of(self.budget_api)->0, name@)
                    &&& answers_with_name(call@, name@)
                    &&& is_unjudged(call@)
                },
                Err(_) => true,
            },
    {
        proof {
            lemma_name_told(name@);
        }
        match self.budget_writes() {
            Ok(api) => Ok(
                ToolCall {
                    step: api.create_payee(name),
                    shape: Shape::Made { call: "create_payee".to_string(), name: name.to_string() },
                    judged: false,
                },
            ),
            Err(e) => Err(e),
        }
    }

    pub fn rename_payee(&self, payee: &str, new_name: &str) -> (r: Result<ToolCall, ToolError>)
        ensures
            call_view(r) == match base_of(self.budget_api) {
                Some(base) => Ok(
                    ToolCallView {
                        step: rename_payee_step(base, payee@, new_name@),
                        shape: ShapeView::Renamed { name: new_name@ },
                        judged: false,
                    },
                ),
                None => Err(no_api()),
            },
            match r {
                Ok(call) => {
                    &&& base_of(self.budget_api) is Some
                    &&& renames_payee(call@.step, base_of(self.budget_api)->0, payee@, new_name@)
                    &&& answers_with_name(call@, new_name@)
                    &&& is_unjudged(call@)
                },
                Err(_) => true,
            },
    {
        proof {
            lemma_name_told(new_name@);
        }
        match self.budget_writes() {
            Ok(api) => Ok(
                ToolCall {
                    step: api.rename_payee(payee, new_name),
                    shape: Shape::Renamed { name: new_name.to_string() },
                    judged: false,
                },
            ),
            Err(e) => Err(e),
        }
    }

    pub fn set_transaction_category(
        &self,
        transaction_id: &str,
        category: Option<&str>,
    ) -> (r: Result<ToolCall, ToolError>)
        ensures
            call_view(r) == match base_of(self.budget_api) {
                Some(base) => Ok(
                    ToolCallView {
                        step: set_category_step(base, transaction_id@, text_view(category)),
                        shape: ShapeView::SetCategory { tx_id: transaction_id@ },
                        judged: false,
                    },
                ),
                None => Err(no_api()),
            },
            match r {
                Ok(call) => {
                    &&& base_of(self.budget_api) is Some
                    &&& sets_category_of(
                            call@.step,
                            base_of(self.budget_api)->0,
                            transaction_id@,
                            text_view(category),
                        )
                    &&& answers_updated(call@, transaction_id@)
                    &&& is_unjudged(call@)
                },
                Err(_) => true,
            },
    {
        match self.budget_writes() {
            Ok(api) => Ok(
                ToolCall {
                    step: api.set_transaction_category(transaction_id, category),
                    shape: Shape::SetCategory { tx_id: transaction_id.to_string() },
                    judged: false,
                },
            ),
            Err(e) => Err(e),
        }
    }

    pub fn set_transaction_payee(
        &self,
        transaction_id: &str,
        payee: &str,
    ) -> (r: Result<ToolCall, ToolError>)
        ensures
            call_view(r) == match base_of(self.budget_api) {
                Some(base) => Ok(
                    ToolCallView {
                        step: set_payee_step(base, transaction_id@, payee@),
                        shape: ShapeView::SetPayee { tx_id: transaction_id@, payee: payee@ },
                        judged: false,
                    },
                ),
                None => Err(no_api()),
            },
            match r {
                Ok(call) => {
                    &&& base_of(self.budget_api) is Some
                    &&& sets_payee_of(
                            call@.step,
                            base_of(self.budget_api)->0,
                            transaction_id@,
                            payee@,
                        )
                    &&& answers_with_payee(call@, transaction_id@, payee@)
                    &&& is_unjudged(call@)
                },
                Err(_) => true,
            },
    {
        proof {
            lemma_payee_told(transaction_id@, payee@);
        }
        match self.budget_writes() {
            Ok(api) => Ok(
                ToolCall {
                    step: api.set_transaction_payee(transaction_id, payee),
                    shape: Shape::SetPayee { tx_id: transaction_id.to_string(), payee: payee.to_string() },
                    judged: false,
                },
            ),
            Err(e) => Err(e),
        }
    }

    pub fn create_payee_rule(
        &self,
        payee_regex: &str,
        category: &str,
    ) -> (r: Result<ToolCall, ToolError>)
        ensures
            call_view(r) == match base_of(self.budget_api) {
                Some(base) => Ok(
                    ToolCallView {
                        step: payee_rule_step(base, payee_regex@, category@),
                        shape: ShapeView::AsIs,
                        judged: false,
                    },
                ),
                None => Err(no_api()),
            },
            match r {
                Ok(call) => {
                    &&& base_of(self.budget_api) is Some
                    &&& makes_rule(
                            call@.step,
                            base_of(self.budget_api)->0,
                            payee_regex@,
                            category@,
                        )
                    &&& hands_on(call@)
                    &&& is_unjudged(call@)
                },
                Err(_) => true,
            },
    {
        match self.budget_writes() {
            Ok(api) => Ok(
                ToolCall {
                    step: api.create_payee_rule(payee_regex, category),
                    shape: Shape::AsIs,
                    judged: false,
                },
            ),
            Err(e) => Err(e),
        }
    }

    pub fn apply_rules(
        &self,
        account_id: Option<&str>,
        limit: Option<i64>,
    ) -> (r: Result<ToolCall, ToolError>)
        ensures
            call_view(r) == match base_of(self.budget_api) {
                Some(base) => Ok(
                    ToolCallView {
                        step: apply_rules_step(base, text_view(account_id), limit),
                        shape: ShapeView::AsIs,
                        judged: false,
                    },
                ),
                None => Err(no_api()),
            },
            match r {
                Ok(call) => {
                    &&& base_of(self.budget_api) is Some
                    &&& applies_rules(
                            call@.step,
                            base_of(self.budget_api)->0,
                            text_view(account_id),
                            limit,
                        )
                    &&& hands_on(call@)
                    &&& is_unjudged(call@)
                },
                Err(_) => true,
            },
    {
        match self.budget_writes() {
            Ok(api) => Ok(
                ToolCall {
                    step: api.apply_rules(account_id, limit),
                    shape: Shape::AsIs,
                    judged: false,
                },
            ),
            Err(e) => Err(e),
        }
    }

    pub fn budget_api_uncategorized(
        &self,
        account_id: Option<&str>,
        start_date: Option<&str>,
        end_date: Option<&str>,
        limit: Option<i64>,
    ) -> (r: Result<ToolCall, ToolError>)
        ensures
            call_view(r) == match base_of(self.budget_api) {
                Some(base) => Ok(
                    ToolCallView {
                        step: uncategorized_step(base, text_view(account_id), text_view(start_date), text_view(end_date), limit),
                        shape: ShapeView::AsIs,
                        judged: false,
                    },
                ),
                None => Err(no_api()),
            },
            match r {
                Ok(call) => {
                    &&& base_of(self.budget_api) is Some
                    &&& asks_uncategorized(
                            call@.step,
                            base_of(self.budget_api)->0,
                            text_view(account_id),
                            text_view(start_date),
                            text_view(end_date),
                            limit,
                        )
                    &&& hands_on(call@)
                    &&& is_unjudged(call@)
                },
                Err(_) => true,
            },
    {
        match self.budget_writes() {
            Ok(api) => Ok(
                ToolCall {
                    step: api.get_uncategorized_transactions(account_id, start_date, end_date, limit),
                    shape: Shape::AsIs,
                    judged: false,
                },
            ),
            Err(e) => Err(e),
        }
    }

    pub fn budget_api_transactions_by_category(
        &self,
        category_regex: &str,
        account_id: Option<&str>,
        start_date: Option<&str>,
        end_date: Option<&str>,
        limit: Option<i64>,
    ) -> (r: Result<ToolCall, ToolError>)
        ensures
            call_view(r) == match base_of(self.budget_api) {
                Some(base) => Ok(
                    ToolCallView {
                        step: by_category_step(base, category_regex@, text_view(account_id), text_view(start_date), text_view(end_date), limit),
                        shape: ShapeView::AsIs,
                        judged: false,
                    },
                ),
                None => Err(no_api()),
            },
            match r {
                Ok(call) => {
                    &&& base_of(self.budget_api) is Some
                    &&& asks_by_category(
                            call@.step,
                            base_of(self.budget_api)->0,
                            category_regex@,
                            text_view(account_id),
                            text_view(start_date),
                            text_view(end_date),
                            limit,
                        )
                    &&& hands_on(call@)
                    &&& is_unjudged(call@)
                },
                Err(_) => true,
            },
    {
        match self.budget_writes() {
            Ok(api) => Ok(
                ToolCall {
                    step: api.get_transactions_by_category_regex(category_regex, account_id, start_date, end_date, limit),
                    shape: Shape::AsIs,
                    judged: false,
                },
            ),
            Err(e) => Err(e),
        }
    }

    pub fn set_budget_amount(
        &self,
        month: &str,
        category: &str,
        amount_cents: i64,
    ) -> (r: Result<ToolCall, ToolError>)
        ensures
            call_view(r) == match month_error("month"@, month@) {
                Some(e) => Err(e),
                None => match base_of(self.budget_api) {
                    Some(base) => Ok(
                        ToolCallView {
                            step: budget_amount_step(base, month@, category@, amount_cents as int),
                            shape: ShapeView::AsIs,
                            judged: true,
                        },
                    ),
                    None => Err(no_api()),
                },
            },
            match r {
                Ok(call) => {
                    &&& base_of(self.budget_api) is Some
                    &&& budgets_amount(
                            call@.step,
                            base_of(self.budget_api)->0,
                            month@,
                            category@,
                            amount_cents as int,
                        )
                    &&& hands_on(call@)
                    &&& is_judged(call@)
                    &&& ym_of(month@) is Some
                },
                Err(_) => true,
            },
    {
        if let Some(e) = check_month("month", month) {
            return Err(e);
        }
        match self.budget_writes() {
            Ok(api) => Ok(
                ToolCall {
                    step: api.set_budget_amount(month, category, amount_cents),
                    shape: Shape::AsIs,
                    judged: true,
                },
            ),
            Err(e) => Err(e),
        }
    }

    pub fn set_budget_allocations(
        &self,
        month: &str,
        allocations: &[Json],
    ) -> (r: Result<ToolCall, ToolError>)
        ensures
            call_view(r) == match month_error("month"@, month@) {
                Some(e) => Err(e),
                None => match base_of(self.budget_api) {
                    Some(base) => Ok(
                        ToolCallView {
                            step: allocations_step(base, month@, item_views(allocations@)),
                            shape: ShapeView::AsIs,
                            judged: true,
                        },
                    ),
                    None => Err(no_api()),
                },
            },
            match r {
                Ok(call) => {
                    &&& base_of(self.budget_api) is Some
                    &&& budgets_allocations(
                            call@.step,
                            base_of(self.budget_api)->0,
                            month@,
                            item_views(allocations@),
                        )
                    &&& hands_on(call@)
                    &&& is_judged(call@)
                    &&& ym_of(month@) is Some
                },
                Err(_) => true,
            },
    {
        if let Some(e) = check_month("month", month) {
            return Err(e);
        }
        match self.budget_writes() {
            Ok(api) => Ok(
                ToolCall {
                    step: api.set_budget_allocations(month, allocations),
                    shape: Shape::AsIs,
                    judged: true,
                },
            ),
            Err(e) => Err(e),
        }
    }

    pub fn copy_budget(&self, month: &str, from_month: &str) -> (r: Result<ToolCall, ToolError>)
        ensures
            call_view(r) == match (month_error("month"@, month@), month_error("from_month"@, from_month@)) {
                (Some(e), _) => Err(e),
                (None, Some(e)) => Err(e),
                (None, None) => match base_of(self.budget_api) {
                    Some(base) => Ok(
                        ToolCallView {
                            step: copy_step(base, month@, from_month@),
                            shape: ShapeView::AsIs,
                            judged: true,
                        },
                    ),
                    None => Err(no_api()),
                },
            },
            match r {
                Ok(call) => {
                    &&& base_of(self.budget_api) is Some
                    &&& copies_budget(
                            call@.step,
                            base_of(self.budget_api)->0,
                            month@,
                            from_month@,
                        )
                    &&& hands_on(call@)
                    &&& is_judged(call@)
                    &&& ym_of(month@) is Some
                    &&& ym_of(from_month@) is Some
                },
                Err(_) => true,
            },
    {
        if let Some(e) = check_month("month", month) {
            return Err(e);
        }
        if let Some(e) = check_month("from_month", from_month) {
            return Err(e);
        }
        match self.budget_writes() {
            Ok(api) => Ok(
                ToolCall {
                    step: api.copy_budget(month, from_month),
                    shape: Shape::AsIs,
                    judged: true,
                },
            ),
            Err(e) => Err(e),
        }
    }

    pub fn rollover_budget(&self, month: &str, from_month: &str) -> (r: Result<ToolCall, ToolError>)
        ensures
            call_view(r) == match (month_error("month"@, month@), month_error("from_month"@, from_month@)) {
                (Some(e), _) => Err(e),
                (None, Some(e)) => Err(e),
                (None, None) => match base_of(self.budget_api) {
                    Some(base) => Ok(
                        ToolCallView {
                            step: rollover_step(base, month@, from_month@),
                            shape: ShapeView::AsIs,
                            judged: true,
                        },
                    ),
                    None => Err(no_api()),
                },
            },
            match r {
                Ok(call) => {
                    &&& base_of(self.budget_api) is Some
                    &&& rolls_over(call@.step, base_of(self.budget_api)->0, month@, from_month@)
                    &&& hands_on(call@)
                    &&& is_judged(call@)
                    &&& ym_of(month@) is Some
                    &&& ym_of(from_month@) is Some
                },
                Err(_) => true,
            },
    {
        if let Some(e) = check_month("month", month) {
            return Err(e);
        }
        if let Some(e) = check_month("from_month", from_month) {
            return Err(e);
        }
        match self.budget_writes() {
            Ok(api) => Ok(
                ToolCall {
                    step: api.rollover_budget(month, from_month),
                    shape: Shape::AsIs,
                    judged: true,
                },
            ),
            Err(e) => Err(e),
        }
    }

    pub fn get_summary(
        &self,
        month: Option<&str>,
        extra_cents: Option<i64>,
        strategy: Option<&str>,
    ) -> (r: Result<ToolCall, ToolError>)
        ensures
            call_view(r) == match base_of(self.budget_api) {
                Some(base) => Ok(
                    ToolCallView {
                        step: summary_step(base, text_view(month), extra_cents, text_view(strategy)),
                        shape: ShapeView::AsIs,
                        judged: true,
                    },
                ),
                None => Err(no_api()),
            },
            match r {
                Ok(call) => {
                    &&& base_of(self.budget_api) is Some
                    &&& asks_summary(
                            call@.step,
                            base_of(self.budget_api)->0,
                            text_view(month),
                            extra_cents,
                            text_view(strategy),
                        )
                    &&& hands_on(call@)
                    &&& is_judged(call@)
                },
                Err(_) => true,
            },
    {
        match self.budget_writes() {
            Ok(api) => Ok(
                ToolCall {
                    step: api.get_summary(month, extra_cents, strategy),
                    shape: Shape::AsIs,
                    judged: true,
                },
            ),
            Err(e) => Err(e),
        }
    }

    pub fn list_loans(&self) -> (r: Result<ToolCall, ToolError>)
        ensures
            call_view(r) == match base_of(self.budget_api) {
                Some(base) => Ok(
                    ToolCallView {
                        step: loans_step(base),
                        shape: ShapeView::AsIs,
                        judged: true,
                    },
                ),
                None => Err(no_api()),
            },
            match r {
                Ok(call) => {
                    &&& base_of(self.budget_api) is Some
                    &&& asks_loans(call@.step, base_of(self.budget_api)->0)
                    &&& hands_on(call@)
                    &&& is_judged(call@)
                },
                Err(_) => true,
            },
    {
        match self.budget_writes() {
            Ok(api) => Ok(
                ToolCall {
                    step: api.list_loans(),
                    shape: Shape::AsIs,
                    judged: true,
                },
            ),
            Err(e) => Err(e),
        }
    }

    pub fn loan_projection(
        &self,
        strategy: Option<&str>,
        extra_cents: Option<i64>,
    ) -> (r: Result<ToolCall, ToolError>)
        ensures
            call_view(r) == match base_of(self.budget_api) {
                Some(base) => Ok(
                    ToolCallView {
                        step: projection_step(base, text_view(strategy), extra_cents),
                        shape: ShapeView::AsIs,
                        judged: true,
                    },
                ),
                None => Err(no_api()),
            },
            match r {
                Ok(call) => {
                    &&& base_of(self.budget_api) is Some
                    &&& asks_projection(
                            call@.step,
                            base_of(self.budget_api)->0,
                            text_view(strategy),
                            extra_cents,
                        )
                    &&& hands_on(call@)
                    &&& is_judged(call@)
                },
                Err(_) => true,
            },
    {
        match self.budget_writes() {
            Ok(api) => Ok(
                ToolCall {
                    step: api.loan_projection(strategy, extra_cents),
                    shape: Shape::AsIs,
                    judged: true,
                },
            ),
            Err(e) => Err(e),
        }
    }

    pub fn import_csv(
        &self,
        account: &str,
        format: Option<&str>,
        csv: Option<&str>,
        inbox_file: Option<&str>,
    ) -> (r: Result<ToolCall, ToolError>)
        ensures
            call_view(r) == match base_of(self.budget_api) {
                Some(base) => Ok(
                    ToolCallView {
                        step: import_step(base, account@, text_view(format), text_view(csv), text_view(inbox_file)),
                        shape: ShapeView::AsIs,
                        judged: true,
                    },
                ),
                None => Err(no_api()),
            },
            match r {
                Ok(call) => {
                    &&& base_of(self.budget_api) is Some
                    &&& imports_statement(
                            call@.step,
                            base_of(self.budget_api)->0,
                            account@,
                            text_view(format),
                            text_view(csv),
                            text_view(inbox_file),
                        )
                    &&& hands_on(call@)
                    &&& is_judged(call@)
                },
                Err(_) => true,
            },
    {
        match self.budget_writes() {
            Ok(api) => Ok(
                ToolCall {
                    step: api.import_csv(account, format, csv, inbox_file),
                    shape: Shape::AsIs,
                    judged: true,
                },
            ),
            Err(e) => Err(e),
        }
    }

    pub fn create_transfer(
        &self,
        from_account: &str,
        to_account: &str,
        date: &str,
        amount_cents: i64,
        notes: Option<&str>,
        cleared: Option<bool>,
    ) -> (r: Result<ToolCall, ToolError>)
        ensures
            call_view(r) == match base_of(self.budget_api) {
                Some(base) => Ok(
                    ToolCallView {
                        step: transfer_step(base, from_account@, to_account@, date@, amount_cents as int, text_view(notes), cleared),
                        shape: ShapeView::AsIs,
                        judged: true,
                    },
                ),
                None => Err(no_api()),
            },
            match r {
                Ok(call) => {
                    &&& base_of(self.budget_api) is Some
                    &&& transfers(
                            call@.step,
                            base_of(self.budget_api)->0,
                            from_account@,
                            to_account@,
                            date@,
                            amount_cents as int,
                            text_view(notes),
                            cleared,
                        )
                    &&& hands_on(call@)
                    &&& is_judged(call@)
                },
                Err(_) => true,
            },
    {
        match self.budget_writes() {
            Ok(api) => Ok(
                ToolCall {
                    step: api.create_transfer(from_account, to_account, date, amount_cents, notes, cleared),
                    shape: Shape::AsIs,
                    judged: true,
                },
            ),
            Err(e) => Err(e),
        }
    }

    pub fn pin_balance(&self, account: &str, balance_cents: i64) -> (r: Result<ToolCall, ToolError>)
        ensures
            call_view(r) == match base_of(self.budget_api) {
                Some(base) => Ok(
                    ToolCallView {
                        step: pin_step(base, account@, balance_cents as int),
                        shape: ShapeView::AsIs,
                        judged: true,
                    },
                ),
                None => Err(no_api()),
            },
            match r {
                Ok(call) => {
                    &&& base_of(self.budget_api) is Some
                    &&& pins_balance(
                            call@.step,
                            base_of(self.budget_api)->0,
                            account@,
                            balance_cents as int,
                        )
                    &&& hands_on(call@)
                    &&& is_judged(call@)
                },
                Err(_) => true,
            },
    {
        match self.budget_writes() {
            Ok(api) => Ok(
                ToolCall {
                    step: api.pin_balance(account, balance_cents),
                    shape: Shape::AsIs,
                    judged: true,
                },
            ),
            Err(e) => Err(e),
        }
    }

    pub fn categorize_transactions(
        &self,
        transaction_ids: Vec<String>,
        category: &str,
        learn: Option<bool>,
    ) -> (r: Result<BulkStep, ToolError>)
        ensures
            match (r, base_of(self.budget_api)) {
                (Ok(step), Some(base)) => step.wf() && step@ == BulkStepView::Send(
                    categories(base),
                    BulkPendingView::Category {
                        ids: views(transaction_ids@),
                        wanted: category@,
                        learn: learn == Some(true),
                    },
                ),
                (Err(e), None) => e@ == no_api(),
                _ => false,
            },
            match r {
                Ok(step) => base_of(self.budget_api) is Some && step@ == BulkStepView::Send(
                    asked(base_of(self.budget_api)->0 + "/api/v1/categories"@),
                    BulkPendingView::Category {
                        ids: views(transaction_ids@),
                        wanted: category@,
                        learn: learn is Some && learn->0,
                    },
                ),
                Err(_) => true,
            },
    {
        let learn = match learn {
            Some(b) => b,
            None => false,
        };
        match self.budget_writes() {
            Ok(api) => Ok(api.categorize_transactions(transaction_ids, category, learn)),
            Err(e) => Err(e),
        }
    }
}

} // verus!
