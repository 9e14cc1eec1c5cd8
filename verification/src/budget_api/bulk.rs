//! Putting many transactions into a category.

use crate::budget_api::calls::{
    categories, get_of, member, one_member, payee_rule_step, set_category_step, BudgetApi,
};
use crate::budget_api::documents::{payees_for_ids, payees_of};
use crate::budget_api::replies::{category_in, find_category_in, next};
use crate::budget_api::steps::{
    reply_view, Answer, AnswerView, Pending, PendingView, Request, RequestView, Step, StepView,
};
use crate::json::{item_views, with_member, Json, JsonView};
use crate::text::views;
use vstd::prelude::*;
use vstd::string::*;

verus! {

// ── What is kept on the way ──────────────────────────────────────────────────

/// What was done so far.
pub struct Bulk {
    pub ids: Vec<String>,
    pub learn: bool,
    pub category_id: String,
    pub updated: Vec<String>,
    pub learned: Vec<Json>,
    pub errors: Vec<Json>,
}

pub struct BulkView {
    pub ids: Seq<Seq<char>>,
    pub learn: bool,
    pub category_id: Seq<char>,
    pub updated: Seq<Seq<char>>,
    pub learned: Seq<JsonView>,
    pub errors: Seq<JsonView>,
}

impl View for Bulk {
    type V = BulkView;

    open spec fn view(&self) -> BulkView {
        BulkView {
            ids: views(self.ids@),
            learn: self.learn,
            category_id: self.category_id@,
            updated: views(self.updated@),
            learned: item_views(self.learned@),
            errors: item_views(self.errors@),
        }
    }
}

/// What is waited for.
pub enum BulkPending {
    /// The categories, one of which the transactions are to have.
    Category { ids: Vec<String>, wanted: String, learn: bool },
    /// A reply on the way to set the category of the transaction `at`.
    Setting { bulk: Bulk, at: usize, inner: Pending },
    /// The transactions, whose payees are to be learned from.
    Transactions { bulk: Bulk },
    /// A reply on the way to a rule for the payee `at`.
    Learning { bulk: Bulk, payees: Vec<String>, at: usize, inner: Pending },
}

pub enum BulkPendingView {
    Category { ids: Seq<Seq<char>>, wanted: Seq<char>, learn: bool },
    Setting { bulk: BulkView, at: int, inner: PendingView },
    Transactions { bulk: BulkView },
    Learning { bulk: BulkView, payees: Seq<Seq<char>>, at: int, inner: PendingView },
}

impl View for BulkPending {
    type V = BulkPendingView;

    open spec fn view(&self) -> BulkPendingView {
        match self {
            BulkPending::Category { ids, wanted, learn } => BulkPendingView::Category {
                ids: views(ids@),
                wanted: wanted@,
                learn: *learn,
            },
            BulkPending::Setting { bulk, at, inner } => BulkPendingView::Setting {
                bulk: bulk@,
                at: *at as int,
                inner: inner@,
            },
            BulkPending::Transactions { bulk } => BulkPendingView::Transactions { bulk: bulk@ },
            BulkPending::Learning { bulk, payees, at, inner } => BulkPendingView::Learning {
                bulk: bulk@,
                payees: views(payees@),
                at: *at as int,
                inner: inner@,
            },
        }
    }
}

pub enum BulkStep {
    Send(Request, BulkPending),
    Finish(Result<Json, String>),
}

pub enum BulkStepView {
    Send(RequestView, BulkPendingView),
    Finish(Result<JsonView, Seq<char>>),
}

impl View for BulkStep {
    type V = BulkStepView;

    open spec fn view(&self) -> BulkStepView {
        match self {
            BulkStep::Send(request, pending) => BulkStepView::Send(request@, pending@),
            BulkStep::Finish(Ok(report)) => BulkStepView::Finish(Ok(report@)),
            BulkStep::Finish(Err(message)) => BulkStepView::Finish(Err(message@)),
        }
    }
}

impl BulkPending {
    /// The transaction or payee that is being worked on is one of them.
    pub open spec fn wf(&self) -> bool {
        match self {
            BulkPending::Setting { bulk, at, .. } => *at < bulk.ids@.len(),
            BulkPending::Learning { payees, at, .. } => *at < payees@.len(),
            _ => true,
        }
    }
}

impl BulkStep {
    pub open spec fn wf(&self) -> bool {
        match self {
            BulkStep::Send(_, pending) => pending.wf(),
            BulkStep::Finish(_) => true,
        }
    }
}

// ── What follows ─────────────────────────────────────────────────────────────

pub open spec fn report(bulk: BulkView) -> JsonView {
    with_member(
        with_member(
            with_member(
                one_member("category_id"@, JsonView::Str(bulk.category_id)),
                "updated"@,
                JsonView::Array(bulk.updated.map_values(|t: Seq<char>| JsonView::Str(t))),
            ),
            "learned_rules"@,
            JsonView::Array(bulk.learned),
        ),
        "errors"@,
        JsonView::Array(bulk.errors),
    )
}

pub open spec fn error_entry(key: Seq<char>, name: Seq<char>, message: Seq<char>) -> JsonView {
    with_member(one_member(key, JsonView::Str(name)), "error"@, JsonView::Str(message))
}

/// One transaction more was set, or not.
pub open spec fn after_setting(bulk: BulkView, id: Seq<char>, outcome: Result<AnswerView, Seq<char>>) -> BulkView {
    match outcome {
        Ok(_) => BulkView { updated: bulk.updated.push(id), ..bulk },
        Err(message) => BulkView {
            errors: bulk.errors.push(error_entry("id"@, id, message)),
            ..bulk
        },
    }
}

pub open spec fn answer_document(answer: AnswerView) -> JsonView {
    match answer {
        AnswerView::Document(doc) => doc,
        _ => JsonView::Null,
    }
}

/// One payee more was learned from, or not.
pub open spec fn after_learning(
    bulk: BulkView,
    payee: Seq<char>,
    outcome: Result<AnswerView, Seq<char>>,
) -> BulkView {
    match outcome {
        Ok(answer) => BulkView { learned: bulk.learned.push(answer_document(answer)), ..bulk },
        Err(message) => BulkView {
            errors: bulk.errors.push(error_entry("learn_payee"@, payee, message)),
            ..bulk
        },
    }
}

/// The transactions from `at` on are still to be set; behind them the payees, if
/// they are to be learned from.
pub open spec fn setting_step(base: Seq<char>, bulk: BulkView, at: int) -> BulkStepView
    decreases bulk.ids.len() - at,
{
    if 0 <= at < bulk.ids.len() {
        match set_category_step(base, bulk.ids[at], Some(bulk.category_id)) {
            StepView::Send(request, inner) => BulkStepView::Send(
                request,
                BulkPendingView::Setting { bulk, at, inner },
            ),
            StepView::Finish(outcome) => setting_step(
                base,
                after_setting(bulk, bulk.ids[at], outcome),
                at + 1,
            ),
        }
    } else if bulk.learn {
        BulkStepView::Send(
            get_of(base, "/api/v1/transactions?limit=2000"@),
            BulkPendingView::Transactions { bulk },
        )
    } else {
        BulkStepView::Finish(Ok(report(bulk)))
    }
}

/// The payees from `at` on are still to be learned from.
pub open spec fn learning_step(base: Seq<char>, bulk: BulkView, payees: Seq<Seq<char>>, at: int) -> BulkStepView
    decreases payees.len() - at,
{
    if 0 <= at < payees.len() {
        match payee_rule_step(base, payees[at], bulk.category_id) {
            StepView::Send(request, inner) => BulkStepView::Send(
                request,
                BulkPendingView::Learning { bulk, payees, at, inner },
            ),
            StepView::Finish(outcome) => learning_step(
                base,
                after_learning(bulk, payees[at], outcome),
                payees,
                at + 1,
            ),
        }
    } else {
        BulkStepView::Finish(Ok(report(bulk)))
    }
}

pub open spec fn started(ids: Seq<Seq<char>>, category_id: Seq<char>, learn: bool) -> BulkView {
    BulkView {
        ids,
        learn,
        category_id,
        updated: Seq::empty(),
        learned: Seq::empty(),
        errors: Seq::empty(),
    }
}

/// The step that follows on a reply. An error while a transaction is set, or a
/// payee learned from, is noted and the rest goes on.
pub open spec fn bulk_next(base: Seq<char>, pending: BulkPendingView, reply: Result<JsonView, Seq<char>>) -> BulkStepView {
    match pending {
        BulkPendingView::Category { ids, wanted, learn } => match reply {
            Ok(doc) => match category_in(doc, wanted) {
                Ok(id) => setting_step(base, started(ids, id, learn), 0),
                Err(message) => BulkStepView::Finish(Err(message)),
            },
            Err(message) => BulkStepView::Finish(Err(message)),
        },
        BulkPendingView::Setting { bulk, at, inner } => match next(base, inner, reply) {
            StepView::Send(request, inner) => BulkStepView::Send(
                request,
                BulkPendingView::Setting { bulk, at, inner },
            ),
            StepView::Finish(outcome) => setting_step(
                base,
                after_setting(bulk, bulk.ids[at], outcome),
                at + 1,
            ),
        },
        BulkPendingView::Transactions { bulk } => match reply {
            Ok(doc) => learning_step(base, bulk, payees_of(doc, bulk.ids), 0),
            Err(message) => BulkStepView::Finish(Err(message)),
        },
        BulkPendingView::Learning { bulk, payees, at, inner } => match next(base, inner, reply) {
            StepView::Send(request, inner) => BulkStepView::Send(
                request,
                BulkPendingView::Learning { bulk, payees, at, inner },
            ),
            StepView::Finish(outcome) => learning_step(
                base,
                after_learning(bulk, payees[at], outcome),
                payees,
                at + 1,
            ),
        },
    }
}

// ── Doing it ─────────────────────────────────────────────────────────────────

pub open spec fn outcome_view(outcome: Result<Answer, String>) -> Result<AnswerView, Seq<char>> {
    match outcome {
        Ok(answer) => Ok(answer@),
        Err(message) => Err(message@),
    }
}

fn make_error_entry(key: &str, name: &str, message: String) -> (r: Json)
    ensures
        r@ == error_entry(key@, name@, message@),
{
    member(key, Json::string(name)).with("error", Json::Str(message))
}

fn note_setting(bulk: Bulk, at: usize, outcome: Result<Answer, String>) -> (r: Bulk)
    requires
        at < bulk.ids@.len(),
    ensures
        r@ == after_setting(bulk@, bulk@.ids[at as int], outcome_view(outcome)),
        r.ids@ == bulk.ids@,
{
    let mut bulk = bulk;
    let ghost was = bulk@;
    let id = bulk.ids[at].clone();
    assert(bulk@.ids[at as int] == id@);
    match outcome {
        Ok(_) => {
            bulk.updated.push(id);
            assert(views(bulk.updated@) =~= was.updated.push(id@));
        },
        Err(message) => {
            let entry = make_error_entry("id", id.as_str(), message);
            bulk.errors.push(entry);
            assert(item_views(bulk.errors@) =~= was.errors.push(entry@));
        },
    }
    bulk
}

fn note_learning(bulk: Bulk, payee: &str, outcome: Result<Answer, String>) -> (r: Bulk)
    ensures
        r@ == after_learning(bulk@, payee@, outcome_view(outcome)),
        r.ids@ == bulk.ids@,
{
    let mut bulk = bulk;
    let ghost was = bulk@;
    match outcome {
        Ok(answer) => {
            let doc = match answer {
                Answer::Document(doc) => doc,
                _ => Json::Null,
            };
            bulk.learned.push(doc);
            assert(item_views(bulk.learned@) =~= was.learned.push(doc@));
        },
        Err(message) => {
            let entry = make_error_entry("learn_payee", payee, message);
            bulk.errors.push(entry);
            assert(item_views(bulk.errors@) =~= was.errors.push(entry@));
        },
    }
    bulk
}

fn text_array(texts: Vec<String>) -> (r: Json)
    ensures
        r@ == JsonView::Array(views(texts@).map_values(|t: Seq<char>| JsonView::Str(t))),
{
    let ghost all = views(texts@);
    let mut items: Vec<Json> = Vec::new();
    let n: usize = texts.len();
    let mut i: usize = 0;
    while i < n
        invariant
            i <= n == texts@.len(),
            all == views(texts@),
            item_views(items@) =~= all.take(i as int).map_values(|t: Seq<char>| JsonView::Str(t)),
        decreases n - i,
    {
        let ghost was = items@;
        let item = Json::string(texts[i].as_str());
        items.push(item);
        assert(item_views(items@) =~= item_views(was).push(item@));
        i = i + 1;
    }
    assert(all.take(n as int) =~= all);
    Json::array(items)
}

fn make_report(bulk: Bulk) -> (r: Json)
    ensures
        r@ == report(bulk@),
{
    member("category_id", Json::Str(bulk.category_id)).with("updated", text_array(bulk.updated)).with(
        "learned_rules",
        Json::array(bulk.learned),
    ).with("errors", Json::array(bulk.errors))
}

impl BudgetApi {
    fn go_on_setting(&self, bulk: Bulk, at: usize) -> (r: BulkStep)
        requires
            at <= bulk.ids@.len(),
        ensures
            r@ == setting_step(self.base@, bulk@, at as int),
            r.wf(),
        decreases bulk.ids@.len() - at,
    {
        if at < bulk.ids.len() {
            assert(bulk@.ids[at as int] == bulk.ids@[at as int]@);
            match self.set_transaction_category(
                bulk.ids[at].as_str(),
                Some(bulk.category_id.as_str()),
            ) {
                Step::Send(request, inner) => BulkStep::Send(
                    request,
                    BulkPending::Setting { bulk, at, inner },
                ),
                Step::Finish(outcome) => self.go_on_setting(
                    note_setting(bulk, at, outcome),
                    at + 1,
                ),
            }
        } else if bulk.learn {
            BulkStep::Send(
                self.get("/api/v1/transactions?limit=2000"),
                BulkPending::Transactions { bulk },
            )
        } else {
            BulkStep::Finish(Ok(make_report(bulk)))
        }
    }

    fn go_on_learning(&self, bulk: Bulk, payees: Vec<String>, at: usize) -> (r: BulkStep)
        requires
            at <= payees@.len(),
        ensures
            r@ == learning_step(self.base@, bulk@, views(payees@), at as int),
            r.wf(),
        decreases payees@.len() - at,
    {
        if at < payees.len() {
            assert(views(payees@)[at as int] == payees@[at as int]@);
            match self.create_payee_rule(payees[at].as_str(), bulk.category_id.as_str()) {
                Step::Send(request, inner) => BulkStep::Send(
                    request,
                    BulkPending::Learning { bulk, payees, at, inner },
                ),
                Step::Finish(outcome) => {
                    let bulk = note_learning(bulk, payees[at].as_str(), outcome);
                    self.go_on_learning(bulk, payees, at + 1)
                },
            }
        } else {
            BulkStep::Finish(Ok(make_report(bulk)))
        }
    }

    /// Puts transactions into a category, by its id or name. With `learn`, each of
    /// their payees gets a rule that does the same.
    pub fn categorize_transactions(&self, ids: Vec<String>, category: &str, learn: bool) -> (r:
        BulkStep)
        ensures
            r@ == BulkStepView::Send(
                categories(self.base@),
                BulkPendingView::Category { ids: views(ids@), wanted: category@, learn },
            ),
            r.wf(),
    {
        BulkStep::Send(
            self.get("/api/v1/categories"),
            BulkPending::Category { ids, wanted: category.to_string(), learn },
        )
    }

    /// The step that follows on a reply.
    pub fn resume_bulk(&self, pending: BulkPending, reply: Result<Json, String>) -> (r: BulkStep)
        requires
            pending.wf(),
        ensures
            r@ == bulk_next(self.base@, pending@, reply_view(reply)),
            r.wf(),
    {
        match pending {
            BulkPending::Category { ids, wanted, learn } => {
                let doc = match reply {
                    Ok(doc) => doc,
                    Err(message) => return BulkStep::Finish(Err(message)),
                };
                match find_category_in(&doc, wanted.as_str()) {
                    Ok(category_id) => {
                        let bulk = Bulk {
                            ids,
                            learn,
                            category_id,
                            updated: Vec::new(),
                            learned: Vec::new(),
                            errors: Vec::new(),
                        };
                        assert(bulk@.updated =~= Seq::empty());
                        assert(bulk@.learned =~= Seq::empty());
                        assert(bulk@.errors =~= Seq::empty());
                        self.go_on_setting(bulk, 0)
                    },
                    Err(message) => BulkStep::Finish(Err(message)),
                }
            },
            BulkPending::Setting { bulk, at, inner } => match self.resume(inner, reply) {
                Step::Send(request, inner) => BulkStep::Send(
                    request,
                    BulkPending::Setting { bulk, at, inner },
                ),
                Step::Finish(outcome) => {
                    let n: usize = bulk.ids.len();
                    assert(at < n);
                    self.go_on_setting(note_setting(bulk, at, outcome), at + 1)
                },
            },
            BulkPending::Transactions { bulk } => {
                let doc = match reply {
                    Ok(doc) => doc,
                    Err(message) => return BulkStep::Finish(Err(message)),
                };
                let payees = payees_for_ids(&doc, &bulk.ids);
                self.go_on_learning(bulk, payees, 0)
            },
            BulkPending::Learning { bulk, payees, at, inner } => match self.resume(inner, reply) {
                Step::Send(request, inner) => BulkStep::Send(
                    request,
                    BulkPending::Learning { bulk, payees, at, inner },
                ),
                Step::Finish(outcome) => {
                    assert(views(payees@)[at as int] == payees@[at as int]@);
                    let n: usize = payees.len();
                    assert(at < n);
                    let bulk = note_learning(bulk, payees[at].as_str(), outcome);
                    self.go_on_learning(bulk, payees, at + 1)
                },
            },
        }
    }
}

} // verus!
