//! What the calls make of the replies.

use crate::budget_api::arguments::{encode_query, encoded};
use crate::budget_api::calls::{
    accounts, add_flag, add_text, category_patch, failed, get_of, member, one_member, patch_of,
    post_of, put_of, with_flag, with_text, BudgetApi,
};
use crate::budget_api::documents::{
    find_equivalent_payee_rule, known_rule, lowercase, no_members, pair_views, payee_rule_body,
    resolve_account_id, resolve_category_id, resolve_payee_id, resolved_category, resolved_in,
    rule_body,
};
use crate::budget_api::steps::{
    reply_view, Answer, AnswerView, Method, PayloadView, Pending, PendingView, Request, RequestView,
    Source, SourceView, Step, StepView, Transfer, TransferView,
};
use crate::json::{item_views, with_member, Json, JsonView};
use crate::text::{as_text, join3, str_or, string_view, text_or, texts, trimmed};
use vstd::prelude::*;
use vstd::string::*;

verus! {

pub open spec fn unknown_text(what: Seq<char>, wanted: Seq<char>) -> Seq<char> {
    "unknown "@ + what + " '"@ + wanted + "'"@
}

/// The id that a reply brings.
pub open spec fn id_answer(doc: JsonView) -> StepView {
    StepView::Finish(
        Ok(
            match doc.text_field("id"@) {
                Some(id) => AnswerView::Id(id),
                None => AnswerView::NoId(doc),
            },
        ),
    )
}

/// A rule that already does what the new one would.
pub open spec fn known_rule_answer(id: Seq<char>, needle: Seq<char>, category_id: Seq<char>) -> JsonView {
    with_member(
        with_member(
            with_member(
                with_member(
                    with_member(
                        one_member("created"@, JsonView::Bool(false)),
                        "id"@,
                        JsonView::Str(id),
                    ),
                    "reason"@,
                    JsonView::Str("equivalent payee regex rule already exists"@),
                ),
                "category_id"@,
                JsonView::Str(category_id),
            ),
            "payee_regex"@,
            JsonView::Str(needle),
        ),
        "matched"@,
        JsonView::Int(0),
    )
}

pub open spec fn new_rule_answer(doc: JsonView, needle: Seq<char>, category_id: Seq<char>) -> JsonView {
    let matched = match doc.field("matched"@) {
        Some(v) => match v.count() {
            Some(n) => n,
            None => 0,
        },
        None => 0,
    };
    with_member(
        with_member(
            with_member(
                with_member(
                    one_member("created"@, JsonView::Bool(true)),
                    "id"@,
                    JsonView::Str(text_or(doc.text_field("id"@), ""@)),
                ),
                "category_id"@,
                JsonView::Str(category_id),
            ),
            "payee_regex"@,
            JsonView::Str(needle),
        ),
        "matched"@,
        JsonView::Int(matched),
    )
}

/// The rule is made unless there is one that does what it would.
pub open spec fn rule_list_step(
    base: Seq<char>,
    existing: Option<Seq<char>>,
    needle: Seq<char>,
    category_id: Seq<char>,
) -> StepView {
    match existing {
        Some(id) => StepView::Finish(
            Ok(AnswerView::Document(known_rule_answer(id, needle, category_id))),
        ),
        None => StepView::Send(
            post_of(base, "/api/v1/rules"@, rule_body(needle, category_id)),
            PendingView::NewRule { needle, category_id },
        ),
    }
}

/// Allocations by the ids of their categories, or the first that is unknown.
pub open spec fn resolved_allocations(doc: JsonView, items: Seq<(Seq<char>, int)>) -> Result<
    Seq<JsonView>,
    Seq<char>,
>
    decreases items.len(),
{
    if items.len() == 0 {
        Ok(Seq::empty())
    } else {
        match resolved_allocations(doc, items.drop_last()) {
            Ok(done) => match resolved_category(doc, items.last().0) {
                Some(id) => Ok(
                    done.push(
                        with_member(
                            one_member("category_id"@, JsonView::Str(id)),
                            "amount_cents"@,
                            JsonView::Int(items.last().1),
                        ),
                    ),
                ),
                None => Err(unknown_text("category"@, items.last().0)),
            },
            Err(message) => Err(message),
        }
    }
}

pub open spec fn import_query(account_id: Seq<char>, format: Seq<char>) -> Seq<char> {
    "account_id="@ + encoded(account_id) + "&format="@ + encoded(format)
}

pub open spec fn import_request(
    base: Seq<char>,
    source: SourceView,
    account_id: Seq<char>,
    format: Seq<char>,
) -> RequestView {
    match source {
        SourceView::Csv(csv) => RequestView {
            method: Method::Post,
            url: base + ("/api/v1/import/csv?"@ + import_query(account_id, format)),
            payload: PayloadView::Text { content_type: "text/csv"@, body: csv },
        },
        SourceView::Inbox(file) => post_of(
            base,
            "/api/v1/import/inbox/"@ + encoded(file) + "?"@ + import_query(account_id, format),
            no_members(),
        ),
    }
}

pub open spec fn transfer_body(from_id: Seq<char>, to_id: Seq<char>, transfer: TransferView) -> JsonView {
    with_flag(
        with_text(
            with_member(
                with_member(
                    with_member(
                        one_member("from_account_id"@, JsonView::Str(from_id)),
                        "to_account_id"@,
                        JsonView::Str(to_id),
                    ),
                    "date"@,
                    JsonView::Str(transfer.date),
                ),
                "amount_cents"@,
                JsonView::Int(transfer.amount_cents),
            ),
            "notes"@,
            transfer.notes,
        ),
        "cleared"@,
        transfer.cleared,
    )
}

pub open spec fn category_in(doc: JsonView, wanted: Seq<char>) -> Result<Seq<char>, Seq<char>> {
    match resolved_category(doc, wanted) {
        Some(id) => Ok(id),
        None => Err(unknown_text("category"@, wanted)),
    }
}

pub open spec fn payee_in(doc: JsonView, wanted: Seq<char>) -> Result<Seq<char>, Seq<char>> {
    match resolved_in(doc, "payees"@, wanted) {
        Some(id) => Ok(id),
        None => Err(unknown_text("payee"@, wanted)),
    }
}

pub open spec fn account_in(doc: JsonView, wanted: Seq<char>) -> Result<Seq<char>, Seq<char>> {
    match resolved_in(doc, "accounts"@, wanted) {
        Some(id) => Ok(id),
        None => Err(unknown_text("account"@, wanted)),
    }
}

pub open spec fn found_id(found: Result<Seq<char>, Seq<char>>) -> StepView {
    match found {
        Ok(id) => StepView::Finish(Ok(AnswerView::Id(id))),
        Err(message) => failed(message),
    }
}

/// The step that follows on a document.
#[verifier::opaque]
pub open spec fn next_on(base: Seq<char>, pending: PendingView, doc: JsonView) -> StepView {
    match pending {
        PendingView::NewCategory => id_answer(doc),
        PendingView::NewPayee => id_answer(doc),
        PendingView::CategoryToUpdate { wanted, body } => match category_in(doc, wanted) {
            Ok(id) => StepView::Send(
                patch_of(base, "/api/v1/categories/"@ + id, body),
                PendingView::Changed { id },
            ),
            Err(message) => failed(message),
        },
        PendingView::PayeeToRename { wanted, new_name } => match payee_in(doc, wanted) {
            Ok(id) => StepView::Send(
                patch_of(
                    base,
                    "/api/v1/payees/"@ + id,
                    one_member("name"@, JsonView::Str(new_name)),
                ),
                PendingView::Changed { id },
            ),
            Err(message) => failed(message),
        },
        PendingView::Changed { id } => StepView::Finish(Ok(AnswerView::Id(id))),
        PendingView::CategoryToSet { tx_id, wanted } => match category_in(doc, wanted) {
            Ok(id) => category_patch(base, tx_id, JsonView::Str(id)),
            Err(message) => failed(message),
        },
        PendingView::Confirmation => StepView::Finish(Ok(AnswerView::Done)),
        PendingView::Document => StepView::Finish(Ok(AnswerView::Document(doc))),
        PendingView::RuleCategory { needle, wanted } => match category_in(doc, wanted) {
            Ok(category_id) => StepView::Send(
                get_of(base, "/api/v1/rules"@),
                PendingView::RuleList { needle, category_id },
            ),
            Err(message) => failed(message),
        },
        PendingView::RuleList { needle, category_id } => rule_list_step(
            base,
            known_rule(doc, trimmed(needle), lowercase(trimmed(needle)), category_id),
            needle,
            category_id,
        ),
        PendingView::NewRule { needle, category_id } => StepView::Finish(
            Ok(AnswerView::Document(new_rule_answer(doc, needle, category_id))),
        ),
        PendingView::CategoryToBudget { month, wanted, amount_cents } => match category_in(
            doc,
            wanted,
        ) {
            Ok(id) => StepView::Send(
                put_of(
                    base,
                    "/api/v1/budgets/"@ + month + "/categories/"@ + id,
                    one_member("amount_cents"@, JsonView::Int(amount_cents)),
                ),
                PendingView::Document,
            ),
            Err(message) => failed(message),
        },
        PendingView::CategoriesToBudget { month, items } => match resolved_allocations(
            doc,
            items,
        ) {
            Ok(resolved) => StepView::Send(
                put_of(
                    base,
                    "/api/v1/budgets/"@ + month + "/allocations"@,
                    one_member("allocations"@, JsonView::Array(resolved)),
                ),
                PendingView::Document,
            ),
            Err(message) => failed(message),
        },
        PendingView::AccountToImport { source, format, wanted } => match account_in(doc, wanted) {
            Ok(id) => StepView::Send(
                import_request(base, source, id, format),
                PendingView::Document,
            ),
            Err(message) => failed(message),
        },
        PendingView::AccountToDebit { from, to, transfer } => match account_in(doc, from) {
            Ok(id) => StepView::Send(
                accounts(base),
                PendingView::AccountToCredit { from_id: id, to, transfer },
            ),
            Err(message) => failed(message),
        },
        PendingView::AccountToCredit { from_id, to, transfer } => match account_in(doc, to) {
            Ok(id) => StepView::Send(
                post_of(base, "/api/v1/transfers"@, transfer_body(from_id, id, transfer)),
                PendingView::Document,
            ),
            Err(message) => failed(message),
        },
        PendingView::AccountToPin { wanted, balance_cents } => match account_in(doc, wanted) {
            Ok(id) => StepView::Send(
                post_of(
                    base,
                    "/api/v1/accounts/"@ + id + "/pin-balance"@,
                    one_member("balance_cents"@, JsonView::Int(balance_cents)),
                ),
                PendingView::Document,
            ),
            Err(message) => failed(message),
        },
        PendingView::CategoryToResolve { wanted } => found_id(category_in(doc, wanted)),
        PendingView::PayeeToResolve { wanted } => found_id(payee_in(doc, wanted)),
        PendingView::AccountToResolve { wanted } => found_id(account_in(doc, wanted)),
    }
}

/// The step that follows on a reply: an error ends the call.
pub open spec fn next(base: Seq<char>, pending: PendingView, reply: Result<JsonView, Seq<char>>) -> StepView {
    match reply {
        Ok(doc) => next_on(base, pending, doc),
        Err(message) => failed(message),
    }
}

fn unknown(what: &str, wanted: &str) -> (r: String)
    ensures
        r@ == unknown_text(what@, wanted@),
{
    let mut s = join3("unknown ", what, " '");
    s.append(wanted);
    s.append("'");
    s
}

pub fn find_category_in(doc: &Json, wanted: &str) -> (r: Result<String, String>)
    ensures
        texts(r) == category_in(doc@, wanted@),
{
    match resolve_category_id(doc, wanted) {
        Some(id) => Ok(id),
        None => Err(unknown("category", wanted)),
    }
}

fn find_payee_in(doc: &Json, wanted: &str) -> (r: Result<String, String>)
    ensures
        texts(r) == payee_in(doc@, wanted@),
{
    match resolve_payee_id(doc, wanted) {
        Some(id) => Ok(id),
        None => Err(unknown("payee", wanted)),
    }
}

fn find_account_in(doc: &Json, wanted: &str) -> (r: Result<String, String>)
    ensures
        texts(r) == account_in(doc@, wanted@),
{
    match resolve_account_id(doc, wanted) {
        Some(id) => Ok(id),
        None => Err(unknown("account", wanted)),
    }
}

fn finish_with_id(found: Result<String, String>) -> (r: Step)
    ensures
        r@ == found_id(texts(found)),
{
    match found {
        Ok(id) => Step::Finish(Ok(Answer::Id(id))),
        Err(message) => Step::Finish(Err(message)),
    }
}

fn answer_with_id(doc: Json) -> (r: Step)
    ensures
        r@ == id_answer(doc@),
{
    let id: Option<String> = match doc.str_field("id") {
        Some(id) => Some(id.to_string()),
        None => None,
    };
    match id {
        Some(id) => Step::Finish(Ok(Answer::Id(id))),
        None => Step::Finish(Ok(Answer::NoId(doc))),
    }
}

fn answer_with_new_rule(doc: &Json, needle: &str, category_id: &str) -> (r: Json)
    ensures
        r@ == new_rule_answer(doc@, needle@, category_id@),
{
    let matched: u64 = match doc.get("matched") {
        Some(v) => match v.as_u64() {
            Some(n) => n,
            None => 0,
        },
        None => 0,
    };
    Json::empty_object().with("created", Json::Bool(true)).with(
        "id",
        Json::string(str_or(doc.str_field("id"), "")),
    ).with("category_id", Json::string(category_id)).with(
        "payee_regex",
        Json::string(needle),
    ).with("matched", Json::UInt(matched))
}

fn answer_with_known_rule(id: &str, needle: &str, category_id: &str) -> (r: Json)
    ensures
        r@ == known_rule_answer(id@, needle@, category_id@),
{
    Json::empty_object().with("created", Json::Bool(false)).with("id", Json::string(id)).with(
        "reason",
        Json::string("equivalent payee regex rule already exists"),
    ).with("category_id", Json::string(category_id)).with(
        "payee_regex",
        Json::string(needle),
    ).with("matched", Json::Int(0))
}

proof fn lemma_resolved_error(doc: JsonView, items: Seq<(Seq<char>, int)>, k: int, e: Seq<char>)
    requires
        0 <= k <= items.len(),
        resolved_allocations(doc, items.take(k)) == Err::<Seq<JsonView>, Seq<char>>(e),
    ensures
        resolved_allocations(doc, items) == Err::<Seq<JsonView>, Seq<char>>(e),
    decreases items.len() - k,
{
    if k == items.len() {
        assert(items.take(k) =~= items);
    } else {
        assert(items.take(k + 1).drop_last() =~= items.take(k));
        lemma_resolved_error(doc, items, k + 1, e);
    }
}

fn resolve_allocations(doc: &Json, items: &Vec<(String, i64)>) -> (r: Result<Vec<Json>, String>)
    ensures
        match r {
            Ok(v) => resolved_allocations(doc@, pair_views(items@)) == Ok::<
                Seq<JsonView>,
                Seq<char>,
            >(item_views(v@)),
            Err(e) => resolved_allocations(doc@, pair_views(items@)) == Err::<
                Seq<JsonView>,
                Seq<char>,
            >(e@),
        },
{
    let ghost all = pair_views(items@);
    let mut out: Vec<Json> = Vec::new();
    let n: usize = items.len();
    let mut i: usize = 0;
    assert(all.take(0) =~= Seq::<(Seq<char>, int)>::empty());
    assert(item_views(out@) =~= Seq::empty());
    while i < n
        invariant
            i <= n == items@.len(),
            all == pair_views(items@),
            resolved_allocations(doc@, all.take(i as int)) == Ok::<Seq<JsonView>, Seq<char>>(
                item_views(out@),
            ),
        decreases n - i,
    {
        let (category, amount) = &items[i];
        assert(all.take(i + 1).drop_last() =~= all.take(i as int));
        assert(all.take(i + 1).last() == (category@, *amount as int));
        match find_category_in(doc, category.as_str()) {
            Ok(id) => {
                let ghost was = out@;
                let item = Json::empty_object().with(
                    "category_id",
                    Json::string(id.as_str()),
                ).with("amount_cents", Json::Int(*amount));
                out.push(item);
                assert(item_views(out@) =~= item_views(was).push(item@));
            },
            Err(e) => {
                proof {
                    lemma_resolved_error(doc@, all, i + 1, e@);
                }
                return Err(e);
            },
        }
        i = i + 1;
    }
    assert(all.take(n as int) =~= all);
    Ok(out)
}

fn make_import_query(account_id: &str, format: &str) -> (r: String)
    ensures
        r@ == import_query(account_id@, format@),
{
    let mut s = join3("account_id=", encode_query(account_id).as_str(), "&format=");
    s.append(encode_query(format).as_str());
    s
}

fn make_transfer_body(from_id: &str, to_id: &str, transfer: &Transfer) -> (r: Json)
    ensures
        r@ == transfer_body(from_id@, to_id@, transfer@),
{
    let body = Json::empty_object().with("from_account_id", Json::string(from_id)).with(
        "to_account_id",
        Json::string(to_id),
    ).with("date", Json::string(transfer.date.as_str())).with(
        "amount_cents",
        Json::Int(transfer.amount_cents),
    );
    add_flag(add_text(body, "notes", as_text(&transfer.notes)), "cleared", transfer.cleared)
}

impl BudgetApi {
    fn request_import(&self, source: &Source, account_id: &str, format: &str) -> (r: Request)
        ensures
            r@ == import_request(self.base@, source@, account_id@, format@),
    {
        let query = make_import_query(account_id, format);
        match source {
            Source::Csv(csv) => {
                let path = "/api/v1/import/csv?".to_string().concat(query.as_str());
                self.post_text(path.as_str(), "text/csv", csv.as_str())
            },
            Source::Inbox(file) => {
                let mut path = join3("/api/v1/import/inbox/", encode_query(file.as_str()).as_str(), "?");
                path.append(query.as_str());
                self.post(path.as_str(), Json::empty_object())
            },
        }
    }

    /// The step after the rules are known: `existing` is the one that does what the
    /// new one would.
    pub fn make_rule(&self, existing: Option<String>, needle: String, category_id: String) -> (r:
        Step)
        ensures
            r@ == rule_list_step(self.base@, string_view(existing), needle@, category_id@),
    {
        match existing {
            Some(id) => Step::Finish(
                Ok(
                    Answer::Document(
                        answer_with_known_rule(id.as_str(), needle.as_str(), category_id.as_str()),
                    ),
                ),
            ),
            None => Step::Send(
                self.post(
                    "/api/v1/rules",
                    payee_rule_body(needle.as_str(), category_id.as_str()),
                ),
                Pending::NewRule { needle, category_id },
            ),
        }
    }

    /// The step that follows on a reply.
    pub fn resume(&self, pending: Pending, reply: Result<Json, String>) -> (r: Step)
        ensures
            r@ == next(self.base@, pending@, reply_view(reply)),
    {
        reveal(next_on);
        let doc = match reply {
            Ok(doc) => doc,
            Err(message) => return Step::Finish(Err(message)),
        };
        match pending {
            Pending::NewCategory => answer_with_id(doc),
            Pending::NewPayee => answer_with_id(doc),
            Pending::CategoryToUpdate { wanted, body } => match find_category_in(
                &doc,
                wanted.as_str(),
            ) {
                Ok(id) => {
                    let path = "/api/v1/categories/".to_string().concat(id.as_str());
                    Step::Send(self.patch(path.as_str(), body), Pending::Changed { id })
                },
                Err(message) => Step::Finish(Err(message)),
            },
            Pending::PayeeToRename { wanted, new_name } => match find_payee_in(
                &doc,
                wanted.as_str(),
            ) {
                Ok(id) => {
                    let path = "/api/v1/payees/".to_string().concat(id.as_str());
                    let body = member("name", Json::string(new_name.as_str()));
                    Step::Send(self.patch(path.as_str(), body), Pending::Changed { id })
                },
                Err(message) => Step::Finish(Err(message)),
            },
            Pending::Changed { id } => Step::Finish(Ok(Answer::Id(id))),
            Pending::CategoryToSet { tx_id, wanted } => match find_category_in(
                &doc,
                wanted.as_str(),
            ) {
                Ok(id) => {
                    let path = "/api/v1/transactions/".to_string().concat(tx_id.as_str());
                    let body = member("category_id", Json::Str(id));
                    Step::Send(self.patch(path.as_str(), body), Pending::Confirmation)
                },
                Err(message) => Step::Finish(Err(message)),
            },
            Pending::Confirmation => Step::Finish(Ok(Answer::Done)),
            Pending::Document => Step::Finish(Ok(Answer::Document(doc))),
            Pending::RuleCategory { needle, wanted } => match find_category_in(
                &doc,
                wanted.as_str(),
            ) {
                Ok(category_id) => Step::Send(
                    self.get("/api/v1/rules"),
                    Pending::RuleList { needle, category_id },
                ),
                Err(message) => Step::Finish(Err(message)),
            },
            Pending::RuleList { needle, category_id } => {
                let existing = find_equivalent_payee_rule(
                    &doc,
                    needle.as_str(),
                    category_id.as_str(),
                );
                self.make_rule(existing, needle, category_id)
            },
            Pending::NewRule { needle, category_id } => Step::Finish(
                Ok(
                    Answer::Document(
                        answer_with_new_rule(&doc, needle.as_str(), category_id.as_str()),
                    ),
                ),
            ),
            Pending::CategoryToBudget { month, wanted, amount_cents } => match find_category_in(
                &doc,
                wanted.as_str(),
            ) {
                Ok(id) => {
                    let mut path = join3("/api/v1/budgets/", month.as_str(), "/categories/");
                    path.append(id.as_str());
                    let body = member("amount_cents", Json::Int(amount_cents));
                    Step::Send(self.put(path.as_str(), body), Pending::Document)
                },
                Err(message) => Step::Finish(Err(message)),
            },
            Pending::CategoriesToBudget { month, items } => match resolve_allocations(
                &doc,
                &items,
            ) {
                Ok(resolved) => {
                    let path = join3("/api/v1/budgets/", month.as_str(), "/allocations");
                    let body = member("allocations", Json::array(resolved));
                    Step::Send(self.put(path.as_str(), body), Pending::Document)
                },
                Err(message) => Step::Finish(Err(message)),
            },
            Pending::AccountToImport { source, format, wanted } => match find_account_in(
                &doc,
                wanted.as_str(),
            ) {
                Ok(id) => Step::Send(
                    self.request_import(&source, id.as_str(), format.as_str()),
                    Pending::Document,
                ),
                Err(message) => Step::Finish(Err(message)),
            },
            Pending::AccountToDebit { from, to, transfer } => match find_account_in(
                &doc,
                from.as_str(),
            ) {
                Ok(id) => Step::Send(
                    self.get("/api/v1/accounts"),
                    Pending::AccountToCredit { from_id: id, to, transfer },
                ),
                Err(message) => Step::Finish(Err(message)),
            },
            Pending::AccountToCredit { from_id, to, transfer } => match find_account_in(
                &doc,
                to.as_str(),
            ) {
                Ok(id) => Step::Send(
                    self.post(
                        "/api/v1/transfers",
                        make_transfer_body(from_id.as_str(), id.as_str(), &transfer),
                    ),
                    Pending::Document,
                ),
                Err(message) => Step::Finish(Err(message)),
            },
            Pending::AccountToPin { wanted, balance_cents } => match find_account_in(
                &doc,
                wanted.as_str(),
            ) {
                Ok(id) => {
                    let path = join3("/api/v1/accounts/", id.as_str(), "/pin-balance");
                    let body = member("balance_cents", Json::Int(balance_cents));
                    Step::Send(self.post(path.as_str(), body), Pending::Document)
                },
                Err(message) => Step::Finish(Err(message)),
            },
            Pending::CategoryToResolve { wanted } => finish_with_id(
                find_category_in(&doc, wanted.as_str()),
            ),
            Pending::PayeeToResolve { wanted } => finish_with_id(
                find_payee_in(&doc, wanted.as_str()),
            ),
            Pending::AccountToResolve { wanted } => finish_with_id(
                find_account_in(&doc, wanted.as_str()),
            ),
        }
    }
}

} // verus!
