//! What the tools that go through the API answer.

use crate::budget_api::requests::text_member;
use crate::budget_api::steps::AnswerView;
use crate::json::{JsonView, MemberView};
use crate::server::errors::{api_error, ToolErrorView};
use crate::server::writes::{finished, FinishedView, ShapeView, ToolCallView};
use vstd::prelude::*;
use vstd::string::*;

verus! {

/// What the tool says of the call where it came to `answer`.
pub open spec fn told(call: ToolCallView, answer: AnswerView) -> FinishedView {
    finished(call.shape, call.judged, Ok(answer))
}

/// Of a thing with an id, the tool tells the id and this name.
pub open spec fn answers_with_name(call: ToolCallView, name: Seq<char>) -> bool {
    forall|id: Seq<char>| #[trigger]
        told(call, AnswerView::Id(id)) == FinishedView::Reply(
            JsonView::Object(seq![text_member("id"@, id), text_member("name"@, name)]),
        )
}

/// A call of a shape that holds the name.
spec fn is_named(call: ToolCallView, name: Seq<char>) -> bool {
    match call.shape {
        ShapeView::Made { name: n, .. } => n == name,
        ShapeView::Renamed { name: n } => n == name,
        _ => false,
    }
}

proof fn lemma_two(a: MemberView, b: MemberView)
    ensures
        seq![a, b] == Seq::empty().push(a).push(b),
{
    assert(seq![a, b] =~= Seq::empty().push(a).push(b));
}

pub proof fn lemma_name_told(name: Seq<char>)
    ensures
        forall|call: ToolCallView|
            (match call.shape {
                ShapeView::Made { name: n, .. } => n == name,
                ShapeView::Renamed { name: n } => n == name,
                _ => false,
            }) ==> #[trigger] answers_with_name(call, name),
{
    assert forall|call: ToolCallView| is_named(call, name) implies #[trigger] answers_with_name(
        call,
        name,
    ) by {
        assert forall|id: Seq<char>| #[trigger]
            told(call, AnswerView::Id(id)) == FinishedView::Reply(
                JsonView::Object(seq![text_member("id"@, id), text_member("name"@, name)]),
            ) by {
            lemma_two(text_member("id"@, id), text_member("name"@, name));
        }
    }
}

pub proof fn lemma_payee_told(tx_id: Seq<char>, payee: Seq<char>)
    ensures
        forall|call: ToolCallView|
            call.shape == (ShapeView::SetPayee { tx_id, payee }) ==> #[trigger] answers_with_payee(
                call,
                tx_id,
                payee,
            ),
{
    lemma_two(text_member("updated"@, tx_id), text_member("payee"@, payee));
}

/// Of a thing with an id, the tool tells that it was updated.
pub open spec fn answers_with_id(call: ToolCallView) -> bool {
    forall|id: Seq<char>| #[trigger]
        told(call, AnswerView::Id(id)) == FinishedView::Reply(
            JsonView::Object(seq![text_member("updated"@, id)]),
        )
}

/// The tool tells that the transaction was updated.
pub open spec fn answers_updated(call: ToolCallView, tx_id: Seq<char>) -> bool {
    told(call, AnswerView::Done) == FinishedView::Reply(
        JsonView::Object(seq![text_member("updated"@, tx_id)]),
    )
}

/// The tool tells that the transaction was updated, and its payee.
pub open spec fn answers_with_payee(
    call: ToolCallView,
    tx_id: Seq<char>,
    payee: Seq<char>,
) -> bool {
    told(call, AnswerView::Done) == FinishedView::Reply(
        JsonView::Object(seq![text_member("updated"@, tx_id), text_member("payee"@, payee)]),
    )
}

/// A document is handed on as it is.
pub open spec fn hands_on(call: ToolCallView) -> bool {
    forall|doc: JsonView| #[trigger]
        told(call, AnswerView::Document(doc)) == FinishedView::Reply(doc)
}

/// Errors of the API are told apart.
pub open spec fn is_judged(call: ToolCallView) -> bool {
    forall|e: Seq<char>| #[trigger]
        finished(call.shape, call.judged, Err(e)) == FinishedView::Error(api_error(e))
}

/// Errors of the API are internal errors.
pub open spec fn is_unjudged(call: ToolCallView) -> bool {
    forall|e: Seq<char>| #[trigger]
        finished(call.shape, call.judged, Err(e)) == FinishedView::Error(
            ToolErrorView::Internal(e),
        )
}

} // verus!
