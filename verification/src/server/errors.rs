//! Errors that the tools answer with.

use crate::text::{join3, starts_with};
use vstd::prelude::*;
use vstd::string::*;

verus! {

/// Why a tool has no result.
#[derive(Debug)]
pub enum ToolError {
    /// The arguments are wrong.
    InvalidParams(String),
    PermissionDenied(String),
    Internal(String),
}

pub enum ToolErrorView {
    InvalidParams(Seq<char>),
    PermissionDenied(Seq<char>),
    Internal(Seq<char>),
}

impl View for ToolError {
    type V = ToolErrorView;

    open spec fn view(&self) -> ToolErrorView {
        match self {
            ToolError::InvalidParams(t) => ToolErrorView::InvalidParams(t@),
            ToolError::PermissionDenied(t) => ToolErrorView::PermissionDenied(t@),
            ToolError::Internal(t) => ToolErrorView::Internal(t@),
        }
    }
}

/// What an error of the API means to whoever called the tool: a missing
/// permission, an argument that was refused, or something else. A category that
/// is unknown is an argument that was refused.
pub open spec fn api_error(e: Seq<char>) -> ToolErrorView {
    if "budget API 401"@.is_prefix_of(e) || "budget API 403"@.is_prefix_of(e) {
        ToolErrorView::PermissionDenied(e)
    } else if "budget API 4"@.is_prefix_of(e) || "unknown category "@.is_prefix_of(e) {
        ToolErrorView::InvalidParams(e)
    } else {
        ToolErrorView::Internal(e)
    }
}

/// A reply with an error status reads `budget API {status}: {text}`.
pub fn budget_api_error(e: String) -> (r: ToolError)
    ensures
        r@ == api_error(e@),
{
    if starts_with(e.as_str(), "budget API 401") || starts_with(e.as_str(), "budget API 403") {
        ToolError::PermissionDenied(e)
    } else if starts_with(e.as_str(), "budget API 4") || starts_with(
        e.as_str(),
        "unknown category ",
    ) {
        ToolError::InvalidParams(e)
    } else {
        ToolError::Internal(e)
    }
}

pub open spec fn invalid_text(what: Seq<char>, value: Seq<char>, form: Seq<char>) -> Seq<char> {
    "Invalid "@ + what + " '"@ + value + "'; expected "@ + form
}

pub fn invalid(what: &str, value: &str, form: &str) -> (r: ToolError)
    ensures
        r@ == ToolErrorView::InvalidParams(invalid_text(what@, value@, form@)),
{
    let mut s = join3("Invalid ", what, " '");
    s.append(value);
    s.append("'; expected ");
    s.append(form);
    ToolError::InvalidParams(s)
}

} // verus!
