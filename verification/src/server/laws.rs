//! What holds of the server: how a budget is fetched, and what errors mean.

use crate::actual::{has_magic, is_asked_for, kept_files, login_request, ServerRequestView};
use crate::budget_api::calls::reply_of;
use crate::budget_api::replies::unknown_text;
use crate::budget_api::requests::text_member;
use crate::json::{document, JsonView};
use crate::models::{ApiResponse, LoginData, UserFile};
use crate::server::errors::{api_error, ToolErrorView};
use crate::server::loading::{
    api_base, chosen_file, download_step, files_of, files_step, first_step, header_step, login_of,
    login_step, look_step, source_of, stored_step, BudgetSourceView, Header, LoadStepView,
    LoginReply, Settings, Stored,
};
use crate::server::reads::{database_error, Query};
use crate::server::transport::{allowed_origins, listed_origins};
use crate::sql::DbError;
use crate::text::{decimal, digit_char, digits, pieces, trimmed, without_trailing};
use vstd::prelude::*;
use vstd::string::*;

verus! {

// ── Settings ─────────────────────────────────────────────────────────────────

/// What stands at the end of a text besides its `c`s, and how many of them there
/// are.
pub proof fn law_trailing_is_cut(s: Seq<char>, c: char) -> (k: nat)
    ensures
        s == without_trailing(s, c) + Seq::new(k, |i: int| c),
        without_trailing(s, c).len() > 0 ==> without_trailing(s, c).last() != c,
    decreases s.len(),
{
    if s.len() > 0 && s.last() == c {
        let before = law_trailing_is_cut(s.drop_last(), c);
        let k = (before + 1) as nat;
        let kept = without_trailing(s, c);
        assert(s =~= s.drop_last().push(c));
        assert((kept + Seq::new(before, |i: int| c)).push(c) =~= kept + Seq::new(k, |i: int| c));
        assert(s =~= without_trailing(s, c) + Seq::new(k, |i: int| c));
        k
    } else {
        assert(s =~= without_trailing(s, c) + Seq::new(0, |i: int| c));
        0
    }
}

/// A file goes before a server, a server needs a password, and one of them must be
/// set.
pub proof fn law_source_is_as_set(settings: Settings)
    ensures
        settings.db_path is Some ==> source_of(settings) == Ok::<BudgetSourceView, Seq<char>>(
            BudgetSourceView::Local(settings.db_path->0@),
        ),
        settings.db_path is None && settings.server_url is Some && settings.has_password ==> {
            &&& source_of(settings) matches Ok(BudgetSourceView::Server { server_url, budget_id })
            &&& server_url == without_trailing(settings.server_url->0@, '/')
            &&& match settings.budget_id {
                Some(id) => budget_id == Some(id@),
                None => budget_id is None,
            }
        },
        source_of(settings) is Err <==> settings.db_path is None && (settings.server_url is None
            || !settings.has_password),
{
}

/// The base of the API is the setting without blanks around it and slashes behind
/// it; where nothing is left, there is no API.
pub proof fn law_api_is_as_set(setting: Option<Seq<char>>)
    ensures
        setting is None ==> api_base(setting) is None,
        setting is Some ==> match api_base(setting) {
            Some(base) => base == without_trailing(trimmed(setting->0), '/') && base.len() > 0
                && base.last() != '/',
            None => without_trailing(trimmed(setting->0), '/').len() == 0,
        },
{
    if setting is Some {
        let k = law_trailing_is_cut(trimmed(setting->0), '/');
    }
}

/// The origins that are allowed are those that the setting lists, without blanks
/// around them.
pub proof fn law_origins_are_those_listed(setting: Seq<char>, origin: Seq<char>)
    requires
        trimmed(setting).len() > 0,
    ensures
        allowed_origins(Some(setting)) is Some,
        allowed_origins(Some(setting))->0.contains(origin) <==> origin.len() > 0 && exists|i: int|
            0 <= i < pieces(setting, ',').len() && origin == trimmed(
                #[trigger] pieces(setting, ',')[i],
            ),
{
    lemma_listed_origins(pieces(setting, ','), origin);
}

proof fn lemma_listed_origins(parts: Seq<Seq<char>>, origin: Seq<char>)
    ensures
        listed_origins(parts).contains(origin) <==> origin.len() > 0 && exists|i: int|
            0 <= i < parts.len() && origin == trimmed(#[trigger] parts[i]),
    decreases parts.len(),
{
    if parts.len() > 0 {
        let before = parts.drop_last();
        let last = parts.len() - 1;
        let (listed, more) = (listed_origins(before), listed_origins(parts));
        lemma_listed_origins(before, origin);
        if more.contains(origin) {
            let k = choose|k: int| 0 <= k < more.len() && more[k] == origin;
            if k < listed.len() {
                assert(listed[k] == origin);
                let i = choose|i: int|
                    0 <= i < before.len() && origin == trimmed(#[trigger] before[i]);
                assert(parts[i] == before[i]);
            } else {
                assert(origin == trimmed(parts[last]));
            }
        }
        if origin.len() > 0 && exists|i: int|
            0 <= i < parts.len() && origin == trimmed(#[trigger] parts[i]) {
            let i = choose|i: int| 0 <= i < parts.len() && origin == trimmed(#[trigger] parts[i]);
            if i < last {
                assert(before[i] == parts[i]);
                let k = choose|k: int| 0 <= k < listed.len() && listed[k] == origin;
                assert(more[k] == origin);
            } else {
                assert(more[more.len() - 1] == origin);
            }
        }
    }
}

// ── Loading ──────────────────────────────────────────────────────────────────

/// A budget in a file is looked for, its first bytes are read, and it is used from
/// where it is; without the file, nothing is.
pub proof fn law_local_budget_is_used_in_place(path: Seq<char>, bytes: Vec<u8>)
    ensures
        first_step(BudgetSourceView::Local(path)) == (LoadStepView::Look { path }),
        look_step(path, true) == (LoadStepView::ReadHeader { path }),
        look_step(path, false) == (LoadStepView::Fail {
            message: "ACTUAL_DB_PATH not found: "@ + path,
        }),
        has_magic(bytes@) ==> header_step(path, Header::Bytes(bytes)) == (
        LoadStepView::Ready { path }),
{
}

/// The login sends the password, and nothing else, to the server.
pub proof fn law_login_sends_the_password(server_url: Seq<char>, password: Seq<char>)
    ensures
        login_request(server_url, password) == (ServerRequestView {
            url: server_url + "/account/login"@,
            token: None,
            file_id: None,
            body: Some(JsonView::Object(seq![text_member("password"@, password)])),
        }),
{
}

/// A login whose reply names no cause and holds a token comes to that token; one
/// whose reply names a cause fails, and so does any other.
pub proof fn law_login_comes_to_the_token(
    status: String,
    body: String,
    parsed: Result<ApiResponse<LoginData>, String>,
)
    ensures
        ({
            let cause = document(body@) is Ok && document(body@)->Ok_0.text_field("reason"@) is Some;
            let reply = LoginReply::Reply { status, body, parsed };
            match login_of(reply) {
                Ok(token) => !cause && parsed is Ok && parsed->Ok_0.status@ == "ok"@
                    && parsed->Ok_0.data is Some && parsed->Ok_0.data->0.token@ == token,
                Err(_) => cause || parsed is Err || parsed->Ok_0.status@ != "ok"@
                    || parsed->Ok_0.data is None,
            }
        }),
{
}

/// With the token of the login, the server is asked for its files.
pub proof fn law_files_are_asked_for_with_the_token(server_url: Seq<char>, token: Seq<char>)
    ensures
        login_step(server_url, Ok(token)) == (LoadStepView::ListFiles {
            request: ServerRequestView {
                url: server_url + "/sync/list-user-files"@,
                token: Some(token),
                file_id: None,
                body: None,
            },
            token,
        }),
{
}

/// A file that is not deleted and goes by the id or the name that is set; any, where
/// none is.
pub open spec fn is_candidate(file: UserFile, budget_id: Option<Seq<char>>) -> bool {
    !file.deleted && (budget_id is None || file.file_id@ == budget_id->0 || file.name@
        == budget_id->0)
}

proof fn lemma_chosen_of_more(files: Seq<UserFile>, file: UserFile, budget_id: Option<Seq<char>>)
    ensures
        chosen_file(files.push(file), budget_id) == match chosen_file(files, budget_id) {
            Some(f) => Some(f),
            None => if is_asked_for(file, budget_id) {
                Some(file)
            } else {
                None
            },
        },
    decreases files.len(),
{
    let more = files.push(file);
    if files.len() == 0 {
        reveal_with_fuel(chosen_file, 2);
        assert(more[0] == file);
        assert(more.drop_first() =~= Seq::empty());
    } else {
        assert(more[0] == files[0]);
        assert(more.drop_first() =~= files.drop_first().push(file));
        lemma_chosen_of_more(files.drop_first(), file, budget_id);
    }
}

proof fn lemma_first_candidate(listed: Seq<UserFile>, budget_id: Option<Seq<char>>, i: int)
    requires
        0 <= i <= listed.len(),
        forall|j: int| 0 <= j < i ==> !is_candidate(#[trigger] listed[j], budget_id),
        i < listed.len() ==> is_candidate(listed[i], budget_id),
    ensures
        chosen_file(kept_files(listed), budget_id) == if i < listed.len() {
            Some(listed[i])
        } else {
            None
        },
    decreases listed.len(),
{
    if listed.len() > 0 {
        let before = listed.drop_last();
        let last = listed.len() - 1;
        assert forall|j: int| 0 <= j < i && j < before.len() implies !is_candidate(
            #[trigger] before[j],
            budget_id,
        ) by {
            assert(before[j] == listed[j]);
        }
        if i < last {
            assert(before[i] == listed[i]);
            lemma_first_candidate(before, budget_id, i);
        } else {
            lemma_first_candidate(before, budget_id, last);
        }
        if !listed[last].deleted {
            lemma_chosen_of_more(kept_files(before), listed[last], budget_id);
        }
        if i == listed.len() {
            assert(!is_candidate(listed[last], budget_id));
        }
    }
}

/// Of the files that the server lists, the first that is not deleted and goes by the
/// id or name that is set is downloaded, with the token of the login; unless it is
/// encrypted. Without such a file, nothing is.
pub proof fn law_first_candidate_is_downloaded(
    server_url: Seq<char>,
    token: Seq<char>,
    budget_id: Option<Seq<char>>,
    resp: ApiResponse<Vec<UserFile>>,
    i: int,
)
    requires
        resp.status@ == "ok"@,
        resp.data is Some,
        0 <= i <= resp.data->0@.len(),
        forall|j: int| 0 <= j < i ==> !is_candidate(#[trigger] resp.data->0@[j], budget_id),
        i < resp.data->0@.len() ==> is_candidate(resp.data->0@[i], budget_id),
    ensures
        ({
            let files = resp.data->0@;
            let step = files_step(server_url, token, budget_id, files_of(Ok(resp)));
            if i < files.len() && files[i].encrypt_key_id is None {
                step == (LoadStepView::Download {
                    request: ServerRequestView {
                        url: server_url + "/sync/download-user-file"@,
                        token: Some(token),
                        file_id: Some(files[i].file_id@),
                        body: None,
                    },
                })
            } else {
                step is Fail
            }
        }),
{
    lemma_first_candidate(resp.data->0@, budget_id, i);
}

/// What was downloaded is kept as it is, and the budget is where it was kept.
pub proof fn law_download_is_kept(bytes: Vec<u8>, path: String)
    ensures
        has_magic(bytes@) ==> download_step(Ok(bytes)) == (LoadStepView::Store {
            bytes: bytes@,
        }),
        stored_step(Stored::At(path)) == (LoadStepView::Ready { path: path@ }),
{
}

// ── Errors ───────────────────────────────────────────────────────────────────

/// The digits of a number of three.
proof fn lemma_three_digits(n: int)
    requires
        100 <= n <= 999,
    ensures
        decimal(n) == seq![digit_char(n / 100), digit_char(n / 10 % 10), digit_char(n % 10)],
{
    reveal_with_fuel(digits, 4);
    assert(n / 10 / 10 == n / 100);
    assert(decimal(n) =~= seq![
        digit_char(n / 100),
        digit_char(n / 10 % 10),
        digit_char(n % 10),
    ]);
}

/// The error of a reply with this status.
pub open spec fn status_error(code: u16, reason: Seq<char>, text: Seq<char>) -> Seq<char> {
    "budget API "@ + (decimal(code as int) + reason) + ": "@ + text
}

/// A reply with a status that is no success is an error that says the status and
/// the text. To whoever called the tool it means a missing permission where it is
/// 401 or 403, an argument that was refused where it is another between 400 and
/// 499, and something else otherwise.
pub proof fn law_statuses_are_told_apart(
    code: u16,
    reason: Seq<char>,
    text: Seq<char>,
    parsed: Result<JsonView, Seq<char>>,
)
    requires
        100 <= code <= 999,
        code < 200 || code >= 300,
    ensures
        reply_of(code, decimal(code as int) + reason, text, parsed) == Err::<JsonView, Seq<char>>(
            status_error(code, reason, text),
        ),
        api_error(status_error(code, reason, text)) == if code == 401 || code == 403 {
            ToolErrorView::PermissionDenied(status_error(code, reason, text))
        } else if 400 <= code <= 499 {
            ToolErrorView::InvalidParams(status_error(code, reason, text))
        } else {
            ToolErrorView::Internal(status_error(code, reason, text))
        },
{
    let e = status_error(code, reason, text);
    let n = code as int;
    let (a, b, c) = (n / 100, n / 10 % 10, n % 10);
    let front = "budget API "@;
    lemma_three_digits(n);
    reveal_strlit("budget API ");
    reveal_strlit("budget API 401");
    reveal_strlit("budget API 403");
    reveal_strlit("budget API 4");
    reveal_strlit("unknown category ");
    let rest = e.skip(14);
    assert(e =~= front + seq![digit_char(a), digit_char(b), digit_char(c)] + rest);
    assert("budget API 4"@ =~= front + seq!['4']);
    assert("budget API 401"@ =~= front + seq!['4', '0', '1']);
    assert("budget API 403"@ =~= front + seq!['4', '0', '3']);
    lemma_code(front, a, b, c, rest);
    lemma_prefix("unknown category "@, e);
    assert(e[0] == 'b' && "unknown category "@[0] == 'u');
    assert(n == a * 100 + b * 10 + c);
}

/// Which digits of a status a text asks for.
proof fn lemma_code(front: Seq<char>, a: int, b: int, c: int, rest: Seq<char>)
    requires
        0 <= a <= 9,
        0 <= b <= 9,
        0 <= c <= 9,
    ensures
        ({
            let e = front + seq![digit_char(a), digit_char(b), digit_char(c)] + rest;
            &&& (front + seq!['4']).is_prefix_of(e) <==> a == 4
            &&& (front + seq!['4', '0', '1']).is_prefix_of(e) <==> a == 4 && b == 0 && c == 1
            &&& (front + seq!['4', '0', '3']).is_prefix_of(e) <==> a == 4 && b == 0 && c == 3
        }),
{
    let e = front + seq![digit_char(a), digit_char(b), digit_char(c)] + rest;
    let (x, y, z) = (
        front + seq!['4'],
        front + seq!['4', '0', '1'],
        front + seq!['4', '0', '3'],
    );
    let n = front.len() as int;
    lemma_prefix(x, e);
    lemma_prefix(y, e);
    lemma_prefix(z, e);
    assert(e[n] as int == 48 + a && e[n + 1] as int == 48 + b && e[n + 2] as int == 48 + c);
    assert(x[n] == '4');
    assert(y[n] == '4' && y[n + 1] == '0' && y[n + 2] == '1');
    assert(z[n] == '4' && z[n + 1] == '0' && z[n + 2] == '3');
}

/// The text starts with these characters.
spec fn is_start(a: Seq<char>, s: Seq<char>) -> bool {
    a.len() <= s.len() && forall|i: int| 0 <= i < a.len() ==> #[trigger] a[i] == s[i]
}

proof fn lemma_prefix(a: Seq<char>, s: Seq<char>)
    ensures
        a.is_prefix_of(s) <==> is_start(a, s),
{
    if is_start(a, s) {
        assert(a =~= s.subrange(0, a.len() as int));
    }
    if a.is_prefix_of(s) {
        assert forall|i: int| 0 <= i < a.len() implies #[trigger] a[i] == s[i] by {
            assert(a[i] == s.subrange(0, a.len() as int)[i]);
        }
    }
}

/// A category that is unknown is an argument that was refused; a payee or an account
/// that is unknown is not.
pub proof fn law_unknown_names_are_told_apart(wanted: Seq<char>)
    ensures
        api_error(unknown_text("category"@, wanted)) is InvalidParams,
        api_error(unknown_text("payee"@, wanted)) is Internal,
        api_error(unknown_text("account"@, wanted)) is Internal,
{
    reveal_strlit("unknown ");
    reveal_strlit("category");
    reveal_strlit("payee");
    reveal_strlit("account");
    reveal_strlit(" '");
    reveal_strlit("unknown category ");
    reveal_strlit("budget API 401");
    reveal_strlit("budget API 403");
    reveal_strlit("budget API 4");
    let (c, p, a) = (
        unknown_text("category"@, wanted),
        unknown_text("payee"@, wanted),
        unknown_text("account"@, wanted),
    );
    assert("unknown category "@ =~= c.subrange(0, 17));
    assert(c[0] == 'u' && p[0] == 'u' && a[0] == 'u');
    assert(p[8] == 'p' && a[8] == 'a');
    assert("unknown category "@[8] == 'c' && "budget API 4"@[0] == 'b');
    assert("budget API 401"@[0] == 'b' && "budget API 403"@[0] == 'b');
    lemma_prefix("unknown category "@, p);
    lemma_prefix("unknown category "@, a);
    lemma_prefix("budget API 4"@, c);
    lemma_prefix("budget API 4"@, p);
    lemma_prefix("budget API 4"@, a);
    lemma_prefix("budget API 401"@, c);
    lemma_prefix("budget API 401"@, p);
    lemma_prefix("budget API 401"@, a);
    lemma_prefix("budget API 403"@, c);
    lemma_prefix("budget API 403"@, p);
    lemma_prefix("budget API 403"@, a);
}

/// The error that a null brings names the column of the question that it stands in,
/// by its place and its name.
pub open spec fn names_column(q: Query, column: usize, name: Seq<char>) -> bool {
    database_error(q, DbError::NullColumn(column)) == ToolErrorView::Internal(
        "Database error: Invalid column type Null at index: "@ + decimal(column as int)
            + ", name: "@ + name,
    )
}

/// The columns in which a question meets no null, by their places and names.
pub proof fn law_errors_name_the_columns(q: Query)
    ensures
        q is Accounts ==> names_column(q, 0, "id"@) && names_column(q, 1, "name"@) && names_column(
            q,
            3,
            "offbudget"@,
        ) && names_column(q, 4, "closed"@),
        q is Transactions || q is Uncategorized || q is ByCategory ==> names_column(q, 0, "id"@)
            && names_column(q, 1, "date"@) && names_column(q, 2, "amount"@),
        q is Categories || q is Payees || q is BudgetMonth ==> names_column(q, 0, "id"@)
            && names_column(q, 1, "name"@),
        q is MonthlySummary ==> names_column(q, 0, "ym"@) && names_column(q, 1, "income"@)
            && names_column(q, 2, "expenses"@),
        q is SpendingByCategory ==> names_column(q, 2, "total"@),
        q is SpendingByPayee ==> names_column(q, 1, "total"@),
        q is BalanceHistory ==> names_column(q, 0, "month"@) && names_column(q, 1, "month_net"@)
            && names_column(q, 2, "balance"@),
        q is Rules ==> names_column(q, 0, "id"@) && names_column(q, 3, "conditions"@)
            && names_column(q, 4, "actions"@),
        database_error(q, DbError::IntegerOverflow) == ToolErrorView::Internal(
            "Database error: integer overflow"@,
        ),
{
}

/// A reply with a status of success is the document of its text, or null where the
/// text is blank.
pub proof fn law_success_is_the_document(
    code: u16,
    status: Seq<char>,
    text: Seq<char>,
    parsed: Result<JsonView, Seq<char>>,
)
    requires
        200 <= code <= 299,
    ensures
        trimmed(text).len() == 0 ==> reply_of(code, status, text, parsed) == Ok::<
            JsonView,
            Seq<char>,
        >(JsonView::Null),
        trimmed(text).len() > 0 && parsed is Ok ==> reply_of(code, status, text, parsed) == Ok::<
            JsonView,
            Seq<char>,
        >(parsed->Ok_0),
        trimmed(text).len() > 0 && parsed is Err ==> reply_of(code, status, text, parsed) is Err,
{
}

} // verus!
