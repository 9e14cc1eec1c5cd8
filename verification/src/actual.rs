//! The Actual Budget server: what is asked of it and what its replies mean.

use crate::json::{document, parse_json, with_member, Json, JsonView};
use crate::models::{ApiResponse, LoginData, UserFile};
use crate::text::{
    join3, lower, lowered, same_text, string_view, strip_trailing, text_view, texts, trim, trimmed,
    without_trailing,
};
use vstd::prelude::*;
use vstd::string::*;

verus! {

// ── Budget files ─────────────────────────────────────────────────────────────

/// What an SQLite file starts with: "SQLite format 3" and a zero.
pub const SQLITE_MAGIC: [u8; 16] = [
    83, 81, 76, 105, 116, 101, 32, 102, 111, 114, 109, 97, 116, 32, 51, 0,
];

pub open spec fn has_magic(bytes: Seq<u8>) -> bool {
    SQLITE_MAGIC@.is_prefix_of(bytes)
}

/// Whether the bytes start as an SQLite file does.
pub fn is_sqlite(bytes: &[u8]) -> (r: bool)
    ensures
        r == has_magic(bytes@),
{
    let magic = SQLITE_MAGIC;
    if bytes.len() < 16 {
        return false;
    }
    let mut i: usize = 0;
    while i < 16
        invariant
            i <= 16 <= bytes@.len(),
            magic == SQLITE_MAGIC,
            forall|j: int| 0 <= j < i ==> bytes@[j] == magic@[j],
        decreases 16 - i,
    {
        if bytes[i] != magic[i] {
            return false;
        }
        i = i + 1;
    }
    assert(magic@ =~= bytes@.subrange(0, 16));
    true
}

/// The file is the one that is asked for: by its id or its name, or any where
/// none is asked for.
pub open spec fn is_asked_for(file: UserFile, budget_id: Option<Seq<char>>) -> bool {
    match budget_id {
        Some(id) => file.file_id@ == id || file.name@ == id,
        None => true,
    }
}

/// The first file that goes by this id or name; the first of all where none is
/// given.
pub fn find_budget_file<'a>(files: &'a [UserFile], budget_id: Option<&str>) -> (r: Option<
    &'a UserFile,
>)
    ensures
        match r {
            Some(file) => exists|i: int|
                0 <= i < files@.len() && file == #[trigger] files@[i] && is_asked_for(
                    files@[i],
                    text_view(budget_id),
                ) && forall|j: int|
                    0 <= j < i ==> !is_asked_for(#[trigger] files@[j], text_view(budget_id)),
            None => forall|j: int|
                0 <= j < files@.len() ==> !is_asked_for(#[trigger] files@[j], text_view(budget_id)),
        },
{
    let mut i: usize = 0;
    while i < files.len()
        invariant
            i <= files@.len(),
            forall|j: int| 0 <= j < i ==> !is_asked_for(#[trigger] files@[j], text_view(budget_id)),
        decreases files@.len() - i,
    {
        let asked_for = match budget_id {
            Some(id) => same_text(files[i].file_id.as_str(), id) || same_text(
                files[i].name.as_str(),
                id,
            ),
            None => true,
        };
        if asked_for {
            assert(files@[i as int] == files[i as int]);
            return Some(&files[i]);
        }
        i = i + 1;
    }
    None
}

// ── Replies ──────────────────────────────────────────────────────────────────

pub open spec fn bad_status_text(context: Seq<char>, status: Seq<char>) -> Seq<char> {
    context + ": server returned status '"@ + status + "'"@
}

pub open spec fn no_data_text(context: Seq<char>) -> Seq<char> {
    context + ": response data was null"@
}

/// The data of a reply whose status is "ok".
pub open spec fn reply_data<T>(resp: ApiResponse<T>, context: Seq<char>) -> Result<T, Seq<char>> {
    if resp.status@ != "ok"@ {
        Err(bad_status_text(context, resp.status@))
    } else {
        match resp.data {
            Some(data) => Ok(data),
            None => Err(no_data_text(context)),
        }
    }
}

pub fn check_response<T>(resp: ApiResponse<T>, context: &str) -> (r: Result<T, String>)
    ensures
        match r {
            Ok(data) => reply_data(resp, context@) == Ok::<T, Seq<char>>(data),
            Err(message) => reply_data(resp, context@) == Err::<T, Seq<char>>(message@),
        },
{
    if !same_text(resp.status.as_str(), "ok") {
        let mut message = join3(context, ": server returned status '", resp.status.as_str());
        message.append("'");
        return Err(message);
    }
    match resp.data {
        Some(data) => Ok(data),
        None => Err(context.to_string().concat(": response data was null")),
    }
}

// ── Requests ─────────────────────────────────────────────────────────────────

/// A request to the server: with a body it is a POST, without one a GET.
pub struct ServerRequest {
    pub url: String,
    /// The login token, as the header `x-actual-token`.
    pub token: Option<String>,
    /// The file that is asked for, as the header `x-actual-file-id`.
    pub file_id: Option<String>,
    pub body: Option<Json>,
}

pub struct ServerRequestView {
    pub url: Seq<char>,
    pub token: Option<Seq<char>>,
    pub file_id: Option<Seq<char>>,
    pub body: Option<JsonView>,
}

impl View for ServerRequest {
    type V = ServerRequestView;

    open spec fn view(&self) -> ServerRequestView {
        ServerRequestView {
            url: self.url@,
            token: string_view(self.token),
            file_id: string_view(self.file_id),
            body: match self.body {
                Some(j) => Some(j@),
                None => None,
            },
        }
    }
}

/// The request that logs in.
pub open spec fn login_request(server_url: Seq<char>, password: Seq<char>) -> ServerRequestView {
    ServerRequestView {
        url: server_url + "/account/login"@,
        token: None,
        file_id: None,
        body: Some(password_body(password)),
    }
}

/// The request that lists the budget files.
pub open spec fn files_request(server_url: Seq<char>, token: Seq<char>) -> ServerRequestView {
    ServerRequestView {
        url: server_url + "/sync/list-user-files"@,
        token: Some(token),
        file_id: None,
        body: None,
    }
}

/// The request that downloads a budget file.
pub open spec fn download_request(server_url: Seq<char>, token: Seq<char>, file_id: Seq<char>) -> ServerRequestView {
    ServerRequestView {
        url: server_url + "/sync/download-user-file"@,
        token: Some(token),
        file_id: Some(file_id),
        body: None,
    }
}

/// The client of one server.
pub struct ActualClient {
    pub server_url: String,
}

pub open spec fn password_body(password: Seq<char>) -> JsonView {
    with_member(JsonView::Object(Seq::empty()), "password"@, JsonView::Str(password))
}

/// The cause that a reply to a login names.
pub open spec fn reason_of(parsed: Result<JsonView, Seq<char>>) -> Option<Seq<char>> {
    match parsed {
        Ok(doc) => doc.text_field("reason"@),
        Err(_) => None,
    }
}

pub open spec fn login_rejected_text(reason: Seq<char>, status: Seq<char>) -> Seq<char> {
    "login rejected by the Actual server: "@ + reason + " (HTTP "@ + status
        + "). Check ACTUAL_PASSWORD."@
}

pub open spec fn login_unreadable_text(
    status: Seq<char>,
    parse_error: Seq<char>,
    body: Seq<char>,
) -> Seq<char> {
    "login failed: HTTP "@ + status + ", unparseable response ("@ + parse_error + "): "@ + body
}

/// What comes of a login: a cause that the server names goes before everything
/// else.
pub open spec fn login_verdict(
    reason: Option<Seq<char>>,
    status: Seq<char>,
    body: Seq<char>,
    parsed: Result<ApiResponse<LoginData>, String>,
) -> Result<Seq<char>, Seq<char>> {
    match (reason, parsed) {
        (Some(reason), _) => Err(login_rejected_text(reason, status)),
        (None, Ok(resp)) => match reply_data(resp, "login"@) {
            Ok(data) => Ok(data.token@),
            Err(message) => Err(message),
        },
        (None, Err(parse_error)) => Err(login_unreadable_text(status, parse_error@, body)),
    }
}

/// The token of a login, or why there is none. `parsed` is the reply read as the
/// envelope of a token, or why it could not be.
pub fn judge_login(
    reason: Option<&str>,
    status: &str,
    body: &str,
    parsed: Result<ApiResponse<LoginData>, String>,
) -> (r: Result<String, String>)
    ensures
        texts(r) == login_verdict(text_view(reason), status@, body@, parsed),
{
    if let Some(reason) = reason {
        let mut message = join3("login rejected by the Actual server: ", reason, " (HTTP ");
        message.append(status);
        message.append("). Check ACTUAL_PASSWORD.");
        return Err(message);
    }
    match parsed {
        Ok(resp) => match check_response(resp, "login") {
            Ok(data) => Ok(data.token),
            Err(message) => Err(message),
        },
        Err(parse_error) => {
            let mut message = join3("login failed: HTTP ", status, ", unparseable response (");
            message.append(parse_error.as_str());
            message.append("): ");
            message.append(body);
            Err(message)
        },
    }
}

/// The files that are not deleted.
pub open spec fn kept_files(files: Seq<UserFile>) -> Seq<UserFile>
    decreases files.len(),
{
    if files.len() == 0 {
        files
    } else if files.last().deleted {
        kept_files(files.drop_last())
    } else {
        kept_files(files.drop_last()).push(files.last())
    }
}

impl ActualClient {
    pub fn new(server_url: String) -> (r: ActualClient)
        ensures
            r.server_url@ == without_trailing(server_url@, '/'),
    {
        ActualClient { server_url: strip_trailing(server_url.as_str(), '/') }
    }

    /// The request that logs in.
    pub fn login(&self, password: &str) -> (r: ServerRequest)
        ensures
            r@ == login_request(self.server_url@, password@),
    {
        ServerRequest {
            url: self.server_url.clone().concat("/account/login"),
            token: None,
            file_id: None,
            body: Some(Json::empty_object().with("password", Json::string(password))),
        }
    }

    /// The token that the reply to a login brings, or why there is none. A failed
    /// login is answered with a body that names the cause, so the body is read
    /// whatever the status is.
    pub fn finish_login(
        status: &str,
        body: &str,
        parsed: Result<ApiResponse<LoginData>, String>,
    ) -> (r: Result<String, String>)
        ensures
            texts(r) == login_verdict(reason_of(document(body@)), status@, body@, parsed),
    {
        match parse_json(body) {
            Ok(doc) => judge_login(doc.str_field("reason"), status, body, parsed),
            Err(_) => judge_login(None, status, body, parsed),
        }
    }

    /// The request that lists the budget files.
    pub fn list_files(&self, token: &str) -> (r: ServerRequest)
        ensures
            r@ == files_request(self.server_url@, token@),
    {
        ServerRequest {
            url: self.server_url.clone().concat("/sync/list-user-files"),
            token: Some(token.to_string()),
            file_id: None,
            body: None,
        }
    }

    /// The files that a reply lists, without those that are deleted.
    pub fn finish_list_files(resp: ApiResponse<Vec<UserFile>>) -> (r: Result<Vec<UserFile>, String>)
        ensures
            match (r, reply_data(resp, "list files"@)) {
                (Ok(files), Ok(listed)) => files@ == kept_files(listed@),
                (Err(message), Err(expected)) => message@ == expected,
                _ => false,
            },
    {
        let listed = match check_response(resp, "list files") {
            Ok(listed) => listed,
            Err(message) => return Err(message),
        };
        let ghost all = listed@;
        let mut files: Vec<UserFile> = Vec::new();
        assert(all.take(0) =~= Seq::<UserFile>::empty());
        for file in it: listed
            invariant
                it.seq() == all,
                files@ =~= kept_files(all.take(it.index())),
        {
            let ghost j = it.index();
            assert(all.take(j + 1).drop_last() =~= all.take(j));
            assert(all.take(j + 1).last() == file);
            if !file.deleted {
                files.push(file);
            }
        }
        assert(all.take(all.len() as int) =~= all);
        Ok(files)
    }

    /// The request that downloads a budget file.
    pub fn download_file(&self, token: &str, file_id: &str) -> (r: ServerRequest)
        ensures
            r@ == download_request(self.server_url@, token@, file_id@),
    {
        ServerRequest {
            url: self.server_url.clone().concat("/sync/download-user-file"),
            token: Some(token.to_string()),
            file_id: Some(file_id.to_string()),
            body: None,
        }
    }
}

/// Whether the setting asks to skip the check of certificates: "1", "true" or
/// "yes", whatever the case of the letters. It is off where nothing is set.
pub fn tls_insecure(setting: Option<&str>) -> (r: bool)
    ensures
        r == match setting {
            Some(value) => {
                let v = lowered(trimmed(value@));
                v == "1"@ || v == "true"@ || v == "yes"@
            },
            None => false,
        },
{
    match setting {
        Some(value) => {
            let v = lower(trim(value));
            same_text(v.as_str(), "1") || same_text(v.as_str(), "true") || same_text(
                v.as_str(),
                "yes",
            )
        },
        None => false,
    }
}

/// Every file that is offered is one that is not deleted, and none of those is
/// left out.
pub proof fn law_kept_files(files: Seq<UserFile>, file: UserFile)
    ensures
        kept_files(files).contains(file) <==> files.contains(file) && !file.deleted,
    decreases files.len(),
{
    if files.len() > 0 {
        let before = files.drop_last();
        law_kept_files(before, file);
        if kept_files(files).contains(file) {
            let i = choose|i: int| 0 <= i < kept_files(files).len() && kept_files(files)[i] == file;
            if i < kept_files(before).len() {
                assert(kept_files(before)[i] == file);
                let k = choose|k: int| 0 <= k < before.len() && before[k] == file;
                assert(files[k] == file);
            } else {
                assert(files[files.len() - 1] == file);
            }
        }
        if files.contains(file) && !file.deleted {
            let k = choose|k: int| 0 <= k < files.len() && files[k] == file;
            if k < before.len() {
                assert(before[k] == file);
                let i = choose|i: int|
                    0 <= i < kept_files(before).len() && kept_files(before)[i] == file;
                assert(kept_files(files)[i] == file);
            } else {
                assert(kept_files(files).last() == file);
            }
        }
    }
}

} // verus!
