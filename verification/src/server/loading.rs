//! Where the budget comes from, and how it is loaded.

use crate::actual::{
    download_request, files_request, find_budget_file, has_magic, is_asked_for, is_sqlite,
    kept_files, law_kept_files, login_verdict, reason_of, reply_data, ActualClient, ServerRequest,
    ServerRequestView,
};
use crate::budget_api::calls::BudgetApi;
use crate::json::document;
use crate::models::{ApiResponse, LoginData, UserFile};
use crate::text::{join3, string_view, text_view, texts, trimmed, without_trailing};
use vstd::prelude::*;
use vstd::string::*;

verus! {

// ── Settings ─────────────────────────────────────────────────────────────────

/// Where the budget comes from.
pub enum BudgetSource {
    /// A file.
    Local(String),
    /// A server: the budget with this id or name, or the first it has.
    Server { client: ActualClient, budget_id: Option<String> },
}

pub enum BudgetSourceView {
    Local(Seq<char>),
    Server { server_url: Seq<char>, budget_id: Option<Seq<char>> },
}

impl View for BudgetSource {
    type V = BudgetSourceView;

    open spec fn view(&self) -> BudgetSourceView {
        match self {
            BudgetSource::Local(path) => BudgetSourceView::Local(path@),
            BudgetSource::Server { client, budget_id } => BudgetSourceView::Server {
                server_url: client.server_url@,
                budget_id: string_view(*budget_id),
            },
        }
    }
}

pub struct ActualServer {
    pub source: BudgetSource,
    /// The API that writes and live reads go through, where it is set up.
    pub budget_api: Option<BudgetApi>,
}

/// The settings of the environment.
pub struct Settings<'a> {
    /// `ACTUAL_DB_PATH`
    pub db_path: Option<&'a str>,
    /// `ACTUAL_SERVER_URL`
    pub server_url: Option<&'a str>,
    /// Whether there is an `ACTUAL_PASSWORD`.
    pub has_password: bool,
    /// `ACTUAL_BUDGET_ID`
    pub budget_id: Option<&'a str>,
    /// `LIBERADO_BUDGET_API_URL`
    pub budget_api_url: Option<&'a str>,
}

/// A file goes before a server; a server needs a password.
pub open spec fn source_of(settings: Settings) -> Result<BudgetSourceView, Seq<char>> {
    match (settings.db_path, settings.server_url) {
        (Some(path), _) => Ok(BudgetSourceView::Local(path@)),
        (None, Some(url)) => if settings.has_password {
            Ok(
                BudgetSourceView::Server {
                    server_url: without_trailing(url@, '/'),
                    budget_id: text_view(settings.budget_id),
                },
            )
        } else {
            Err("ACTUAL_PASSWORD must be set when using ACTUAL_SERVER_URL"@)
        },
        (None, None) => Err(
            "Set either ACTUAL_DB_PATH (local SQLite) or ACTUAL_SERVER_URL + ACTUAL_PASSWORD"@,
        ),
    }
}

/// The base URL of the API, where one is set.
pub open spec fn api_base(setting: Option<Seq<char>>) -> Option<Seq<char>> {
    match setting {
        Some(raw) => if without_trailing(trimmed(raw), '/').len() > 0 {
            Some(without_trailing(trimmed(raw), '/'))
        } else {
            None
        },
        None => None,
    }
}

pub open spec fn base_of(api: Option<BudgetApi>) -> Option<Seq<char>> {
    match api {
        Some(api) => Some(api.base@),
        None => None,
    }
}

// ── Loading ──────────────────────────────────────────────────────────────────

/// What is to be done next to load the budget.
pub enum LoadStep {
    /// See whether the file is there.
    Look { path: String },
    /// Read the first bytes of the file.
    ReadHeader { path: String },
    /// Log in to the server.
    LogIn,
    /// Ask the server for its budget files.
    ListFiles { request: ServerRequest, token: String },
    /// Ask the server for a budget file.
    Download { request: ServerRequest },
    /// Keep the bytes as a file.
    Store { bytes: Vec<u8> },
    /// The budget is in this file.
    Ready { path: String },
    Fail { message: String },
}

pub enum LoadStepView {
    Look { path: Seq<char> },
    ReadHeader { path: Seq<char> },
    LogIn,
    ListFiles { request: ServerRequestView, token: Seq<char> },
    Download { request: ServerRequestView },
    Store { bytes: Seq<u8> },
    Ready { path: Seq<char> },
    Fail { message: Seq<char> },
}

impl View for LoadStep {
    type V = LoadStepView;

    open spec fn view(&self) -> LoadStepView {
        match self {
            LoadStep::Look { path } => LoadStepView::Look { path: path@ },
            LoadStep::ReadHeader { path } => LoadStepView::ReadHeader { path: path@ },
            LoadStep::LogIn => LoadStepView::LogIn,
            LoadStep::ListFiles { request, token } => LoadStepView::ListFiles {
                request: request@,
                token: token@,
            },
            LoadStep::Download { request } => LoadStepView::Download { request: request@ },
            LoadStep::Store { bytes } => LoadStepView::Store { bytes: bytes@ },
            LoadStep::Ready { path } => LoadStepView::Ready { path: path@ },
            LoadStep::Fail { message } => LoadStepView::Fail { message: message@ },
        }
    }
}

/// What became of reading the first bytes of a file.
pub enum Header {
    Bytes(Vec<u8>),
    CannotOpen(String),
    CannotRead(String),
}

/// What became of keeping bytes as a file.
pub enum Stored {
    At(String),
    NoFile(String),
    NotWritten(String),
}

/// What became of asking for a login: the reply, with what it reads as, or why
/// there is none.
pub enum LoginReply {
    Reply { status: String, body: String, parsed: Result<ApiResponse<LoginData>, String> },
    Failed(String),
}

pub open spec fn fail(message: Seq<char>) -> LoadStepView {
    LoadStepView::Fail { message }
}

pub open spec fn first_step(source: BudgetSourceView) -> LoadStepView {
    match source {
        BudgetSourceView::Local(path) => LoadStepView::Look { path },
        BudgetSourceView::Server { .. } => LoadStepView::LogIn,
    }
}

pub open spec fn look_step(path: Seq<char>, found: bool) -> LoadStepView {
    if found {
        LoadStepView::ReadHeader { path }
    } else {
        fail("ACTUAL_DB_PATH not found: "@ + path)
    }
}

pub open spec fn not_sqlite_text(path: Seq<char>) -> Seq<char> {
    path
        + " is not a SQLite file. Verify ACTUAL_DB_PATH points to the db.sqlite inside your Actual Budget data directory."@
}

pub open spec fn header_step(path: Seq<char>, header: Header) -> LoadStepView {
    match header {
        Header::Bytes(bytes) => if has_magic(bytes@) {
            LoadStepView::Ready { path }
        } else {
            fail(not_sqlite_text(path))
        },
        Header::CannotOpen(e) => fail("Cannot open "@ + path + ": "@ + e@),
        Header::CannotRead(e) => fail("Cannot read "@ + path + ": "@ + e@),
    }
}

pub open spec fn login_step(server_url: Seq<char>, login: Result<Seq<char>, Seq<char>>) -> LoadStepView {
    match login {
        Ok(token) => LoadStepView::ListFiles {
            request: files_request(server_url, token),
            token,
        },
        Err(e) => fail("Login failed: "@ + e),
    }
}

pub open spec fn no_file_text() -> Seq<char> {
    "No budget file found on server. Set ACTUAL_BUDGET_ID or ensure at least one budget exists."@
}

pub open spec fn encrypted_text() -> Seq<char> {
    "This budget is encrypted. Encryption is not supported in v1 — see ROADMAP.md. Use ACTUAL_DB_PATH to point directly to a locally-synced SQLite file instead."@
}

/// The first of the files that is asked for.
pub open spec fn chosen_file(files: Seq<UserFile>, budget_id: Option<Seq<char>>) -> Option<UserFile>
    decreases files.len(),
{
    if files.len() == 0 {
        None
    } else if is_asked_for(files[0], budget_id) {
        Some(files[0])
    } else {
        chosen_file(files.drop_first(), budget_id)
    }
}

/// Of the files that are not deleted, the one that is asked for is downloaded; an
/// encrypted one is not.
pub open spec fn files_step(
    server_url: Seq<char>,
    token: Seq<char>,
    budget_id: Option<Seq<char>>,
    files: Result<Seq<UserFile>, Seq<char>>,
) -> LoadStepView {
    match files {
        Ok(files) => match chosen_file(files, budget_id) {
            Some(file) => if file.encrypt_key_id is Some {
                fail(encrypted_text())
            } else {
                LoadStepView::Download {
                    request: download_request(server_url, token, file.file_id@),
                }
            },
            None => fail(no_file_text()),
        },
        Err(e) => fail("Failed to list files: "@ + e),
    }
}

pub open spec fn not_plain_text() -> Seq<char> {
    "Downloaded budget is not a plain SQLite file. Your Actual Budget server may be using CRDT sync (full sync mode), which is not yet supported. Use ACTUAL_DB_PATH to point directly to a locally-synced db.sqlite file. See ROADMAP.md for v2 plans."@
}

pub open spec fn download_step(download: Result<Vec<u8>, String>) -> LoadStepView {
    match download {
        Ok(bytes) => if has_magic(bytes@) {
            LoadStepView::Store { bytes: bytes@ }
        } else {
            fail(not_plain_text())
        },
        Err(e) => fail("Download failed: "@ + e@),
    }
}

pub open spec fn stored_step(stored: Stored) -> LoadStepView {
    match stored {
        Stored::At(path) => LoadStepView::Ready { path: path@ },
        Stored::NoFile(e) => fail("Temp file error: "@ + e@),
        Stored::NotWritten(e) => fail("Write error: "@ + e@),
    }
}

/// What is done where the budget is asked for: a budget that was kept is served,
/// and without one loading starts.
pub open spec fn served(kept: Option<Seq<char>>, source: BudgetSourceView) -> LoadStepView {
    match kept {
        Some(path) => LoadStepView::Ready { path },
        None => first_step(source),
    }
}

/// What is kept of a load that came to this step: the budget, where it is ready.
pub open spec fn kept_of(step: LoadStepView) -> Option<Seq<char>> {
    match step {
        LoadStepView::Ready { path } => Some(path),
        _ => None,
    }
}

fn failing(context: &str, e: &str) -> (r: LoadStep)
    ensures
        r@ == fail(context@ + e@),
{
    LoadStep::Fail { message: context.to_string().concat(e) }
}

/// What a reply to the login comes to.
pub open spec fn login_of(reply: LoginReply) -> Result<Seq<char>, Seq<char>> {
    match reply {
        LoginReply::Reply { status, body, parsed } => login_verdict(
            reason_of(document(body@)),
            status@,
            body@,
            parsed,
        ),
        LoginReply::Failed(e) => Err(e@),
    }
}

/// What a reply to the list of files comes to.
pub open spec fn files_of(reply: Result<ApiResponse<Vec<UserFile>>, String>) -> Result<
    Seq<UserFile>,
    Seq<char>,
> {
    match reply {
        Ok(resp) => match reply_data(resp, "list files"@) {
            Ok(files) => Ok(kept_files(files@)),
            Err(e) => Err(e),
        },
        Err(e) => Err(e@),
    }
}

proof fn lemma_chosen_file(files: Seq<UserFile>, budget_id: Option<Seq<char>>, i: int)
    requires
        0 <= i <= files.len(),
        forall|j: int| 0 <= j < i ==> !is_asked_for(#[trigger] files[j], budget_id),
        i < files.len() ==> is_asked_for(files[i], budget_id),
    ensures
        chosen_file(files, budget_id) == if i < files.len() {
            Some(files[i])
        } else {
            None
        },
    decreases files.len(),
{
    if i > 0 {
        assert(!is_asked_for(files[0], budget_id));
        let rest = files.drop_first();
        assert forall|j: int| 0 <= j < i - 1 implies !is_asked_for(#[trigger] rest[j], budget_id) by {
            assert(rest[j] == files[j + 1]);
        }
        lemma_chosen_file(rest, budget_id, i - 1);
    }
}

impl ActualServer {
    pub fn new(settings: Settings) -> (r: Result<ActualServer, String>)
        ensures
            match r {
                Ok(server) => {
                    &&& source_of(settings) == Ok::<BudgetSourceView, Seq<char>>(server.source@)
                    &&& base_of(server.budget_api) == api_base(text_view(settings.budget_api_url))
                },
                Err(message) => source_of(settings) == Err::<BudgetSourceView, Seq<char>>(
                    message@,
                ),
            },
    {
        let source = match (settings.db_path, settings.server_url) {
            (Some(path), _) => BudgetSource::Local(path.to_string()),
            (None, Some(url)) => {
                if !settings.has_password {
                    return Err(
                        "ACTUAL_PASSWORD must be set when using ACTUAL_SERVER_URL".to_string(),
                    );
                }
                BudgetSource::Server {
                    client: ActualClient::new(url.to_string()),
                    budget_id: match settings.budget_id {
                        Some(id) => Some(id.to_string()),
                        None => None,
                    },
                }
            },
            (None, None) => return Err(
                "Set either ACTUAL_DB_PATH (local SQLite) or ACTUAL_SERVER_URL + ACTUAL_PASSWORD".to_string(),
            ),
        };
        Ok(ActualServer { source, budget_api: BudgetApi::from_env(settings.budget_api_url) })
    }

    /// The first step of loading the budget.
    pub fn db_cache(&self) -> (r: LoadStep)
        ensures
            r@ == first_step(self.source@),
    {
        match &self.source {
            BudgetSource::Local(path) => LoadStep::Look { path: path.clone() },
            BudgetSource::Server { .. } => LoadStep::LogIn,
        }
    }

    /// The step where the budget is asked for, and `kept` is what an earlier load
    /// left.
    pub fn serve(&self, kept: Option<String>) -> (r: LoadStep)
        ensures
            r@ == served(string_view(kept), self.source@),
    {
        match kept {
            Some(path) => LoadStep::Ready { path },
            None => self.db_cache(),
        }
    }

    /// What is kept of a load that came to this step.
    pub fn keep(step: &LoadStep) -> (r: Option<String>)
        ensures
            string_view(r) == kept_of(step@),
    {
        match step {
            LoadStep::Ready { path } => Some(path.clone()),
            _ => None,
        }
    }

    /// The step after looking for the file.
    pub fn after_look(path: String, found: bool) -> (r: LoadStep)
        ensures
            r@ == look_step(path@, found),
    {
        if found {
            LoadStep::ReadHeader { path }
        } else {
            failing("ACTUAL_DB_PATH not found: ", path.as_str())
        }
    }

    /// The step after reading the first bytes of the file.
    pub fn after_header(path: String, header: Header) -> (r: LoadStep)
        ensures
            r@ == header_step(path@, header),
    {
        match header {
            Header::Bytes(bytes) => if is_sqlite(bytes.as_slice()) {
                LoadStep::Ready { path }
            } else {
                failing(
                    path.as_str(),
                    " is not a SQLite file. Verify ACTUAL_DB_PATH points to the db.sqlite inside your Actual Budget data directory.",
                )
            },
            Header::CannotOpen(e) => failing(
                join3("Cannot open ", path.as_str(), ": ").as_str(),
                e.as_str(),
            ),
            Header::CannotRead(e) => failing(
                join3("Cannot read ", path.as_str(), ": ").as_str(),
                e.as_str(),
            ),
        }
    }

    /// The step after asking for a login.
    pub fn after_login(client: &ActualClient, reply: LoginReply) -> (r: LoadStep)
        ensures
            r@ == login_step(client.server_url@, login_of(reply)),
    {
        let login = match reply {
            LoginReply::Reply { status, body, parsed } => ActualClient::finish_login(
                status.as_str(),
                body.as_str(),
                parsed,
            ),
            LoginReply::Failed(e) => Err(e),
        };
        ActualServer::after_token(client, login)
    }

    /// The step after a login that came to `login`.
    pub fn after_token(client: &ActualClient, login: Result<String, String>) -> (r: LoadStep)
        ensures
            r@ == login_step(client.server_url@, texts(login)),
    {
        match login {
            Ok(token) => LoadStep::ListFiles { request: client.list_files(token.as_str()), token },
            Err(e) => failing("Login failed: ", e.as_str()),
        }
    }

    /// The step after asking for the budget files.
    pub fn after_files(
        client: &ActualClient,
        token: &str,
        budget_id: Option<&str>,
        reply: Result<ApiResponse<Vec<UserFile>>, String>,
    ) -> (r: LoadStep)
        ensures
            r@ == files_step(client.server_url@, token@, text_view(budget_id), files_of(reply)),
    {
        let listed = match reply {
            Ok(resp) => ActualClient::finish_list_files(resp),
            Err(e) => Err(e),
        };
        let files = match listed {
            Ok(files) => files,
            Err(e) => return failing("Failed to list files: ", e.as_str()),
        };
        let found = find_budget_file(files.as_slice(), budget_id);
        proof {
            match found {
                Some(file) => {
                    let i = choose|i: int|
                        0 <= i < files@.len() && file == #[trigger] files@[i] && is_asked_for(
                            files@[i],
                            text_view(budget_id),
                        ) && forall|j: int|
                            0 <= j < i ==> !is_asked_for(
                                #[trigger] files@[j],
                                text_view(budget_id),
                            );
                    lemma_chosen_file(files@, text_view(budget_id), i);
                },
                None => lemma_chosen_file(files@, text_view(budget_id), files@.len() as int),
            }
        }
        match found {
            Some(file) => if file.encrypt_key_id.is_some() {
                LoadStep::Fail {
                    message: "This budget is encrypted. Encryption is not supported in v1 — see ROADMAP.md. Use ACTUAL_DB_PATH to point directly to a locally-synced SQLite file instead.".to_string(),
                }
            } else {
                LoadStep::Download {
                    request: client.download_file(token, file.file_id.as_str()),
                }
            },
            None => LoadStep::Fail {
                message: "No budget file found on server. Set ACTUAL_BUDGET_ID or ensure at least one budget exists.".to_string(),
            },
        }
    }

    /// The step after downloading the budget.
    pub fn after_download(download: Result<Vec<u8>, String>) -> (r: LoadStep)
        ensures
            r@ == download_step(download),
    {
        match download {
            Ok(bytes) => if is_sqlite(bytes.as_slice()) {
                LoadStep::Store { bytes }
            } else {
                LoadStep::Fail {
                    message: "Downloaded budget is not a plain SQLite file. Your Actual Budget server may be using CRDT sync (full sync mode), which is not yet supported. Use ACTUAL_DB_PATH to point directly to a locally-synced db.sqlite file. See ROADMAP.md for v2 plans.".to_string(),
                }
            },
            Err(e) => failing("Download failed: ", e.as_str()),
        }
    }

    /// The step after keeping the bytes as a file.
    pub fn after_store(stored: Stored) -> (r: LoadStep)
        ensures
            r@ == stored_step(stored),
    {
        match stored {
            Stored::At(path) => LoadStep::Ready { path },
            Stored::NoFile(e) => failing("Temp file error: ", e.as_str()),
            Stored::NotWritten(e) => failing("Write error: ", e.as_str()),
        }
    }
}

// ── Laws ─────────────────────────────────────────────────────────────────────

/// A budget that was loaded is served again as it is. A load that failed leaves
/// nothing: whoever asks next loads anew, and so does a refresh, which forgets what
/// was kept.
pub proof fn law_only_loaded_budget_is_kept(step: LoadStepView, source: BudgetSourceView)
    ensures
        step is Ready ==> served(kept_of(step), source) == step,
        step is Fail ==> kept_of(step) is None && served(kept_of(step), source) == first_step(
            source,
        ),
        served(None, source) == first_step(source),
        !(first_step(source) is Ready),
{
}

/// A file is opened as a budget, and a download kept as one, only if it starts as
/// an SQLite file does.
pub proof fn law_only_sqlite_is_loaded(path: Seq<char>, header: Header, download: Result<Vec<u8>, String>)
    ensures
        header_step(path, header) is Ready ==> (header matches Header::Bytes(bytes) && has_magic(
            bytes@,
        )),
        download_step(download) is Store ==> (download matches Ok(bytes) && has_magic(bytes@)),
{
}

/// A budget that is downloaded is one that the server lists, not deleted and not
/// encrypted, and the one that is asked for.
pub proof fn law_downloaded_budget_is_asked_for(
    server_url: Seq<char>,
    token: Seq<char>,
    budget_id: Option<Seq<char>>,
    listed: Seq<UserFile>,
)
    ensures
        files_step(server_url, token, budget_id, Ok(kept_files(listed))) is Download ==> exists|
            file: UserFile,
        |
            listed.contains(file) && !file.deleted && file.encrypt_key_id is None
                && #[trigger] is_asked_for(file, budget_id) && files_step(
                server_url,
                token,
                budget_id,
                Ok(kept_files(listed)),
            ) == (LoadStepView::Download {
                request: download_request(server_url, token, file.file_id@),
            }),
{
    let files = kept_files(listed);
    match chosen_file(files, budget_id) {
        Some(file) => {
            lemma_chosen_is_asked_for(files, budget_id, file);
            law_kept_files(listed, file);
        },
        None => {},
    }
}

proof fn lemma_chosen_is_asked_for(files: Seq<UserFile>, budget_id: Option<Seq<char>>, file: UserFile)
    requires
        chosen_file(files, budget_id) == Some(file),
    ensures
        files.contains(file),
        is_asked_for(file, budget_id),
    decreases files.len(),
{
    if is_asked_for(files[0], budget_id) {
        assert(files[0] == file);
    } else {
        let rest = files.drop_first();
        lemma_chosen_is_asked_for(rest, budget_id, file);
        let i = choose|i: int| 0 <= i < rest.len() && rest[i] == file;
        assert(files[i + 1] == file);
    }
}

} // verus!
