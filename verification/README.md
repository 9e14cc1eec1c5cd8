# liberado_actual_mcp

Budget data of [Actual Budget](https://actualbudget.org) as MCP tools, with the logic verified by
Verus.

- `src/` is the library. It reads arguments, answers questions over the tables of a budget file,
  decides which requests go to the Actual Budget server and to the Liberado Budget REST API, and
  says what their replies mean. It does no input or output of its own: where a call takes several
  requests, it hands out one step after another and goes on with what came back.
- `app/` is the program around it: settings, SQLite files, HTTP, and the MCP transports.
- `tests/` runs the library, in part against SQLite itself.

| Module | Holds |
|---|---|
| `text`, `json`, `pattern` | texts, documents, matching by regular expressions |
| `models` | the records that the tools hand out, money and dates |
| `tables`, `sql`, `query` | the tables of a budget file, joins, sums, orders, listings and groups |
| `db` | the questions, and what holds between their answers (`db::laws`, `db::history`) |
| `actual` | the Actual Budget server |
| `budget_api` | the Liberado Budget REST API, and what holds of its calls (`budget_api::laws`) |
| `server` | the tools: their arguments, their answers, and how the budget is loaded |

What is trusted: `regex` (escaping and searching), `serde_json` (parsing), `String::push` and
`str::to_lowercase`. Each has its contract beside the call.

## Settings

| Variable | Meaning |
|---|---|
| `ACTUAL_DB_PATH` | the budget file |
| `ACTUAL_SERVER_URL`, `ACTUAL_PASSWORD`, `ACTUAL_BUDGET_ID` | a server to download it from instead |
| `ACTUAL_CA_CERT`, `ACTUAL_TLS_INSECURE` | how its certificate is checked |
| `LIBERADO_BUDGET_API_URL` | the REST API, for the tools that write and for live reads |
| `BIND_ADDR` | the address to serve HTTP on; STDIO where it is not set |
| `MCP_ALLOWED_ORIGINS` | the origins that HTTP requests may come from; any where it is not set |
