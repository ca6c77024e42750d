# openai-codex-proxy

A proxy that looks to Codex CLI like an OpenAI-compatible Responses backend, and routes each request
to one of several accounts that are logged in to Codex.

- `src/` is the library: what the proxy decides and computes. It is written in Verus, and its
  functions carry contracts: all but `seconds_since_epoch` and `now_unix_seconds` in `clock`, which
  read the clock and of whose result nothing can be promised.
- `app/` is the program around it: the HTTP server, the command line, files, logins and requests to
  the upstream.
- `tests/` runs the library.

## The library

| Module | What it holds |
| --- | --- |
| `accounts` | accounts, their scores, their rests after a rate limit |
| `registry` | the accounts there are, and which of them a session's last request went to |
| `ranking` | the order in which candidates are tried |
| `selection` | the choice of the account for a request, step by step |
| `routing` | what the choice comes to as a whole |
| `proxy` | a request: admission, answers, retries |
| `course` | which accounts a whole request is sent to |
| `body` | rewriting of request bodies for the upstream |
| `request_headers`, `upstream`, `downstream` | headers of requests and answers |
| `models` | the models of the Codex installation's cache, and the client version |
| `proxy_auth`, `errors`, `admin`, `logins`, `cli`, `config`, `installation` | the rest of the proxy |
| `json`, `headers`, `text`, `paths`, `string_map`, `clock`, `ids` | what the others are built on |

A choice that needs an answer from outside, such as whether an account is logged in, stops with a
question. The program asks it, and resumes the choice with the answer.

What is taken on trust are the contracts of the functions of `serde_json`, `http`, `zstd`, `chrono`,
`uuid` and the standard library that the library calls. Each stands in one place, with a comment that
says what it claims.

## Use

```bash
openai-codex-proxy set-api-key sk-local
openai-codex-proxy login --browser
openai-codex-proxy list-accounts
openai-codex-proxy serve
```

Every endpoint but `/health` requires `Authorization: Bearer <proxy-api-key>`. The header
`x-codex-account-id` asks for one account; without it each request goes to the best account that is
logged in, whichever session it belongs to. The models are those of `models_cache.json` in the Codex
home (`CODEX_HOME`, or `~/.codex`); where that file cannot be read, the upstream is asked. Data is
kept in `~/.openai-codex-proxy`; the environment variables `OCP_LISTEN_ADDR` and
`OCP_REQUEST_TIMEOUT_SECS` set the address and the timeout.
