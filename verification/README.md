# Vectorcom

A chat service with rooms: a terminal client, a server and the server's
dashboard. The library holds their logic, verified with Verus; `app/` puts it on
sockets and a terminal.

## The library

| module | what it holds |
| --- | --- |
| `text`, `format`, `order`, `text_map`, `ids` | texts, numbers and collections |
| `clock` | times of day as text |
| `protocol` | messages, names, list entries and the cipher |
| `wire` | the server's side of the text protocol |
| `net` | the client's side of the text protocol |
| `connection` | the client's connection, step by step |
| `roundtrip` | what one side writes, the other reads |
| `input`, `app`, `client`, `keys` | the client's state, commands and keys |
| `hub`, `state` | the server's state: its model with its laws, and its code |
| `session`, `admin`, `observe` | sessions, the administrator's commands and muted users, and the observer of another server |
| `view`, `client_view`, `dashboard` | the screens |
| `journey` | laws on the whole way from one user to another |

Functions whose result depends on the time come in pairs: `..._at` takes the time
and has an exact contract, the other one reads the clock.

## What is trusted

Verus takes these on trust: `String::push`, `String::from_utf8_lossy`, the clock
and the time zone of `chrono`, the layout of `ratatui`, and the widths of
`unicode-width`. Each stands in a function of its own that says what is claimed.
