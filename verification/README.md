# simple-im

A messaging hub for agents, with a library that is verified with Verus.

Participants register, open a stream of events, announce a name and send each
other messages. A message passes only where a grant covers the pair, inside a
reply window, or after a governor has let it through. Names are permanent and
outlive the tokens that carry them. Governors approve grants, rule on messages
and block pairs; they are elected by the participants or hand their office on.
Rooms let participants meet who have no grant yet.

## Layout

- `src/` is the library. Everything in it is verified.
  - `trust`, `registry`, `presence`, `rooms`: governors and grants, names,
    presence and rooms.
  - `delivery`: the hub. `delivery/model.rs` is its mathematical model and
    `delivery/books.rs` says how the model's parts agree, which every call
    keeps; the other files hold what each group of calls does. A call changes the
    hub and leaves in its outbox what the outside has to do: send a text down a
    stream, close a stream, start a timer, write to the token store.
  - `http`: what a request's headers say and what is answered, route by route.
  - `events`, `calendar`, `persistence`, `migration`, `config`: the texts of
    events, dates, the rows of the token store, bringing an older store up to
    date, settings.
  - `laws`: what holds of the library as a whole.
  - `text`, `strmap`, `seqs`, `clock`, `random`, `types`, `error`: what the rest
    is built on.
- `app/` is the service around the library: the HTTP server, the streams, the
  timers and the SQLite store.
- `tests/` runs the library.

## Trust

The library calls a few functions of the standard library, of `rand` and of
`serde_json` whose behaviour is stated and not proved. Each stands behind a
small function that says what is claimed of it.
