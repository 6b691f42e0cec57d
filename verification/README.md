# betsphere

The application layer of a play-money prediction market, with a bot
simulation that keeps a demo deployment busy, written in Verus.

## Layout

- `src/` is the verified library. It holds every decision the use cases,
  broadcasters and bots make, as functions on plain values whose contracts
  Verus proves:
  - `model`, `ids`, `text`: the records, UUID text, and the string
    operations the rest is stated over;
  - `use_cases`: what each request checks and in which order it refuses,
    how listings are joined and grouped, how uploads are validated and keyed,
    how refresh tokens are made and hashed. The requests that alternate
    between the stores and decisions (placing a bet, logging in, registering,
    refreshing a session, posting, opening a page of history, settling a
    market) are step functions from a stage and an answer to the next stage
    and action, with a law over every run of answers: what must have been
    answered for the request to succeed;
  - `realtime`, `broadcasters`: the broadcast payloads, the channel each
    travels on (proved distinct per room and per kind), and how each is
    built from what the repositories hold;
  - `demo`: the bot cast, stakes, favourites, top-ups, market templates,
    chat lines, and the tidying of a model's answer into one short line.
  - Calls into `uuid`, `sha2`, `hex` and `rand` go through small trusted
    wrappers whose contracts are documented where they are declared.
- `app/` is ordinary Rust around the library: the async `execute` of each use
  case and the event handlers over the domain's repositories, the service
  ports, the serde and error-text copies of the library's types, and the
  simulation's loops and model client. It fetches, calls the library, and
  writes back; for the stepped requests it performs each action the library
  names and hands the answer back.
- `tests/` runs the library on concrete values.
