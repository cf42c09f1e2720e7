# fbkl_logic

The league rules of FBKL fantasy basketball as a Verus library: each rule is an executable
function over plain data whose `requires` / `ensures` contract Verus proves.

- `src/` — the verified library.
  - `auction/` — veteran and free agent auctions: close timing, the crunch window, bids, the
    veteran pool schedule and its tier slide, closing and signing.
  - `rookie_draft/` — draft order, the seeded lottery, picks and passes.
  - `roster/` — salary and cap, roster moves (drops, IR, activation), transaction rules and the
    replay of a reordered week.
  - `deadline_config/`, `deadline_processing/` — generating a season's deadlines, validating their
    configuration, processing them in dependency order, roster locks, keepers and restricted free
    agency.
  - `eligibility/` — classifying players and building the auction and draft pools.
  - `time.rs`, `text.rs` — instants and the league's wall clock; integers written in decimal.
- `tests/` — tests run against the compiled library.
- `app/` — conversions to `chrono` types and user-facing messages for the library's rejections.

Outside crates are reached through small trusted wrappers whose doc comments say what each
contract claims: `chrono-tz` for the league's time zone, `chrono` for the current time, `rand` for
the lottery draw and `multimap` for grouping contracts by team.
