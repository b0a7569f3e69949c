# link_channels

Verified decision logic for agent-to-agent link channels.

- `src/` is the library, checked by Verus:
  - `channel` — link channel identifiers `link:<a>:<b>`: parsing, building, reversal;
  - `validation` — request parameter checks, page size clamping, defaults, refusals;
  - `links` — agent links, the channels they open, link lookup and send direction, display names;
  - `messages` — stored and client messages, listing pages and filters, search, delivery status;
  - `send`, `acknowledge` — the plans of a send and of an acknowledgment;
  - `events` — which broadcast events reach a subscriber;
  - `notify` — unread-message look-ups, per-agent tallies, notice text;
  - `text` — character-level string helpers.
- `app/` holds the HTTP handlers (axum), storage (sqlx/SQLite), broadcasting and the
  periodic notifier; it calls the library for every decision.
- `tests/` exercise the library on concrete values.
