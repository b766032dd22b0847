# Pantry Chef, verified

A small web app that keeps a user's pantry staples and asks Google Gemini for
recipes. The decisions of the app are a Verus library under `src/`; `app/` is
the Axum server around it (HTTP, SQLite, the Gemini call, JSON, HTML).

- `src/text.rs`, `src/decimal.rs`: trimming, UTF-8 lengths, integer rendering and parsing.
- `src/config.rs`, `src/db.rs`: settings from environment values; the database directory.
- `src/auth.rs`: session cookie, password hashing, login and registration decisions.
- `src/pantry.rs`, `src/recipes.rs`: pantry item names; recipe requests and redirects.
- `src/llm.rs`: prompts, request body, reading Gemini's reply.
- `src/error.rs`: errors and the HTTP replies they become.
- `src/reset.rs`: the password-reset command.
