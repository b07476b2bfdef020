# serverbot

A Discord moderation and utility bot (French-speaking servers), split in two:

- `src/` is the library, verified with Verus: the rules of the bot, stated as
  `requires` / `ensures` contracts over mathematical models and proved.
  - `text` — characters, trimming, splitting, joining, decimal parsing and printing.
  - `activity` — the rotating presence: command words, stored names, the rotation.
  - `automod` — automod settings parsing, spam window, verdicts, rule sanctions.
  - `backup` — server backups: kinds, permission overwrites, the restore plan,
    stable orderings of roles and channels, and the texts of the command.
  - `components` — identifiers of buttons and forms, owner-bound routing.
  - `menus` — ticket, temporary voice and suggestion menus.
  - `moderation` — sanctions lists, owners, logs, boost embed, autopublish.
  - `mp` — direct-message command and its sent-messages list.
  - `tools` — the advanced tools: giveaways, choose, loading, emoji, sync,
    autoreact, buttons, maintenance clock.
  - `commands` — the metadata of every command.
- `app/` is the program around it: the gateway handler, the database and the
  chat API calls. It hands the library plain values and acts on what it returns.
- `tests/` runs the library on concrete values.
