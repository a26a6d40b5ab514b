# library_bot

A Telegram bot that serves a library of course files: users browse a tree of
folders, search files by name, and send in new files for the administrator
to approve.

- `src/` is the verified library: settings (`config`), the records
  (`models`), text helpers with exact specifications (`text`), the inline
  keyboards and their pagination (`keyboards`), the routing of button presses
  and messages together with the dialogue states (`routing`), the screens the
  bot shows (`flows`), the checks and records of contributions
  (`contribution`), and the row handling of database queries (`database`).
- `app/` runs the bot: environment, SQLite, and the Telegram handlers, which
  ask the library what to show and where to go.
- `tests/` exercises the library on concrete values.
