# forest_ear_bot

A Discord bot that looks after a game server: it lists and backs up save
folders, restores them from its own backup messages, explains why a delete
failed, kills processes, and runs SteamCMD updates.

- `src/` is the library, verified with Verus. It decides everything from plain
  values: resolving a user-facing save path one question at a time, zipping a
  folder one listing or file at a time (the `zip` crate is called from here),
  the order of a restore (safety copy, unpack into a staging folder, move the
  folder aside and the new one in, moving it back if that fails), of a delete (upload before removal, refusals for shortcuts and held
  files) and of an undelete (never over existing data), the lock walk and its
  report, the listings and every reply the bot sends.
- `app/` is the binary around it: Discord (poise/serenity), the filesystem,
  the process table, the clock, and SteamCMD itself. It answers the library's
  questions and performs the actions it asks for.
- `tests/` runs the library on concrete values.

There is no screenshot command: the screen-capture crate it needs is not among
the dependencies this build can use.
