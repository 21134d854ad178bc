# cleanbot

A chat bot that removes messages from watched channels once they are older than a
per-channel delay, with commands to start and stop cleaning a channel and to purge
recent messages.

- `src/` is the verified library: accepted delays and the table write each command
  issues (`commands`), reply texts and decimal rendering (`commands`, `text`), when
  recorded messages fall due and how long the cleaner sleeps (`schedule`), the
  cleaner's background loop as a state machine (`cleaner`), the reaction to login and
  message reports (`events`), what the writes ask of the two tables and the laws
  over that picture (`tables`), and instants as plain values with the clock reading
  (`clock`).
- `app/` is the binary: the database schema, entities and queries, the chat commands,
  the event handler that drives the cleaner's state machine, and start-up.
- `tests/` exercises the library on concrete values.
