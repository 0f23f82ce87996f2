# tel

A Telegram MTProto command-line client that runs scripted tasks: send a text,
throw a dice, press an inline keyboard button, or let a language model pick one
of those, in chats named by id, username or title.

- `src/` is the verified library (Verus): the task configuration, its
  inline-table TOML writer and the text an action shows, task and session
  selection, action resolution, the order in which a chat is looked up, the
  keyboard-button search, the reading of a model's reply, the next time a task's cron schedule fires and
  how long the run waits for it, the bound of a task's random delay, and the
  rules of the session store (peer subtypes, update-state changes).
- `app/` is the program around it: command-line parsing, prompts, the SQLite
  databases, the Telegram client, the HTTP call to the model, and the serde
  forms of the configuration.
- `tests/` exercises the library on concrete values.
