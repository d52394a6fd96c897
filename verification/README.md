# tweaker

A Matrix chat bot that learns from the messages of its rooms and talks back through a
Markov generator.

`src/` is the verified library: everything the bot decides or computes.

| module | what it holds |
| --- | --- |
| `bot` | keywords in messages, responses and their queue, the course of a message, logging in |
| `tweak` | modes, cooldowns, the choice of an action, drafts, the bot's memory and sleep |
| `filter`, `filters` | chains of filters over a generated text |
| `console`, `commands` | who may run which command, and what the commands do and print |
| `crawler`, `calendar` | files of messages and media, rooms that messages mention |
| `config` | settings of the connection |
| `text`, `number`, `table`, `names`, `clock` | text, numbers, tables, named values, moments |
| `ids`, `pattern`, `chance` | calls into `matrix_sdk::ruma`, `regex` and `rand` |

Proof functions whose names begin with `law_` state what holds of several functions
together.

`app/` is the program around the library: network, disk, clock, random draws and
probabilities. `tests/` runs the library.
