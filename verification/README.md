# Codex Agent Indicator

The five G-keys of a Logitech G915 keyboard show what Codex tasks are doing: working, waiting for
approval, asking, done or failed. Pressing a lit key opens its task.

## Layout

- `src/` is the library: the rules by which the indicator decides, with contracts that Verus proves.
  Nothing in it waits, reads or writes. Moments, file contents and replies of the keyboard come in
  as arguments; packets to write, keys to light and steps to perform come out as results.
- `app/` is the program around it: the command line, the event loop, HID access, files, sockets and
  the serialised forms of the library's types.
- `tests/` run the library.

## Modules

| Module | Subject |
| --- | --- |
| `config` | colours, settings, their limits, and where files lie |
| `state`, `engine_laws` | which task is shown on which key, and who waits for one |
| `wire`, `wire_laws` | hook events, the runs of a task, questions and failures in messages |
| `journal`, `journal_tracker`, `journal_laws` | following the journals that Codex writes |
| `protocol`, `device` | HID++ packets, replies and G-key presses |
| `hardware` | the connection to the keyboard, retries and the watchdog |
| `lighting`, `status`, `log_rotation` | flashing, day and night, the status file, the log |
| `daemon`, `daemon_laws` | what an event changes in all of these |
| `navigation`, `update`, `cli` | deep links, self-update, commands |
| `bytes`, `text`, `seqs`, `collections`, `json`, `paths`, `time` | what the others are built on |

Functions whose names begin with `law_` state what holds across several functions.
`paths` holds the only contracts that are not proved: four functions of `std::path`.
