# Discord REC

Records Discord voice sessions by itself: a recording begins when you join a voice channel and
ends, finished and playable, when you leave it.

The library holds the decisions of the application as verified code: when to record, what the
pipelines are made of, which names and files are accepted, what is removed and when. The
application around it reads from the system and carries the decisions out. It also holds what is
computed in floating point: the checks of the times that the interface gives in seconds or minutes,
and their conversion to whole nanoseconds and milliseconds.

- `src/` is the library `discord_rec`, verified with Verus.
  - `service`, `service_laws`: the watch over the voice state, from one step to the next.
  - `pw`, `win`, `voice`, `x11`, `mics`, `portal`: what is read of Discord and of the system.
  - `recorder`, `encoder`, `process`: the recording pipeline and its process.
  - `convert`, `clip`: conversion to MP4, and cutting.
  - `retention`, `recordings`, `naming`, `names`, `paths`: the files in the output directory.
  - `config`, `updates`, `appimage`, `instance`, `platform`: settings and installation.
  - `tokens`, `words`, `pipeline_laws`: argument lists, and what holds of all of them.
  - `text`, `scan`, `lossy`, `json`: texts, raw output, and JSON.
- `app/` is the application: the window, the processes, the pipelines that run in it, the files.
- `tests/` runs the library.

Three things are taken on trust from outside: how `serde_json` reads an array, what a
`serde_json::Value` holds, and the form in which `chrono` writes the local time. Of the standard
library, that `String::push` appends a character, that `String::from_utf8_lossy` decodes what is
UTF-8 and goes by its argument alone, and that `String::from_utf16_lossy` decodes UTF-16. Each
stands with its contract beside it.
