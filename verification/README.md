# foobar_dsp_host

The parent side of a worker process that hosts foobar2000 DSP components, and of the lab that puts
such components into a rack and plays a track through them. It is written in Verus: what each
function returns or changes is stated in its contract and proved.

- `src/` is the library. It makes the bytes of each request to a worker and reads the bytes of each
  answer as they arrive; it decides what the lab does next. It performs no I/O itself.
  - `worker`, `protocol`, `frame`, `bytes`, `tags`, `error`: a session and its wire format.
  - `worker_side`, `session_laws`: how a worker reads requests, and what holds of every session.
  - `engine`, `chain`, `output`, `rack`, `streaming`, `selftest`, `shot`, `status`, `args`, `choice`: the
    lab's decisions, with `engine_laws` and `rack_laws`.
  - `playback`, `decode`, `resample`, `wav`: which samples go where.
  - `pe`, `files`, `components`, `text`: components, their companions and their names.
  - `png`, `png_reader`, `checksum`: pictures of the rack.
- `app/` is the program around it: processes and pipes, files, the audio device, the window, and
  everything in floating point.
- `tests/` runs the library on concrete values.

Audio samples are `f32`. The library carries them as their bit patterns, in `u32`, and never
computes with them.

Three things are taken on trust: that `String::from_utf8` decodes UTF-8, that `str::to_lowercase`
depends on nothing but its text, and that a `PathBuf` can be carried unread.
