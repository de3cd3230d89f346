# ek_single_mic

A desktop program that learns one speaker's voice in a guided enrollment and
filters a microphone so that mainly this speaker is heard.

- `src/` is the library. Everything in it is verified with Verus: the steps of the
  enrollment, the state of the program, taking stock of recordings, judging their
  quality, building the profile, framing and gain decisions of the filter, the
  links between audio streams, and what the pages say.
- `app/` is the program around it: streams, files, windows, threads and all
  floating-point arithmetic. Floating-point values pass through the library by
  their bits (`util::float32`), where they are ordered but not computed with.
- `tests/` runs the library on concrete values.

`rtrb`, `hound` and `time` are called from the library through small wrappers;
what is relied on is stated at each of them (`audio::ring`, `profile::wav`,
`util::time`).
