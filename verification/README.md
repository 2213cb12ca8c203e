# pioneer_converter

Converts a music library into the formats that Pioneer DJ players read:
FLAC 24-bit/96 kHz (flagship), AIFF 24-bit/48 kHz (standard) and
WAV 16-bit/44.1 kHz (legacy, universal).

Those containers are written by the ffmpeg engine, which runs when an
ffmpeg binary has been placed in the temporary folder (none is bundled).
The built-in pure-Rust engine writes WAV data at the tier's rate and bit
depth for every tier, whatever the tier's container.

- `src/` is the verified library: the tiers (`profile`), the quality check
  (`quality`), the plan and sample bookkeeping of a conversion (`conversion`),
  the ffmpeg command line and the parsers of its output (`ffmpeg`), the batch
  settings (`settings`) and the character helpers they share (`text`).
- `app/` is the program: prompts, file walking, decoding, resampling and
  writing, progress display.
- `tests/` runs the library on concrete values.
