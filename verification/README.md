# urlcode

Percent-encoding and percent-decoding of arbitrary bytes, verified with Verus.

- `src/charset.rs`: `AsciiCharset`, a set of ASCII characters kept as a 128-bit mask, with the
  WHATWG URL percent-encode sets; its contracts speak of the set of bytes it holds.
- `src/hex.rs`: hex digits of bytes.
- `src/codec.rs`: what percent-encoding and percent-decoding make of a byte string, and the
  laws that relate them (decoding undoes encoding when `%` is encoded).
- `src/preset.rs`: `Preset`, a charset with the space-as-plus and ascii-only flags, and its
  `encode_into` and `decode_into`.
- `src/cli.rs`: the command line of the `urlcode` tool, read with `lexopt`: the preset
  (default `urlencoded`), `-e`/`-u` to mark and unmark characters, `-s`/`-S`, `--ascii-only`.
- `src/command.rs`: what the tool writes for its input, with the preset that the command line
  builds.
- `app/main.rs`: the program itself: command line, stdin and stdout.
