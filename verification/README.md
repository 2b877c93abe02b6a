# arcropolis_api

Helpers for ARCropolis plugins.

- `src/` is verified with Verus: `hash40` (a string's UTF-8 length above the
  CRC-32 of its bytes, computed with `crc32fast`; `src/crc32.rs` defines which
  CRC that is) and the `Hash40` accessors, `is_api_version` and
  `parse_api_version` for `major.minor` strings, and the small decisions behind
  stream paths, the bytes a stream callback writes back, and file loading.
  Laws about them are proof functions next to the code.
- `app/` holds what talks to the ARCropolis runtime (the exported C symbols),
  the `IntoStreamPath` conversions that touch the filesystem, and the
  attribute expansions written over `proc_macro2` token streams.
- `tests/` runs the library on concrete values.
