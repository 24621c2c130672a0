# ddb — Device Debug Bridge, verified core

`ddb` drives Android devices for QA work: device enrolment and wireless
reconnection, touch and key input, UI inspection, semantic extraction from
an in-app agent, scroll-capture composites, and YAML test cases run step by
step against the device.

## Layout

- `src/` — the library, verified with Verus. Every decision the tool takes
  stands here with its contract: the device registry and its resolution,
  adb argument lists and outcomes, the parsers of uiautomator dumps, agent
  YAML and JSON answers, Android resource files and test-case files, the
  element searches, test-case time budgets, fixture interpolation, the
  crawl and calibration logic, and the scroll-capture overlap search and
  strip placement. Laws that span several calls are public proof
  functions whose names begin with `law_`.
- `app/` — the command-line program around the library: argument handling,
  subprocesses (`adb`, `curl`, `scrcpy`), files, threads and sleeps, and
  the few computations on floating-point numbers (fuzzy text similarity,
  screen density, image stitching). It tests the library's preconditions
  before each call.
- `tests/` — tests of the library on concrete values.

## Outside crates

quick_xml (XML events and entity decoding), serde_json (reading JSON
answers by JSON pointer) and chrono (dates) are called from `src/` through
small trusted wrappers, whose contracts state what their sources show.
serde_yaml's `Value` type is declared for the catalogue. clap, dirs, image,
serde, toml and walkdir are used by `app/`.

## Verification

Verus verifies `src/`; the tests under `tests/` exercise the compiled library.
