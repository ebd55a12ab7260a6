# C4D plugin compiler

Builds Cinema 4D C++ plugins against the Maxon SDKs: it finds or downloads
the SDK of each requested Cinema 4D version, configures and builds the
plugin with CMake (or the legacy project generator and Xcode), and packages
the binaries with their resources, per version or merged, optionally zipped.

- `src/` is the library, verified with Verus. It decides everything: which
  SDK serves a version, what the setup checklist says, how a build proceeds
  (as a step machine: state and event in, next state and action out), how
  packages are named and laid out, how jobs are recorded. It reads the file
  system through a listing (`fs::FsSnapshot`), and parses JSON texts with
  `serde_json` into its own value type (`json::JsonValue`).
- `app/` is the command line around it: it lists folders, runs programs,
  downloads and unpacks archives, reads and writes files, and prints JSON.
- `tests/` exercises the library on concrete inputs.
