# punic

A remote cache for Carthage `.xcframework` builds, kept in an S3 bucket.

- `src/` is the library: reading a Punfile (`punfile`, over the YAML model in
  `yaml`), the local cache and bucket layout (`cache`), and the decisions of a
  run (`utils`: which frameworks to work on, and what to fetch, extract, zip or
  upload). Its functions are verified against their contracts, except a few
  small trusted wrappers around outside crates (`serde_yaml`, `shellexpand`,
  `dirs`), whose contracts are stated and not proved.
- `cache::consistency` proves that, for a framework with a given version, a
  download looks for the archive at the local path and bucket key where an
  upload of that framework stores it; and that the upload of a framework's
  directory finds that framework's version when the framework is the first
  one in the Punfile whose name contains its name (the name holding no `/` or
  `.`).
- `app/` is the command-line program around it: argument parsing, reading the
  Punfile from disk, zip archives, and transfers to and from S3.
- `tests/` runs the library on concrete values.
