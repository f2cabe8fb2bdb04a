# kconfq

Query the configuration of the running Linux kernel (`/boot/config-*` or
`/proc/config.gz`): locate the config file and look entries up in it.

- `src/` is the verified library: the config-line grammar (`entry`), entry
  lookup (`lookup`) with its laws (`laws`), string helpers (`text`), the
  config's location and gzip check (`config`), the error types (`error`) and
  the status codes of the C interface (`capi`).
- `app/` is the command line tool and the C interface: file and stream
  reading, argument parsing and raw pointers.
