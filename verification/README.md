# naxone

The verified core of a Windows manager for local PHP development
environments (Nginx or Apache, PHP-CGI, MySQL, Redis, virtual hosts).

- `src/` is the library, written in Verus, and every function in it is
  verified against its contract: configuration-file editing, virtual host
  validation and rendering, hosts-file edits, service discovery and start
  order, package installation checks and archive layout, `PATH` handling,
  log tails and more. `src/config_laws.rs` proves that saving the Nginx,
  MySQL, Redis or php.ini settings and reading the file back gives the
  saved settings back, and, for Nginx and MySQL, that the lines naming no
  saved setting keep their text. The multi-step operations (installing a package, stopping a
  service, writing a virtual host with its rollback) are step functions
  that `app/` drives. Calls into
  `sha2`, `zip`, `rcgen`, `time`, `chrono` and `serde_json` go through a
  few small trusted wrappers whose doc comments say what is assumed.
- `tests/` runs the library on concrete inputs.
- `app/` is a thin command-line program around the library: it reads and
  writes files, runs Windows tools and prints results.
