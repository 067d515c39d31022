# preprintd

Printer swarm worker for PreConnect: it listens on the printer event stream,
claims print jobs, decrypts them and hands them to an LPR server.

- `src/` is the verified library (Verus): job decryption (`crypto`), the LPR
  hand-off sequence (`lpr`, `job`), the DNS-over-HTTPS answer cache and the
  ECH configuration lookup (`doh`), the connection deadline (`connect`),
  white-space text handling (`text`), the IPv4 and IPv6 address text forms
  (`ip`), the worker identity (`ident`), and the worker's bookkeeping rules
  (`worker`). The calls into `sha2`, `base64`, `rand`, `uuid` and `rustls` are in
  `primitives`.
- `app/` is the daemon around it: environment, HTTP, sockets, D-Bus, threads.
- `tests/` exercises the library on concrete values.
