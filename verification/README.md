# validate_pgp_server

A TLS server that admits clients by certificate (self-signature or SHA-1
thumbprint), reads a request `HEADER;ARMOURED-PGP-MESSAGE\r\n\r\n`, decrypts the
message with a configured password and answers with the decrypted JSON license
when it names an organisation, an organisation key and a client key.

- `src/` is the library, verified with Verus: configuration, admission policy,
  request parsing and checks, and the decision on the decrypted document.
- `app/` is the program: command line, configuration file, TLS listener,
  PGP decryption, signals and logging.
- `tests/` runs the library on concrete inputs.
