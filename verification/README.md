# OIDC token validator for PostgreSQL

An OAuth validator module that checks JWT bearer tokens against the keys of an OpenID Connect
issuer. The subject of a valid token (its `sub` claim) is the authenticated identity.

- `src/` is the library, verified with Verus: the validation slots and the work queue through which
  backends and the background worker talk, the cache of the issuer's keys, the validation of a
  token, and the validation callback. Calls into `jsonwebtoken` and a few functions of the standard
  library are taken on trust; their contracts stand in `src/jwt.rs`, `src/text.rs` and
  `src/jwks.rs`.
- `app/` is the extension around it: shared memory, locks and latches, the worker process, HTTP and
  JSON.
- `tests/` runs the library on concrete values.

## Configuration

```
shared_preload_libraries = 'oidc_validator'
pg_oidc_validator.issuer_url = 'https://your-oidc-provider.com'
```

The issuer's keys are fetched at startup, and again when a token names a key that is not among them,
but not within a minute of the last time that this succeeded.
