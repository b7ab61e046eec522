# nextcloud

A client library for the Nextcloud server APIs — WebDAV files, the OCS APIs
(sharing, provisioning, capabilities, notifications, user status), the
`index.php` image routes and Login Flow v2 — written in Verus.

`src/` holds what each request is and what each answer means: the
multistatus parser, path arithmetic, the forms, queries and headers requests
carry (the fixed OCS headers and `format=json` among them), the OCS envelope
rules, chunked-upload bookkeeping and the login-flow decisions. Every function
there carries a contract that Verus proves, and the laws the library keeps
(normalising is idempotent, share codes round-trip, chunk names sort as their
indices do, ...) are proof functions named `law_*`.

`app/` is the asynchronous HTTP layer on `reqwest` and `tokio` that sends
those requests, plus the serde forms of the library's types.

`tests/` exercises the library on concrete values.
