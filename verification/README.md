# backend

The verified core of a small web service with accounts, a live messenger and
downloadable packs. `src/` holds the logic with Verus contracts; `app/` is the
Rocket server around it (routes, request guards, database access, files,
templates, the message poller).

- `src/text.rs`: decimal and hexadecimal rendering, string helpers, and the
  line splitting used for the access-token list.
- `src/crypto.rs`: the calls into argon2, sha2, aes-gcm and rand, and the
  start-up self-checks built on them.
- `src/rsa_keys.rs`: generated RSA key pairs, held as PKCS#8 DER, with
  the PKCS#1 v1.5 encryption and decryption calls.
- `src/auth.rs`: account rules, session tokens, login and signup decisions,
  request guards.
- `src/routes/`: the account guard, message shaping and the list of live
  connections, pack discovery.
- `src/site.rs`: fixed pages and the start-up flag.
