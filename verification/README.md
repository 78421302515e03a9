# loadboard

The verified core of a multi-tenant load board web service (an axum server
over PostgreSQL). `src/` is the library, checked by Verus; `app/` is the
server around it: routing, middleware plumbing, database queries, reading the
environment and printing.

- `headers`: the request headers the service reads, and reading a header value
  as text (visible ASCII only).
- `text`: decimal text of integers and the port-number reader.
- `helper`: the request's `scheme://host` and the tenant schema statement.
- `base`: page URLs, page windows and the `next` / `previous` links.
- `middleware`: bearer-token framing and payload decoding; the tenant's domain.
- `api`: the users, tenants, the loads query text and the mail webhook.
- `utils`: the service's settings.
