# ticket_api

A small tickets web service. The logic lives in the verified library under `src/`:

- `appctx` — the request context (the user a request runs for).
- `error` — the service's errors, their names and text, and the status and client
  error that a client is shown for each.
- `model` — the ticket store: create, list, delete, with the laws that relate them.
- `web::middleware_auth` — the authentication token format `user-<id>.<exp>.<sig>`
  and the decisions of the resolver and the route guard.
- `web::routes_login`, `web::hello`, `web::response_mapper` — the login check, the
  hello page and the mapping of service errors to client responses.
- `log` — the request log line.

`app/` is the axum server around it: routing, cookies, middleware, JSON and the
shared, locked store.
