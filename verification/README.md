# img_proxy

A personal image proxy for Cloudflare Workers: short URLs for a handful of
images, refreshed from their sources on a schedule and served from KV.

- `src/` is the verified library (Verus): naming rules, refresh decisions,
  failure notices, dashboard markup, form validation, path and cache helpers,
  and the string algorithms they rest on (trimming, replacement, decimal
  formatting, sorting).
- `app/` is the Worker itself: routing, KV access, upstream fetches, the chat
  webhook and JSON encoding. It takes its decisions (authorisation, refresh, fallback,
  validation, markup) from the library and performs the I/O they call for.
- `tests/` runs the library on concrete values.

The dashboard page template (`dashboard.html`) and client script
(`dashboard.js`) are static assets served through the `ASSETS` binding.
