# captcha_gate

A small web portal guarded by an arithmetic captcha, with its decisions
verified in Verus.

- `src/` is the verified library: the session table (`session`), the pages'
  answers (`pages`, `captcha`), the text they are made of (`text`), the log
  lines (`logging`), the shape of an answer (`reply`) and the properties that
  span several operations (`laws`).
- `app/` is the actix-web server around it: routing, cookies, the clock, the
  lock around the session table and printing.
- The server reads its page templates at start-up from `static/captcha.html`,
  `static/login.html` and `static/404.html`.
