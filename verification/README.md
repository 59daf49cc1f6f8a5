# cce-browser

A small web browser's chrome: tabs, an address bar that folds away, bookmarks, favorites, history,
downloads, internal `cce://` pages, saved logins, prompts and menus, over either of two engines.

`src/` is the browser without the outside world, verified with Verus. It holds the whole state, and
every event is a function from that state to the next: a key, a button, a move of the pointer, a
report of the engine. What has to happen outside is left in the outbox as a list of actions.

- `browser/` is the chrome itself. Each event's effect is a spec function on `AppView`; `laws.rs` and
  the ends of the other files state what holds of all of them, and `scene.rs` says what is shown.
- `webview.rs` and `wpe/host.rs` are the two engines' books: tabs, frames, dialogs, challenges.
- `pages.rs`, `downloads.rs`, `transfers.rs` and `protocol.rs` are the stores and their pages;
  `store.rs` and `session.rs` are their files.
- `accounts.rs` and `wpe/formwatch.rs` decide which login goes into which form.
- `weburl.rs`, `address.rs` and `instance.rs` read addresses, typed text and launches.
- The rest are texts, numbers and places: `text.rs`, `split.rs`, `positions.rs`, `numerals.rs`,
  `sizes.rs`, `lineedit.rs`, `labels.rs`, `html.rs`.

`app/` performs the actions: windows, painting, geometry, files, sockets, the keyring and the
engines. `tests/` run the library on concrete values.
