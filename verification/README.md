# omniget

The decisions behind a download manager, written in Verus: which site a link
belongs to and what it points at, how a file is fetched in segments, how the
files of a cloud share are found and queued, and how login cookies are read out
of a browser's store.

* `src/` is the library. Every function states in its contract what it returns,
  and every law of the library is a proof function named `law_…`.
  * `text`, `json`, `link`, `filename`, `media`, `clock`: values and their
    vocabulary.
  * `platforms`, `url_parser`: sites and links.
  * `http_fetcher`: plans, segments, transfers, retries, resuming; `run` has
    what holds of a whole download, however its workers take turns.
  * `browser_cookies`, `cookie_laws`: cookies and the header that carries them.
  * `platforms::quark`, `platforms::bilibili`: two sites in depth.
  * `commands`: what the user interface asks for.
* `tests/` runs the library on concrete values, with the outside crates linked.
* `app/` is ordinary Rust around the library: network, files, other programs,
  and the traits through which the desktop shell is reached.

What is taken on trust is marked `external_body` or `assume_specification`. The
comment above each such item names the outside function and says what is
claimed of it.
