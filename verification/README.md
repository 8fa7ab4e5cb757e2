# actix_settings

Settings for an actix-web server, kept in a `Server.toml` file, with every
setting's text grammar, the reading of the file's tables, the overriding of
settings from text, and the server configuration derived from the settings
proved with Verus.

- `src/` is the verified library:
  - `text.rs`: characters, trimming, and decimal integers as the standard
    library reads them;
  - `parse.rs`: the `Parse` trait and its impls for booleans, integers and
    strings;
  - `actix.rs`, `address.rs`: the `[actix]` settings and the grammars of
    their values (`default`, counts, `N seconds`, `N milliseconds`, address
    lists);
  - `document.rs`: the TOML document, read through the `toml` crate, with a
    model of its contents;
  - `settings.rs`: `BasicSettings`, reading it from a TOML document, and
    overriding fields;
  - `server.rs`: the calls an `HttpServer` is given from the settings, in
    order;
  - `template.rs`: the default `Server.toml`;
  - `laws.rs`: properties that relate the writing of values to their reading.
- `app/lib.rs` holds what touches files, the environment and actix-web:
  reading and creating `Server.toml`, reading environment variables, and
  applying the settings to an `HttpServer`.
- `tests/` holds the tests.
