# jetlag_core

The core of Jetlag DNS Manager: the built-in DNS provider registry, custom
providers and address validation, the shared data models, and the decisions
behind changing a desktop machine's DNS servers, written in Verus and proved
against their contracts.

- `src/` is the verified library.
  - `models.rs`: providers, interfaces, state, change results, errors.
  - `providers.rs`, `ip.rs`: the registry, lookup, custom providers, and the
    IPv4/IPv6 text grammars that addresses are validated against.
  - `text.rs`: lines, trimming, splitting, words and number parsing, with the
    definitions the parsers are stated over.
  - `command.rs`: the commands to run and what a finished one left.
  - `platform_linux.rs`, `platform_macos.rs`, `platform_windows.rs`: what to
    run on each desktop platform, in which order (where the interface comes
    from, the first step once it is known, and what follows a success or a
    failure), and what its output means.
  - `api/dns.rs`: the operations offered to the Flutter side.
- `app/` spawns the processes the library names, in the order it gives,
  picks the platform, logs, and holds the serializable copies of the models
  and the flutter_rust_bridge entry points.
- `tests/` runs the library on concrete inputs.
