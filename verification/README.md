# indi_rs

A library for the INDI protocol (Instrument Neutral Distributed Interface),
used in astronomy to control devices, written in Verus: its behaviour is
stated in `requires`/`ensures` contracts and proved.

Layout:

- `src/` — the verified library.
  - `property` — permissions, states, switch states and rules with their
    protocol texts, property values and how they are shown, properties.
  - `message` — the protocol messages and, per property kind, the
    definition, new-value and set-value messages; switch-rule validation and
    base64 BLOB encoding.
  - `store` — properties kept by device and by name, viewed as a map.
  - `client` — the client state and how received messages update it, the
    messages a client sends, and the scanner that finds a complete received
    XML message.
  - `server` — the server state and its handling of requests; `reader`
    searches the events quick-xml's reader gives for a request.
  - `format`, `timestamp`, `xml`, `entries`, `strings` — number formats and
    number texts, INDI timestamps, attribute and element extraction from XML
    text, sorted `name=value` lists, character-level helpers.
- `tests/` — tests of the library.
- `app/` — TCP networking, XML serialisation with serde and quick-xml, the
  clock, floating-point number handling and the command-line tools.
