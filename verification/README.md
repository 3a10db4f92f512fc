# grideye_terminal

A terminal dashboard for 8x8 thermal sensors ("grid eye") that publish their
readings over MQTT. The sensors send 64 big-endian 32-bit temperatures per
message under topics such as `/grid_eye/queen/<device id>`; the dashboard
shows one tab per device with its heat map, extremes and alarms, a tab with
all heat maps, a colour table and a log of the broker's text messages.

Layout:

- `src/` is the library, verified with Verus:
  - `app.rs`: tabs, the selected position, and what each key press does;
  - `ui.rs`: the screen's broker-fed pages and their tabs, which page a tab
    shows, device statuses;
  - `mqtt.rs`: topic building and splitting, classification of incoming
    publications, payload framing, the common log;
  - `run.rs`: the pages fed by the broker and their tabs;
  - `config.rs`: settings, the clock and random ids;
  - `text.rs`: splitting, joining and searching strings.
- `app/` is the program around it: the broker connection and its threads,
  the keyboard and terminal, temperatures (floating point) and drawing.
- `tests/` exercises the library on concrete values.
