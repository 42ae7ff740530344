# vmix_plugin

A Stream Deck plugin that drives one or more vMix instances over the vMix TCP API
(port 8099). The library in `src/` holds the plugin's logic, verified with Verus:

- `numbering`: the three ways vMix numbers a mix (UI/ACTS, TCP `Mix=`, XML index).
- `config`: configured instances and groups, and which instances a key targets.
- `cache`: the per-instance cache of activator (ACTS) updates and XML snapshots.
- `pool`: the supervisor's decisions: reconcile plans, backoff, startup requests,
  status rows, raw command payloads.
- `contracts`: the settings shared with the property inspector.
- `kind`, `ops`: what each key kind sends, shows and titles.
- `render`: segment states, the hardware on/off state, the SVG pieces of key images.
- `state`: the runtime's decisions: targets, key faces, presses, provisional
  connections before saved settings arrive, first-launch seeding.
- `text`, `url`: string helpers and percent-encoding.

`app/` is the program around it: the Stream Deck connection, the TCP sessions
(threads and tokio), JSON settings, and the floating-point parts (volume
fractions, key-image geometry).
