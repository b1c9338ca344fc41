# niri_bar

A quick-settings panel for the niri Wayland compositor, with a small device
daemon (`deviced`) that answers the panel's questions about Wi-Fi, Bluetooth
and audio outputs over a Unix socket.

## Layout

- `src/` is the verified library. Each executable function carries a
  `requires`/`ensures` contract over spec functions and views, proved by Verus:
  - `text` – string helpers (trimming, searching, line splitting, decimal
    parsing) with their mathematical definitions;
  - `search` – the first element of a sequence that meets a predicate;
  - `services::audio` – parsing of `wpctl status`, Bluetooth filter-node ids,
    output name shortening;
  - `services::network` – access points to Wi-Fi networks: merging by name,
    ordering by signal strength;
  - `services::bluetooth`, `services::deviced`, `services::device_client` –
    device records, daemon requests and responses, the socket path;
  - `services::power` – which command each power action runs;
  - `state`, `ipc::niri` – the panel state, how each compositor message
    changes it, and the bar's texts (window titles cut at 60 characters);
  - `ui` – what the panel shows: battery, brightness, power profile, the
    Wi-Fi, Bluetooth and Warp tiles, signal icons, the device lists and their
    footers;
  - `utils::time` – the clock text, `HH:MM  Day Mon DD`.
- `tests/` runs the library on concrete inputs.
- `app/` is the program around it: GTK widgets, D-Bus calls to NetworkManager
  and BlueZ, child processes (`wpctl`, `upower`, `playerctl`, `systemctl`,
  `warp-cli`), the socket server and client, and JSON on the wire.
