# arch_hotspot

A desktop tool for Arch Linux that starts, stops and reconfigures a Wi-Fi
hotspot through NetworkManager, shows the devices connected to it, and shows
a QR code that phones scan to join the network.

The library under `src/` is verified with Verus:

- `text`: lines, `:`-separated fields, whitespace-separated words and trimming,
  specified as `str::lines`, `str::split`, `str::split_whitespace` and
  `str::trim` behave.
- `network`: what the tool reads from `nmcli`, `ip` and `/proc/net/arp`
  (Wi-Fi interface, whether the hotspot is up, its SSID and passphrase, the
  gateway address, the connected devices).
- `hotspot`: the `nmcli` command sequences that start, stop and reconfigure
  the hotspot, as steps driven by the outcome of each command.
- `qr`: the `WIFI:S:<ssid>;T:WPA;P:<key>;;` payload with its escaping, the QR
  symbol made by the `qrcode` crate and its RGB raster with a quiet zone.
- `dashboard`: what each message of the window changes, the device table, the
  activity log and its clock.

`app/` holds the FLTK window and the code that runs the commands and reads the
files, and hands what it reads to the library.
