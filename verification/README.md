# u8gg

Logic of a small ESP32-C3 firmware with a 128x64 SSD1306 OLED and four
keys: an animated menu, a button test, a Wi-Fi QR code, manual Wi-Fi entry,
soft-AP provisioning state and a TCP toast server.

- `src/` is the library, verified with Verus: the frame buffer
  (`canvas`), label widths (`text`), animation clocks (`anim`), the menu
  engine and its properties (`menu`, `menu_laws`), the screens' view model
  and its properties (`viewmodel`, `viewmodel_laws`), widget layout and QR
  placement (`ui`), QR matrices (`qrcode`, built by `embedded-qr`), Wi-Fi
  status decisions (`wifi`), the toast mailbox and message cleaning
  (`net`), provisioning state (`provision`) and UTF-8 decoding
  (`utf8text`).
- `app/` is the firmware around it: eased float animations, drawing with
  `embedded-graphics` and `u8g2-fonts`, the display, keys and Wi-Fi through
  `esp-idf-svc`, and the `smoltcp` server.
- `tests/` exercises the library.
