# zapp

Flashing ZSA keyboards (Voyager, Moonlander, Ergodox EZ, Planck EZ), with the
decisions proved in Verus.

- `src/` is the verified library:
  - `device/`: USB identifiers of keyboards and bootloaders, and what the
    bootloader watcher reports;
  - `firmware/`: DFU binaries (suffix scanning, one or two images) and Intel
    HEX texts, read into a `Firmware`;
  - `flash/`: which firmware may go onto which bootloader, and the step lists of
    a DFU session and of a HALFKAY session;
  - `oryx.rs`: Oryx layout URLs, USB serial numbers, and the requests for
    revisions, notes and firmware builds;
  - `text.rs`: white space on UTF-8 bytes, decimal and hexadecimal renderings.
- `app/` is the `zapp` command: USB and HID transfers (nusb, hidapi), HTTP
  (reqwest), files, progress bars and the command line. It runs the sessions
  that the library plans and reports each device answer back to it.
- `tests/` runs the library on concrete inputs.
