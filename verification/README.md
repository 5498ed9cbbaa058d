# razer-battery-report

Shows the battery level of wireless Razer mice in the Windows system tray: the
icon displays the percentage as a number, coloured by battery state, with a
placeholder while no level is known.

- `src/` is the verified library:
  - `icon`: palettes, the colour role of a reading, the template and colour of
    the icon, and its rendering;
  - `raster`: rasterisation of an SVG document with resvg into a 32x32 icon;
  - `pixels`: premultiplied to straight alpha;
  - `text`: string equality, pattern replacement and decimal formatting;
  - `settings`: the theme preference, its stored form and its resolution;
  - `manager`: matching HID interfaces to supported models, and the
    difference between two enumerations of connected devices;
  - `tray`: device records, notifications, redraw decisions, the device
    table, the polling loop's step, and the menu state.
- `app/` holds the program around it: the tray icon and menu (`tray-icon`,
  `tao`), HID access (`hidapi`), the registry (`winreg`) and logging.
- `tests/` exercises the library on concrete values.
