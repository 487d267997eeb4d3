# yuexu

月序 (YueXu) draws a full-year lunar desktop calendar as a Windows wallpaper:
twelve month cards with the Chinese lunar day under each date, today
highlighted, in one of six built-in color themes or a custom palette.

The library in `src/` holds the program's logic with Verus contracts:

- `theme` – built-in and custom themes, palettes and their validation;
- `layout` – the wallpaper margins and their supported ranges;
- `date`, `lunar` – calendar dates (through chrono) and lunar labels
  (through lunar_rust);
- `calendar` – what each month card shows: cell positions, colors, labels,
  the footer caption, XML escaping;
- `cli` – the command line (including theme export and import), theme
  resolution and the checks on render requests;
- `ui` – the settings window's state, its click and drag handling, slider
  arithmetic and color conversions;
- `text` – strings, decimal digits and integer parsing.

`app/` is the program around it: reading the clock, the display size, the
settings and theme files and the command line, placing the cards with
floating-point geometry, rendering the SVG to PNG with resvg and calling
Windows to set the wallpaper or show a preview image.
