# tenki

An animated terminal weather app: it finds you by IP or takes the place you pick, pulls
the current conditions from Open-Meteo, and fills the terminal with pastel waves, rain,
snow and a big block-font temperature.

The crate is in two parts.

- `src/` is the library, verified with Verus: the app's state machine (keys, background
  news, the location picker, the status bar), the command line, the remembered-location
  file format (with a proof that what is written reads back), the geocoder and IP-service
  answers, the block font and its ink bounds, the hero's placement, the picker's lines,
  particle counts and the refresh loop's choice of place. Measured values and coordinates
  travel through it as IEEE-754 bit patterns or as the number text the user typed.
- `app/` is the program around it: the terminal, the event loop, HTTP and JSON, the
  config file on disk, and everything drawn with floating-point colour and motion.

`tests/` exercises the library from outside.
