# sonorant

The model behind Sonorant, a spectrum analyser and spectrogram, written in Verus and
proved against its contracts.

- `src/` is the verified library: the names of every analysis and display option, the
  palettes' names, colours and themes, the switches and fixed choices the menu flips,
  the menu tree with its key lookup and help search, what a preset sets among the
  switches and choices, the now-playing clock and what MPRIS and SMTC players report, the audio graph a
  capture is measured through, WAV headers, the store's file names and listings, the
  reader of Nostalgia+'s `Key=Value` files with their renamed keys, where the settings
  folder is, what a menu command does to the settings and the session, and the
  arithmetic of the capture ring.
  Laws that span several functions are public proof functions named `lemma_*`.
- `app/` is ordinary Rust around it: the settings with their floating-point numbers and
  their TOML files, the signal processing and the analysis thread, the palettes' colour
  tables, now playing from MPRIS and holding the screen awake over D-Bus, setting and
  stepping the menu's numbers and the numbers a preset sets, artwork loading and WAV
  decoding.
- `tests/` runs the library on concrete values.
