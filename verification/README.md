# modal_orbit

Plays all seven Western modes on a circular chromatic walk of roots (up from C to B,
back down to C#), each scale as a 14-note circular pattern repeated three times, with
a harmony voice that moves one step along the circle of fifths, relative to the
scale's root, every twelve notes.

- `src/` is the verified library (Verus): the note and mode tables, scale
  generation, and the playback state machine, with its schedule proved.
- `app/main.rs` is the program around it: it computes sample counts and
  frequencies in floating point, prints the announcements, and synthesises the
  two sine voices through `cpal`.
- `tests/` exercises the library on concrete values.
