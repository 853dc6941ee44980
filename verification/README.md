# karyll

The logic of a writing app for e-readers with a Bluetooth keyboard, written and proved
in Verus: what a key means, what an input method makes of it, which surface is on the
screen, what each line and button does, and how settings and places are written down
and read back.

- `src/` is the library. Every function says in its contract what it returns or
  changes; where the engine of an input method decides, it says what the engine is told
  and what becomes of each answer. The laws that hold across functions stand beside them as
  public proof functions.
- `tests/` runs it from outside, on concrete values.
- `app/` is the program around it: files, devices, the Bluetooth daemon, the predictor
  plugins of the firmware, the text as plain characters with the search through it, and
  a screen of plain lines. What the text, the search and the screen say is given to the
  library, which decides what becomes of it.

## Modules

| Modules | What they hold |
| --- | --- |
| `keymap`, `language`, `script`, `orientation` | keys, modifiers, input sources, which way up |
| `ime`, `hangul`, `composition` | input methods, Hangul syllables, the word under way |
| `editor`, `session`, `screen` | what a key does on each surface, and what is drawn |
| `panel`, `strip`, `config`, `files`, `help`, `find`, `edits`, `gesture` | the surfaces themselves |
| `font`, `faces` | families, slots, and the face that draws a character |
| `hid`, `pairing` | the daemon's answers, scanning and pairing |
| `evdev`, `pen`, `power`, `osk` | events, contacts, sleep, the on-screen keyboard |
| `maps`, `plugin`, `lexicon`, `hyphen` | what is learned of a plugin, word lists, dictionaries |
| `settings`, `positions`, `text` | what is written down, and texts as sequences of characters |

## What is taken on trust

`ab_glyph` reads a font and says which characters it draws (`faces`); the standard
library pushes and pops characters of a `String`, makes a `char` of a number, and reads
a number in the machine's own byte order (`text`, `ime`, `hangul`, `evdev`). Each stands
in one small function or declaration with its contract above it.
