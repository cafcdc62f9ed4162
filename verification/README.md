# quoteme

A speech-to-text tool for the desktop: press a key, speak, and the transcript is
pasted where you are typing. A local Whisper model does the transcribing.

What the program decides and computes is a library whose behaviour is stated in
contracts and proved with [Verus](https://github.com/verus-lang/verus). What
touches the outside world (microphone, keyboard, clipboard, files, the model) is
ordinary Rust around it.

- `src/` is the verified library.
- `tests/` runs it on concrete values.
- `app/` is the program: commands, the daemon's threads, the screenshot review.

## The library

| Module | What it is about |
|---|---|
| `config`, `settings` | The settings, their defaults, changing one by name |
| `hotkey`, `listener` | Key combinations, and what pressing and releasing keys means |
| `daemon`, `recorder` | When a recording begins and ends, tapping and holding a shared key |
| `transcription`, `vad` | The model's life cycle, building a transcript from chunks, leaving silence out |
| `history`, `moments` | Past recordings: saving, listing, pruning |
| `screenshot` | Screenshot paths in a transcript, pixels and cursor of a captured window |
| `images`, `replace` | Reviewing and cropping screenshots, replacing a picture without losing it |
| `paste` | The steps of pasting a text |
| `health`, `audio`, `cli`, `pid`, `location` | Checks, microphones, commands, files |
| `text`, `pieces`, `numbers`, `paths`, `sorting` | Characters, cutting and joining, decimals, file names, stable sorting |

Public proof functions named `law_...` state what holds of all inputs: that no
recording is told twice to end, that no screenshot is lost from a transcript,
that pruning leaves no more entries than the limit, and so on.

Calls into other crates stand behind a few functions whose doc comments say what
is taken for granted about them.
