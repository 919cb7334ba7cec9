# Gloss

Gloss helps with reading and writing English. Select a text in any app and press the
shortcut; a toolbar appears next to the selection and offers to explain the text
(Triage), to translate it between Chinese and English (Translate) or to correct it
(Correct). After Triage the conversation goes on with questions, with passages to be
explained and with passages that were understood.

The library in `src/` holds what Gloss decides and computes, written in Verus and
proved against its contracts. `app/` is the program around it: windows, shortcuts, the
clipboard and files. `tests/` runs the library.

| Modules | What they hold |
| --- | --- |
| `sessions`, `request`, `prompts` | conversations, and the request for the next answer |
| `history`, `files`, `preview` | how conversations are saved, loaded, listed and deleted |
| `selection`, `copying`, `clipboard` | capturing the selected text |
| `overlay`, `geometry`, `menu` | what is shown, and where |
| `json`, `ids`, `clock`, `text` | values that the other modules share |

Public proof functions state what holds of the library as a whole, for example that a
saved session loads back as it was (for any encoding whose lines decode to the records
that they were made of; the encoding itself is the program's), that a file is replaced as a whole or not at all,
that a clipboard that was preserved is restored, and that closing the action menu
undoes opening it.

Lengths are counted in 1/65536 of a pixel and positions in half of that. Times, identifiers and JSON values come
from `chrono`, `uuid` and `serde_json`; the functions that call these crates say in
their doc comments what is relied on.
