# print-util

A local HTTP service for Windows and Unix that prints PDF files without a dialog and speaks
Vietnamese text. The logic is a Verus library; what it does is stated in contracts and proved.

- `src/` is the library: forms and their checks, paper sizes, the order and the arguments of the
  print engines, voices and their files, the pronunciation dictionary, speech tokens, WAV files,
  UTF-16 text, the tray menu.
- `tests/` runs the library on concrete values.
- `app/` is the program around it: the server, the engines, the models, the sound library, the
  service and the icon in the tray. Arithmetic on floating-point samples stands there too; the
  library holds such numbers by their bits.

What the library takes from outside crates without proof is declared where it is used, each time
with a comment that says what is claimed: regular expressions (`patterns.rs`), WAV writing
(`wav.rs`), JSON (`json.rs`), random identifiers (`print_job.rs`), the number of cores
(`config.rs`), and a few functions of the standard library (`text.rs`, `unicode.rs`).

## Printing

`POST /print` prints the `file` of a form on the paper that the first `/MediaBox` of the file asks
for: A5 if its sides are within five points of an A5 page, upright or on its side, and otherwise
A4. `POST /print/a4` and `POST /print/a5` force the size. SumatraPDF, Ghostscript and `lp` get the
size in their arguments; for Acrobat and the program of the system it is set on the printer for the
time of the job. A printer that does not take the setting prints on its own paper. `GET /printers` lists the printers and
`GET /health` answers while the server runs. The server listens on `127.0.0.1`, port 17474 unless
the first argument or the variable `PORT` gives another.

## Speech

`POST /v1/audio/speech` answers a text with a WAV file. `GET /v1/voices` lists the voices,
`POST /v1/voices` adds one from a sample, and `DELETE /v1/voices/{id}` removes one that was added.
