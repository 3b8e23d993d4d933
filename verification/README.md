# latexlings

Small exercises for learning LaTeX in the terminal: broken `.tex` files to
fix, and typesetting assignments whose rendered PDF text is checked.

The decisions of the tool live in a library verified with Verus (`src/`):

- `info` — exercises, the progress record and its file format (saving and
  loading a record gives it back), practice-directory recognition;
- `verify` — the verification procedure as a step function (pdflatex, a
  second pass when references need it, pdftotext and content checks for
  writing assignments, the marker), error excerpts, chktex notes;
- `check_all` — which exercises a sweep can skip because their source is
  unchanged since they were verified done, and collecting job results;
- `dev` — the exercise-author checks and the `dev-new` scaffold;
- `editor` — how an exercise is opened, and editor command lines;
- `cli` — command-line parsing and the lines the commands print;
- `tui`, `screen` — the watch mode's state, its key handling, and what each
  screen shows;
- `text` — character-sequence helpers shared by the others.

`app/` is the program around it: files, processes, threads and the
terminal. `tests/` exercises the library on concrete values.
