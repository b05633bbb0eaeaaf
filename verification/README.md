# wordle

A terminal Wordle game whose rules are proved with Verus.

`src/` is the verified library:

- `status`: letter colours and how a keyboard key is raised to the more
  informative colour;
- `word`: five-letter words as alphabet positions and letter counts;
- `feedback`: the colouring of a guess against the answer (greens first,
  misplaced letters yellow while copies of the letter remain), the number of
  a colouring, the colouring histogram behind guess recommendations, and
  keyboard updates;
- `filter`: hard mode and the still-possible words;
- `game`: one game in progress, turn by turn;
- `counter`, `favorites`, `session`: guess counts, the favourite-word list,
  run statistics and the replay of saved games;
- `args`, `config`, `number`: command-line options and configuration;
- `wordlist`, `order`, `text`, `input`, `answers`, `rng`: word files, text
  order and case, input checks, and the dealing of answers.

`app/` holds the program around it: terminal input and output, colours, the
full-screen interface, JSON files, and the entropy of a guess, which is a
floating-point quantity.

Word lists are read from the files given with `--final-set` and
`--acceptable-set`.
