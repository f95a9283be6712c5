# rubiks_solver

A verified model of an N×N×N Rubik's cube (N = `config::SIZE` = 4) and a
depth-first solver, written in Verus.

- `side`: one face (`Side`), its rows and columns, and quarter turns of a face.
- `cube`: the six faces (`Sides`), their view as stickers indexed by face,
  row and column, the picture of a cube as text and back.
  - `cube::rot`: moves (`Item`), `process` and the three kinds of layer turn.
    Each move is specified as a permutation of sticker positions (`source`).
  - `cube::laws`: a move followed by its reverse, or four times the same move,
    changes nothing; moves around the same axis commute.
- `tree`: the search (`explore`), proved to report only true solutions and
  always a shortest one within the depth bound; `tree::shortest` holds the
  proof that pruning never loses a shortest solution.
- `indent`: the sample block of the indentation tokenizer.
- `app/`: the tokenizer's program, which prints that block.
