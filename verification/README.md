# Rouge

A small roguelike, "Rouge World", and the English sentence builder it uses
to tell the player what happens.

- `src/` is the `rouge` library, verified with Verus: the map generator and
  its walls, exploring and path steps, the camera, energy and turn order,
  fighting, items and the backpack, the menus' answers to keys, the game's
  turn cycle as a state machine, and `langgen`, which queues sentence
  fragments and renders them into finished English lines.
- `app/` is the program around it: the window and the keyboard
  (bracket-lib), the entities (legion), drawing, and saving (serde and
  bincode).
- `tests/` runs the library on concrete values.
