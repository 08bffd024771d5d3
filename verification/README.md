# asciiquarium

A terminal aquarium: fish school and wander, bubbles rise, seaweed sways,
food flakes sink when you click, a harpoon mode lets you spear fish, and a
cat mode frames the tank in a living room where a cat on the couch watches
it.

- `src/` is the library, verified with Verus: the renderer's double buffer,
  viewport clipping and frame diff (with proofs that a flush shows exactly
  the drawn frame and prints exactly the changed cells), the command line,
  the tank layout and its laws, click mapping, the flake pool, the fish
  grid, and every drawing of the sea floor, room, frame, couch, cat, banner
  and HUD, each specified cell by cell.
- `tests/` runs the library on concrete frames.
- `app/` is the program around it: terminal setup and the event loop with
  crossterm, and the floating-point motion of the creatures.

Run with `--fish N` (1 to 200, default 24).  Keys: `q` quits, `c` toggles
cat mode, `h` toggles harpoon mode; a left click drops food or fires the
harpoon.
