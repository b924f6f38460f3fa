# bobby_carrot

The game logic of Bobby Carrot, verified with Verus.

- `src/tile.rs`: tile codes, how tiles change when Bobby leaves them or
  presses a switch, and the laws of the switches.
- `src/bobby.rs`: Bobby's state, his moves on the 16 x 16 grid, and the
  sprite drawn at each frame.
- `src/level.rs`: level names (`normal-3`), level file names, the tiles
  of a level file, and the scan of a level's tiles.
- `src/game.rs`: one game of a level, key press by key press and frame by
  frame.
- `app/main.rs`: the SDL2 window, input, file reading and drawing.
