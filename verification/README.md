# artifacts_bot

A bot for the ArtifactsMMO game. Each character is driven by a behavior: a
state machine that walks to a place, fights, gathers, crafts, and empties its
inventory at the bank.

- `src/` is the library, verified with Verus. It holds the game model
  (`characters`, `shared`, `errors`, `time`, `api`), the protocol between a
  behavior and the game (`effects`), and the behaviors (`behaviors/`). One
  step of a behavior is a function of its state, the character, the current
  instant and the replies to the actions requested so far in the step; its
  contract is a spec function of the same inputs, and proof functions next to
  each behavior state what every step guarantees (it waits during a cooldown,
  it asks for a bounded number of actions, it deposits whole stacks, ...).
- `app/` is the program: it reads the characters over HTTP, performs the
  actions that the behaviors ask for, and loops.
- `tests/` runs the library on concrete characters and replies.
