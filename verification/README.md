# asteroids

The rules of an Asteroids game, verified with Verus.

`src/` is the library. Its `domain` module holds everything discrete about a
game: spans of time (`time`), the score, wave number and lives (`counters`),
the weapon's cooldown (`weapon`), the ship's life cycle (`ship`), bullets and
their lifetimes (`bullet`), asteroid size classes and how they split
(`asteroid`), the player (`player`), a live session with its frame update,
hit resolution and wave progression (`session`), and the top-level game with
its game-over screen (`game`). Positions, velocities and headings are
floating-point values that the library never inspects: it keeps them as
opaque bodies and asks an implementation of `physics::Physics` to move them,
test them for contact and create new ones. Every contract holds whatever that
implementation answers.

`app/` is the window: the floating-point kinematics (`app/kinematics.rs`,
with `glam` vectors and `rand` for new asteroids), keyboard input and drawing
with `raylib`.

`tests/` runs the library with a kinematics of its own.
