# maurobot

A Discord bot that runs games of *lupus* (werewolf), with the game logic
written in Verus and proved against its contracts.

- `src/` — the verified library:
  - `roles.rs`: the roles, how the seer sees them, the night actions;
  - `player.rs`: a player and the three kinds of killing;
  - `game.rs`: one game — joining, the kill chains through Dorian Grey's
    pictures, the resolution of a night, the end of the game;
  - `context.rs`: the manager of all games, users and tags, and the
    handlers of the game's commands;
  - `votes.rs`: yes/no votes and plurality votes;
  - `commands.rs`: which role may use which night command, random numbers;
  - `roles_per_players.rs`, `rng.rs`: dealing the roles at random;
  - `laws.rs`: laws of the game that span several functions;
  - `keyed.rs`: association lists keyed by user or guild id.
- `app/` — the bot itself (serenity commands, Discord messages, the loop that
  drives each game), which calls the library for every decision.
- `tests/` — tests of the library.
