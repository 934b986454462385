# net_tank

A small networked tank game. The verified library (`src/`) holds its rules:

- `input_jogador`: the five keys of a player packed in one byte;
- `temporizador`: countdown timers (run through the `rusty_time` crate);
- `jogador`: a player's state, its timers, shooting, dying and blinking;
- `jogadores`: the list of players, looked up by network address;
- `mensagem`: the text a client sends (`name;input`) and how the server reads it;
- `placar`: the scoreboard order;
- `rede`: the order in which local ports are tried;
- `endereco`, `tiro`, `constantes`: addresses, shots and timings.

Positions, directions and speeds are `f32` values; the library keeps them as
bit patterns and the program in `app/` does the floating-point movement,
collisions, drawing (`macroquad`) and networking. Run `app` with `cliente`
for the client; without it, it runs the server.
