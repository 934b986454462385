//! Game state and rules of a small networked tank game: the players'
//! keyboard input packed in one byte, the players' timers and life cycle,
//! the list of connected players and the text messages that clients send
//! to the server.

pub mod input_jogador;
pub mod temporizador;
pub mod constantes;
pub mod endereco;
pub mod tiro;
pub mod jogador;
pub mod jogadores;
pub mod mensagem;
pub mod rede;
pub mod placar;
