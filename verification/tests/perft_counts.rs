use std::sync::atomic::AtomicBool;

use chess_engine::game::Game;
use chess_engine::perft::perft;
use chess_engine::position::FenParseError;

#[test]
fn perft_perft_initial_0_5() {
    let stop_flag = AtomicBool::new(false);
    let mut game = Game::new_game();
    assert_eq!(perft(&mut game, 0, 0, &stop_flag), 1);
    assert_eq!(perft(&mut game, 1, 0, &stop_flag), 20);
    assert_eq!(perft(&mut game, 2, 0, &stop_flag), 400);
    assert_eq!(perft(&mut game, 3, 0, &stop_flag), 8_902);
    assert_eq!(perft(&mut game, 4, 0, &stop_flag), 197_281);
    assert_eq!(perft(&mut game, 5, 0, &stop_flag), 4_865_609);
}

#[test]
fn perft_perft_kiwipete_1_5() -> Result<(), FenParseError> {
    let stop_flag = AtomicBool::new(false);
    let mut game =
        Game::from_fen("r3k2r/p1ppqpb1/bn2pnp1/3PN3/1p2P3/2N2Q1p/PPPBBPPP/R3K2R w KQkq - 0 1")?;
    assert_eq!(perft(&mut game, 1, 0, &stop_flag), 48);
    assert_eq!(perft(&mut game, 2, 0, &stop_flag), 2_039);
    assert_eq!(perft(&mut game, 3, 0, &stop_flag), 97_862);
    assert_eq!(perft(&mut game, 4, 0, &stop_flag), 4_085_603);
    Ok(())
}

#[test]
fn perft_perft_position3_1_5() -> Result<(), FenParseError> {
    let stop_flag = AtomicBool::new(false);
    let mut game = Game::from_fen("8/2p5/3p4/KP5r/1R3p1k/8/4P1P1/8 w - - 0 1")?;
    assert_eq!(perft(&mut game, 1, 0, &stop_flag), 14);
    assert_eq!(perft(&mut game, 2, 0, &stop_flag), 191);
    assert_eq!(perft(&mut game, 3, 0, &stop_flag), 2_812);
    assert_eq!(perft(&mut game, 4, 0, &stop_flag), 43_238);
    assert_eq!(perft(&mut game, 5, 0, &stop_flag), 674_624);
    Ok(())
}

#[test]
fn perft_perft_position4_1_5() -> Result<(), FenParseError> {
    let stop_flag = AtomicBool::new(false);
    let mut game =
        Game::from_fen("r3k2r/Pppp1ppp/1b3nbN/nP6/BBP1P3/q4N2/Pp1P2PP/R2Q1RK1 w kq - 0 1")?;
    assert_eq!(perft(&mut game, 1, 0, &stop_flag), 6);
    assert_eq!(perft(&mut game, 2, 0, &stop_flag), 264);
    assert_eq!(perft(&mut game, 3, 0, &stop_flag), 9_467);
    assert_eq!(perft(&mut game, 4, 0, &stop_flag), 422_333);
    Ok(())
}

#[test]
fn perft_perft_position5_1_5() -> Result<(), FenParseError> {
    let stop_flag = AtomicBool::new(false);
    let mut game = Game::from_fen("rnbq1k1r/pp1Pbppp/2p5/8/2B5/8/PPP1NnPP/RNBQK2R w KQ - 1 8")?;
    assert_eq!(perft(&mut game, 1, 0, &stop_flag), 44);
    assert_eq!(perft(&mut game, 2, 0, &stop_flag), 1_486);
    assert_eq!(perft(&mut game, 3, 0, &stop_flag), 62_379);
    assert_eq!(perft(&mut game, 4, 0, &stop_flag), 2_103_487);
    Ok(())
}

#[test]
fn perft_perft_position6_1_5() -> Result<(), FenParseError> {
    let stop_flag = AtomicBool::new(false);
    let mut game =
        Game::from_fen("r4rk1/1pp1qppp/p1np1n2/2b1p1B1/2B1P1b1/P1NP1N2/1PP1QPPP/R4RK1 w - - 0 10")?;
    assert_eq!(perft(&mut game, 1, 0, &stop_flag), 46);
    assert_eq!(perft(&mut game, 2, 0, &stop_flag), 2_079);
    assert_eq!(perft(&mut game, 3, 0, &stop_flag), 89_890);
    assert_eq!(perft(&mut game, 4, 0, &stop_flag), 3_894_594);
    Ok(())
}
