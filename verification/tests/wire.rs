use dream_tutor::request::{
    flag_to_num, game_type_from_num, game_type_to_num, num_to_flag, GameType,
};

#[test]
fn flags_round_trip_on_the_wire() {
    assert_eq!(flag_to_num(true), 1);
    assert_eq!(flag_to_num(false), 0);
    assert_eq!(num_to_flag(0), Some(false));
    assert_eq!(num_to_flag(1), Some(true));
    assert_eq!(num_to_flag(2), None);
}

#[test]
fn game_types_round_trip_on_the_wire() {
    for t in [GameType::Login, GameType::AutoUpdate, GameType::Offline] {
        assert_eq!(game_type_from_num(game_type_to_num(t)), Some(t));
    }
    assert_eq!(game_type_to_num(GameType::Login), 1);
    assert_eq!(game_type_to_num(GameType::AutoUpdate), 2);
    assert_eq!(game_type_to_num(GameType::Offline), 3);
    assert_eq!(game_type_from_num(0), None);
    assert_eq!(game_type_from_num(4), None);
}
