use cellular_automaton::worlds::FrontEnds;
use cellular_automaton::worlds::Worlds;

#[test]
fn world_selector_accepts_its_spellings() {
    assert_eq!(Worlds::from_str("gof"), Ok(Worlds::GameOfLife));
    assert_eq!(Worlds::from_str("Game of Life"), Ok(Worlds::GameOfLife));
    assert_eq!(Worlds::from_str("GameOfLife"), Ok(Worlds::GameOfLife));
    assert_eq!(Worlds::from_str("bb"), Ok(Worlds::BriansBrain));
    assert_eq!(Worlds::from_str("Brian's Brian "), Ok(Worlds::BriansBrain));
    assert_eq!(Worlds::from_str("BriansBrian"), Ok(Worlds::BriansBrain));
}

#[test]
fn world_selector_is_case_sensitive_and_rejects_the_rest() {
    assert_eq!(Worlds::from_str("GOF"), Err(String::from("unknown")));
    assert_eq!(Worlds::from_str(""), Err(String::from("unknown")));
    assert_eq!(Worlds::from_str("life"), Err(String::from("unknown")));
}

#[test]
fn front_end_selector_ignores_ascii_case() {
    assert_eq!(FrontEnds::from_str("gui"), Ok(FrontEnds::Sdl2));
    assert_eq!(FrontEnds::from_str("GUI"), Ok(FrontEnds::Sdl2));
    assert_eq!(FrontEnds::from_str("sdl"), Ok(FrontEnds::Sdl2));
    assert_eq!(FrontEnds::from_str("SDL2"), Ok(FrontEnds::Sdl2));
    assert_eq!(FrontEnds::from_str("Terminal"), Ok(FrontEnds::Curisve));
    assert_eq!(FrontEnds::from_str("cursive"), Ok(FrontEnds::Curisve));
    assert_eq!(FrontEnds::from_str("CuRsIvE"), Ok(FrontEnds::Curisve));
}

#[test]
fn front_end_selector_rejects_the_rest() {
    assert_eq!(FrontEnds::from_str("sdl3"), Err(String::from("unknown")));
    assert_eq!(FrontEnds::from_str(""), Err(String::from("unknown")));
    assert_eq!(FrontEnds::from_str("web"), Err(String::from("unknown")));
}

#[test]
fn selector_names() {
    assert_eq!(Worlds::GameOfLife.name(), "GameOfLife");
    assert_eq!(Worlds::BriansBrain.name(), "BriansBrain");
    assert_eq!(FrontEnds::Sdl2.name(), "Sdl2");
    assert_eq!(FrontEnds::Curisve.name(), "Curisve");
}
