use faster_chant::kda::{parse_kda, Kda, KdaEvent, KdaTracker};

#[test]
fn test_parse_kda_standard() {
    let kda = parse_kda("0 / 0 / 1").unwrap();
    assert_eq!(kda.kills, 0);
    assert_eq!(kda.deaths, 0);
    assert_eq!(kda.assists, 1);
}

#[test]
fn test_parse_kda_no_spaces() {
    let kda = parse_kda("5/2/8").unwrap();
    assert_eq!(kda.kills, 5);
    assert_eq!(kda.deaths, 2);
    assert_eq!(kda.assists, 8);
}

#[test]
fn test_parse_kda_with_noise() {
    let kda = parse_kda("PING:46 FPS:179 11 / 7 / 5 2728/1007").unwrap();
    assert_eq!(kda.kills, 11);
    assert_eq!(kda.deaths, 7);
    assert_eq!(kda.assists, 5);
}

#[test]
fn test_parse_kda_death_count_mode() {
    let kda = parse_kda("2728 / 1007 / 11 / 26").unwrap();
    assert_eq!(kda.kills, 2728);
    assert_eq!(kda.deaths, 1007);
    assert_eq!(kda.assists, 11);
}

#[test]
fn test_parse_kda_empty() {
    assert!(parse_kda("").is_none());
    assert!(parse_kda("PING:46 FPS:179").is_none());
}

#[test]
fn parse_kda_skips_numbers_too_big_for_u32() {
    let kda = parse_kda("99999999999 1 2 3").unwrap();
    assert_eq!(kda, Kda { kills: 1, deaths: 2, assists: 3 });
}

#[test]
fn tracker_first_zero_reading_starts_game() {
    let mut t = KdaTracker::new();
    assert_eq!(t.tick("0 / 0 / 0"), KdaEvent::GameStart);
    assert_eq!(t.tick("1 / 0 / 0"), KdaEvent::Kill);
    assert_eq!(t.tick("1 / 1 / 0"), KdaEvent::Death);
    assert_eq!(t.tick("1 / 1 / 2"), KdaEvent::Assist);
    assert_eq!(t.tick("1 / 1 / 2"), KdaEvent::NoChange);
    assert_eq!(t.tick("no score here"), KdaEvent::NoChange);
    assert_eq!(t.tick("0 / 0 / 0"), KdaEvent::GameStart);
}

#[test]
fn tracker_first_nonzero_reading_is_quiet() {
    let mut t = KdaTracker::new();
    assert_eq!(t.tick("3 / 1 / 2"), KdaEvent::NoChange);
    assert_eq!(t.tick("4 / 2 / 3"), KdaEvent::Kill);
}
