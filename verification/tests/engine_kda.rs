use faster_chant::engine::kda::{parse_kda, Kda, KdaEvent, KdaTracker};

#[test]
fn test_standard_mode() {
    let kda = parse_kda("0 / 0 / 1").unwrap();
    assert_eq!(kda.kills, 0);
    assert_eq!(kda.deaths, 0);
    assert_eq!(kda.assists, 0);
    assert_eq!(kda.cs, 1);
}

#[test]
fn test_death_count_mode() {
    let kda = parse_kda("11 / 7 / 5 / 26").unwrap();
    assert_eq!(kda.kills, 11);
    assert_eq!(kda.deaths, 7);
    assert_eq!(kda.assists, 5);
    assert_eq!(kda.cs, 26);
}

#[test]
fn test_death_count_with_noise() {
    let kda = parse_kda("PING:46 11 / 7 / 5 / 26 2728/1007").unwrap();
    assert_eq!(kda.kills, 11);
    assert_eq!(kda.deaths, 7);
    assert_eq!(kda.assists, 5);
    assert_eq!(kda.cs, 26);
}

#[test]
fn test_standard_with_noise() {
    let kda = parse_kda("FPS:60 5 / 2 / 8 PING:46").unwrap();
    assert_eq!(kda.kills, 5);
    assert_eq!(kda.deaths, 0);
    assert_eq!(kda.assists, 2);
    assert_eq!(kda.cs, 8);
}

#[test]
fn test_empty() {
    assert!(parse_kda("").is_none());
    assert!(parse_kda("PING:46 FPS:179").is_none());
}

#[test]
fn engine_parse_falls_back_to_first_numbers() {
    assert_eq!(
        parse_kda("500 600 700 800").unwrap(),
        Kda { kills: 500, deaths: 600, assists: 700, cs: 800 }
    );
    assert_eq!(
        parse_kda("500 600 700").unwrap(),
        Kda { kills: 500, deaths: 0, assists: 600, cs: 700 }
    );
}

#[test]
fn engine_tracker_events() {
    let mut t = KdaTracker::new();
    assert_eq!(t.tick("0 / 0 / 0 / 0"), KdaEvent::GameStart);
    assert_eq!(t.tick("0 / 0 / 0 / 5"), KdaEvent::NoChange);
    assert_eq!(t.tick("1 / 0 / 0 / 5"), KdaEvent::Kill);
    assert_eq!(t.tick("0 / 0 / 0 / 0"), KdaEvent::GameStart);
}

#[test]
fn engine_reads_loose_numbers_and_skips_label_values() {
    // Four small numbers are a score, joined by '/' or not.
    assert_eq!(
        parse_kda("1 2/3/4").unwrap(),
        Kda { kills: 1, deaths: 2, assists: 3, cs: 4 }
    );
    assert_eq!(
        parse_kda("1 2 3 4 9 / 8 / 7").unwrap(),
        Kda { kills: 1, deaths: 2, assists: 3, cs: 4 }
    );
    // Label values are not part of the score, with or without a space.
    assert_eq!(
        parse_kda("FPS: 60 5 / 2 / 8").unwrap(),
        Kda { kills: 5, deaths: 0, assists: 2, cs: 8 }
    );
    // Fewer than three numbers outside labels: no score.
    assert!(parse_kda("PING:46 FPS:60 7").is_none());
    assert!(parse_kda("PING:46 7 8").is_none());
}
