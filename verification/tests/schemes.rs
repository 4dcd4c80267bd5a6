use faster_chant::calibration::Calibration;
use faster_chant::defaults::builtin_schemes;
use faster_chant::scheme::{HeroScheme, PanelGroup, SchemeManager, TauntBoxes, TriggerQuotes};

fn scheme(hero: &str, skin: Option<&str>) -> HeroScheme {
    let display = match skin {
        Some(s) => format!("{} {}", s, hero),
        None => hero.to_string(),
    };
    HeroScheme {
        hero_name: hero.to_string(),
        skin_name: skin.map(|s| s.to_string()),
        display_name: display,
        triggers: TriggerQuotes::default(),
        panels: vec![PanelGroup { name: "集合".to_string(), lines: vec![] }],
    }
}

fn manager() -> SchemeManager {
    let mut m = SchemeManager::new();
    m.insert(scheme("绯村剑心", None));
    m.insert(scheme("绯村剑心", Some("冲田总司")));
    m.insert(scheme("卫宫", None));
    m
}

#[test]
fn match_prefers_full_name() {
    let m = manager();
    let s = m.match_scheme("冲田总司", "绯村剑心").unwrap();
    assert_eq!(s.display_name, "冲田总司 绯村剑心");
}

#[test]
fn match_falls_back_to_hero_index() {
    let m = manager();
    // The hero points to the scheme added last for it.
    let s = m.match_scheme("天童木更", "绯村剑心").unwrap();
    assert_eq!(s.display_name, "冲田总司 绯村剑心");
    let s = m.match_scheme("未知", "卫宫").unwrap();
    assert_eq!(s.display_name, "卫宫");
    assert!(m.match_scheme("未知", "桐人").is_none());
}

#[test]
fn match_by_skin_name_alone() {
    let mut m = SchemeManager::new();
    let mut s = scheme("X", None);
    s.display_name = "皮肤".to_string();
    m.insert(s);
    assert_eq!(m.match_scheme("皮肤", "Y").unwrap().display_name, "皮肤");
}

#[test]
fn insert_replaces_same_display_name() {
    let mut m = SchemeManager::new();
    m.insert(scheme("卫宫", None));
    let mut again = scheme("卫宫", None);
    again.triggers.kill.push("结束了。".to_string());
    m.insert(again);
    assert_eq!(m.all().len(), 1);
    assert_eq!(m.match_scheme("", "卫宫").unwrap().triggers.kill, vec!["结束了。".to_string()]);
}

#[test]
fn all_lists_each_scheme_once() {
    let m = manager();
    let mut names: Vec<String> = m.all().iter().map(|s| s.display_name.clone()).collect();
    names.sort();
    assert_eq!(names, vec!["冲田总司 绯村剑心".to_string(), "卫宫".to_string(), "绯村剑心".to_string()]);
}

#[test]
fn builtin_schemes_are_the_three_heroes() {
    let b = builtin_schemes();
    let names: Vec<&str> = b.iter().map(|s| s.hero_name.as_str()).collect();
    assert_eq!(names, vec!["绯村剑心", "卫宫", "桐人"]);
    assert_eq!(b[0].triggers.kill, vec!["你已经死了。", "不过如此。", "下一个。"]);
    assert_eq!(b[1].triggers.game_start[0], "I am the bone of my sword.");
    assert_eq!(b[2].panels[1].name, "撤退");
    assert!(b.iter().all(|s| s.skin_name.is_none() && s.display_name == s.hero_name));
}

#[test]
fn trigger_quotes_default_is_empty() {
    let t = TriggerQuotes::default();
    assert!(t.game_start.is_empty() && t.kill.is_empty() && t.death.is_empty());
    assert!(t.assist.is_empty() && t.taunt.boxes.is_empty());
    let _ = TauntBoxes { boxes: vec![] };
}

#[test]
fn calibration_follows_matches_and_selection() {
    let m = manager();
    let mut cal = Calibration::new();
    assert_eq!(cal.current(), None);
    assert_eq!(cal.auto_calibrate("冲田总司", "绯村剑心", &m), Some("冲田总司 绯村剑心".to_string()));
    assert_eq!(cal.current(), Some("冲田总司 绯村剑心".to_string()));
    assert_eq!(cal.auto_calibrate("x", "桐人", &m), None);
    assert_eq!(cal.current(), Some("冲田总司 绯村剑心".to_string()));
    cal.select("卫宫");
    assert_eq!(cal.current(), Some("卫宫".to_string()));
    cal.clear();
    assert_eq!(cal.current(), None);
}

#[test]
fn calibration_search_lists_display_names_in_order() {
    let m = manager();
    let cal = Calibration::new();
    let names = cal.search("绯村", &m);
    assert_eq!(names, vec!["绯村剑心".to_string(), "冲田总司 绯村剑心".to_string()]);
    assert_eq!(cal.search("", &m).len(), 3);
    assert!(cal.search("zzz", &m).is_empty());
}
