use faster_chant::config::{default_gem_color, is_in_range, ColorRange};
use faster_chant::editor::{HeroEditor, LineList};
use faster_chant::kda::KdaEvent;
use faster_chant::logger::Logger;
use faster_chant::ocr::extract_text;
use faster_chant::page::{lines_for_event, page_from_signals, Channel, GamePage, PageAction, PageDetector};
use faster_chant::calibration::Calibration;
use faster_chant::scheme::{HeroScheme, SchemeManager, TriggerQuotes};
use faster_chant::ui::tray::{command_for_menu_id, TrayCommand};
use faster_chant::window::{gem_detected, sample_pixels};
use std::path::PathBuf;

#[test]
fn colour_box_is_inclusive() {
    let c = default_gem_color();
    assert_eq!(c.r_max, 80);
    assert!(is_in_range(&(0, 100, 180), &c));
    assert!(is_in_range(&(80, 200, 255), &c));
    assert!(!is_in_range(&(81, 150, 200), &c));
    let _ = ColorRange { r_min: 1, r_max: 2, g_min: 3, g_max: 4, b_min: 5, b_max: 6 };
}

#[test]
fn gem_needs_three_matching_pixels() {
    let c = default_gem_color();
    let blue = (10, 150, 220);
    let red = (255, 0, 0);
    assert!(gem_detected(&[blue, red, blue, blue], &c));
    assert!(!gem_detected(&[blue, red, blue, red, red], &c));
    assert!(!gem_detected(&[], &c));
}

#[test]
fn sampling_takes_up_to_five_pixels() {
    // 5 by 2 pixels: a step of two pixels, so bytes 0, 8, 16, 24, 32.
    let data: Vec<u8> = (0..40u8).collect();
    let px = sample_pixels(&data, 5, 2);
    assert_eq!(px, vec![(2, 1, 0), (10, 9, 8), (18, 17, 16), (26, 25, 24), (34, 33, 32)]);
    // Too little data for more than one pixel.
    assert_eq!(sample_pixels(&[1, 2, 3, 4, 5], 1, 1), vec![(3, 2, 1)]);
    assert!(sample_pixels(&[1, 2, 3], 1, 1).is_empty());
}

#[test]
fn pages_and_transitions() {
    assert_eq!(page_from_signals(true, true), GamePage::Confirming);
    assert_eq!(page_from_signals(false, true), GamePage::InGame);
    assert_eq!(page_from_signals(false, false), GamePage::Inactive);

    let m = SchemeManager::new();
    let mut cal = Calibration::new();
    cal.select("卫宫");
    let mut d = PageDetector::new();
    assert_eq!(d.transition(GamePage::Inactive, &mut cal), PageAction::Unchanged);
    assert_eq!(d.transition(GamePage::Confirming, &mut cal), PageAction::RecognizeSkin);
    assert_eq!(d.on_skin_recognized("s".to_string(), "h".to_string(), &m, &mut cal), None);
    assert_eq!(d.current_hero, Some("h".to_string()));
    assert_eq!(d.transition(GamePage::InGame, &mut cal), PageAction::EnteredGame);
    assert_eq!(cal.current(), Some("卫宫".to_string()));
    assert_eq!(d.transition(GamePage::Inactive, &mut cal), PageAction::GameEnded);
    assert_eq!(cal.current(), None);
    assert_eq!(d.transition(GamePage::InGame, &mut cal), PageAction::ColdStart);
    assert!(d.window_lost());
    assert!(!d.window_lost());
    assert_eq!(d.transition(GamePage::Confirming, &mut cal), PageAction::RecognizeSkin);
    assert_eq!(d.transition(GamePage::Inactive, &mut cal), PageAction::LeftConfirming);
    assert_eq!(d.current_hero, None);
}

#[test]
fn events_pick_lines_and_channels() {
    let mut t = TriggerQuotes::default();
    t.kill.push("k".to_string());
    t.game_start.push("g".to_string());
    let (lines, ch) = lines_for_event(&t, KdaEvent::Kill).unwrap();
    assert_eq!(lines, &vec!["k".to_string()]);
    assert_eq!(ch, Channel::Team);
    let (lines, ch) = lines_for_event(&t, KdaEvent::GameStart).unwrap();
    assert_eq!(lines, &vec!["g".to_string()]);
    assert_eq!(ch, Channel::All);
    assert!(lines_for_event(&t, KdaEvent::NoChange).is_none());
}

#[test]
fn tray_menu_ids() {
    assert_eq!(command_for_menu_id(1003), Some(TrayCommand::Calibrate));
    assert_eq!(command_for_menu_id(1002), Some(TrayCommand::OpenEditor));
    assert_eq!(command_for_menu_id(1001), Some(TrayCommand::Quit));
    assert_eq!(command_for_menu_id(0), None);
}

#[test]
fn log_names_and_expiry() {
    assert_eq!(Logger::file_name("2024-05-01"), "faster-chant-2024-05-01.log");
    assert!(Logger::is_expired("faster-chant-2024-05-01.log", (2024, 5, 2)));
    assert!(!Logger::is_expired("faster-chant-2024-05-01.log", (2024, 5, 1)));
    assert!(!Logger::is_expired("faster-chant-2024-13-01.log", (2030, 1, 1)));
    assert!(!Logger::is_expired("other-2024-05-01.log", (2030, 1, 1)));
    assert!(!Logger::is_expired("faster-chant-2024-05-01.txt", (2030, 1, 1)));
}

#[test]
fn editor_adds_filters_and_names() {
    let mut e = HeroEditor::new(vec![], PathBuf::from("."));
    assert!(!e.dirty);
    e.add_new_scheme();
    assert_eq!(e.schemes.len(), 1);
    assert_eq!(e.schemes[0].hero_name, "新英雄");
    assert_eq!(e.schemes[0].panels[0].name, "集合");
    assert_eq!(e.selected, 0);
    assert!(e.dirty);
    e.set_skin_text("冲田总司".to_string());
    e.refresh_display_name();
    assert_eq!(e.schemes[0].display_name, "冲田总司 新英雄");
    assert_eq!(e.current_file_name(), Some("冲田总司_新英雄.json".to_string()));
    e.set_skin_text(String::new());
    e.refresh_display_name();
    assert_eq!(e.schemes[0].display_name, "新英雄");
    e.mark_saved();
    assert!(!e.dirty);
    let other = HeroScheme {
        hero_name: "Saber".to_string(),
        skin_name: None,
        display_name: "Saber".to_string(),
        triggers: TriggerQuotes::default(),
        panels: vec![],
    };
    e.schemes.push(other);
    e.search = "SAB".to_string();
    assert_eq!(e.visible_indices(), vec![1]);
    e.search = String::new();
    assert_eq!(e.visible_indices(), vec![0, 1]);
}

#[test]
fn editor_edits_lines_groups_and_panels() {
    let mut e = HeroEditor::new(vec![], PathBuf::from("."));
    e.add_new_scheme();
    e.mark_saved();
    e.add_line(LineList::Kill);
    assert!(e.dirty);
    e.set_line(LineList::Kill, 0, "拔刀斋".to_string());
    e.add_line(LineList::Kill);
    e.set_line(LineList::Kill, 1, "天翔龙闪".to_string());
    assert_eq!(e.schemes[0].triggers.kill, vec!["拔刀斋".to_string(), "天翔龙闪".to_string()]);
    e.remove_line(LineList::Kill, 0);
    assert_eq!(e.schemes[0].triggers.kill, vec!["天翔龙闪".to_string()]);
    assert!(e.schemes[0].triggers.death.is_empty());

    e.add_taunt_group();
    assert_eq!(e.schemes[0].triggers.taunt.boxes, vec![vec![String::new()]]);
    e.set_line(LineList::Taunt(0), 0, "哼".to_string());
    e.add_taunt_group();
    e.remove_taunt_group(0);
    assert_eq!(e.schemes[0].triggers.taunt.boxes, vec![vec![String::new()]]);

    e.add_panel();
    assert_eq!(e.schemes[0].panels.len(), 2);
    assert_eq!(e.schemes[0].panels[1].name, "新面板");
    e.rename_panel(1, "战术".to_string());
    e.add_line(LineList::Panel(1));
    e.set_line(LineList::Panel(1), 0, "集合".to_string());
    assert_eq!(e.schemes[0].panels[1].name, "战术");
    assert_eq!(e.schemes[0].panels[1].lines, vec!["集合".to_string()]);
    e.remove_panel(0);
    assert_eq!(e.schemes[0].panels.len(), 1);
    assert_eq!(e.schemes[0].panels[0].name, "战术");

    e.set_hero_name("绯村剑心".to_string());
    e.refresh_display_name();
    assert_eq!(e.schemes[0].display_name, "绯村剑心");

    // With no scheme shown, edits change nothing.
    let mut empty = HeroEditor::new(vec![], PathBuf::from("."));
    empty.add_line(LineList::Kill);
    empty.add_panel();
    assert!(!empty.dirty);
    assert!(empty.schemes.is_empty());
}

#[test]
fn ocr_words_and_lines_join_with_spaces() {
    let words = |ws: &[&str]| ws.iter().map(|w| w.to_string()).collect::<Vec<String>>();
    let lines = vec![words(&["冲田总司", "绯村剑心"]), words(&[]), words(&["5/2/7"])];
    assert_eq!(extract_text(&lines), "冲田总司 绯村剑心 5/2/7");
    // An empty first word adds no space; an empty later word leaves one.
    let lines = vec![words(&["", "a", "", "b"])];
    assert_eq!(extract_text(&lines), "a  b");
    let lines = vec![words(&[""]), words(&["x"])];
    assert_eq!(extract_text(&lines), "x");
    assert_eq!(extract_text(&vec![]), "");
}
