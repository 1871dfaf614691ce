use terminal_hell::draw::{repeat, DrawCmd};
use terminal_hell::fb::Pixel;
use terminal_hell::hud::{
    draw_active_brands, draw_connecting, draw_dead_banner, draw_gameover, draw_hud,
    draw_paused_banner, draw_perks, draw_wave_banner, CONNECTING_TEXT, DEAD_TEXT,
    PAUSED_CLIENT_TEXT, PAUSED_HOST_TEXT,
};
use terminal_hell::perk::Perk;

fn banner(x: u16, y: u16, fg: Pixel, bg: Pixel, text: &str) -> Vec<DrawCmd> {
    vec![
        DrawCmd::MoveTo(x, y),
        DrawCmd::Fg(fg),
        DrawCmd::Bg(bg),
        DrawCmd::Print(text.to_string()),
        DrawCmd::ResetColor,
    ]
}

fn printed(cmds: &[DrawCmd]) -> Vec<String> {
    cmds.iter()
        .filter_map(|c| match c {
            DrawCmd::Print(s) => Some(s.clone()),
            _ => None,
        })
        .collect()
}

#[test]
fn wave_banner_is_centered_and_faded() {
    assert_eq!(
        draw_wave_banner(80, 24, 3, 200),
        banner(35, 8, Pixel::rgb(255, 200, 100), Pixel::rgb(20, 0, 15), "  WAVE 3  ")
    );
    assert_eq!(
        draw_wave_banner(80, 24, 12, 90),
        banner(34, 8, Pixel::rgb(255, 150, 100), Pixel::rgb(20, 0, 15), "  WAVE 12  ")
    );
}

#[test]
fn fixed_banners() {
    let n = DEAD_TEXT.chars().count() as u16;
    assert_eq!(
        draw_dead_banner(100, 30),
        banner((100 - n) / 2, 5, Pixel::rgb(255, 220, 200), Pixel::rgb(100, 10, 20), DEAD_TEXT)
    );
    assert_eq!(draw_dead_banner(4, 30)[0], DrawCmd::MoveTo(0, 5));
    assert_eq!(printed(&draw_paused_banner(80, 25, true)), vec![PAUSED_HOST_TEXT]);
    assert_eq!(printed(&draw_paused_banner(80, 25, false)), vec![PAUSED_CLIENT_TEXT]);
    assert_eq!(
        draw_connecting(),
        banner(0, 0, Pixel::rgb(255, 240, 140), Pixel::rgb(20, 10, 30), CONNECTING_TEXT)
    );
}

#[test]
fn status_line_text() {
    let cmds = draw_hud(4, -5, 12, 37, 4, 100, 10, true);
    assert_eq!(
        cmds,
        banner(
            0,
            0,
            Pixel::rgb(255, 220, 100),
            Pixel::rgb(20, 10, 30),
            " WAVE   4   HP   0   KILLS  12   CORRUPT  37% [▓▓▓▓▒▒▒▒▒▒]   SANITY 100% [▓▓▓▓▓▓▓▓▓▓] [MARKED] "
        )
    );
    let plain = draw_hud(1, 80, 0, -3, 0, 5, 0, false);
    assert_eq!(
        printed(&plain),
        vec![" WAVE   1   HP  80   KILLS   0   CORRUPT  -3% [▒▒▒▒▒▒▒▒▒▒]   SANITY   5% [▒▒▒▒▒▒▒▒▒▒] "]
    );
    assert_eq!(plain[1], DrawCmd::Fg(Pixel::rgb(255, 235, 160)));
}

#[test]
fn gameover_card_lines() {
    let text = printed(&draw_gameover(80, 24, 7, 42, 125));
    assert!(text.contains(&"            YOU DIED              ".to_string()));
    assert!(text.contains(&"    wave   7    kills  42       ".to_string()));
    assert!(text.contains(&"    time  2m 05s                ".to_string()));
}

#[test]
fn perk_and_brand_strips() {
    let perks = printed(&draw_perks(&[Perk::Butcher, Perk::IronWill]));
    assert!(perks.iter().any(|s| s.contains('U')));
    assert!(perks.iter().any(|s| s.contains('I')));
    let brands = printed(&draw_active_brands(&["doom_inferno".to_string(), "x_mod".to_string()]));
    assert!(brands.contains(&"DOOM ".to_string()));
    assert!(brands.contains(&"x_mod ".to_string()));
}

#[test]
fn repeat_builds_runs() {
    assert_eq!(repeat('=', 4), "====");
    assert_eq!(repeat('x', 0), "");
}

use terminal_hell::hud::{draw_inventory, max_armor, LocalLoadoutView, NO_PERKS_TEXT};
use terminal_hell::primitive::{Primitive, Rarity};
use terminal_hell::weapon::FireMode;

fn moves_and_prints(cmds: &[DrawCmd]) -> Vec<(u16, u16, String)> {
    let mut out = Vec::new();
    let mut at = (0, 0);
    for c in cmds {
        match c {
            DrawCmd::MoveTo(x, y) => at = (*x, *y),
            DrawCmd::Print(s) => out.push((at.0, at.1, s.clone())),
            _ => {}
        }
    }
    out
}

#[test]
fn inventory_panel_layout() {
    let lo = LocalLoadoutView {
        active_slot: 1,
        slots: [
            Some((Rarity::Rare, vec![Primitive::Ignite, Primitive::Chain], FireMode::Burst)),
            None,
        ],
    };
    let cmds = draw_inventory(80, 24, -5, 40, 73, 2, &[Perk::Survivor, Perk::Butcher], Some(&lo));
    let lines = moves_and_prints(&cmds);
    // 70% panel: 56 x 16 at (12, 4), wiped row by row.
    for row in 0..16u16 {
        assert_eq!(lines[row as usize], (12, 4 + row, " ".repeat(56)));
    }
    let title = " ≡ INVENTORY · Tab to close ≡ ";
    let tx = 12 + (56 - title.chars().count() as u16) / 2;
    assert_eq!(lines[16], (tx, 4, title.to_string()));
    assert_eq!(lines[17], (14, 6, "HP   0/100   ARMOR  40/150   SANITY  73/100".to_string()));
    assert_eq!(lines[18], (14, 8, "consumables:".to_string()));
    assert_eq!(lines[19], (16, 9, "turret kits  × 2".to_string()));
    assert_eq!(lines[20], (14, 11, "loadout:".to_string()));
    assert_eq!(lines[21], (16, 12, "  slot 0 · Rare · ⋯ burst [I C]".to_string()));
    assert_eq!(lines[22], (16, 13, "> slot 1 · empty".to_string()));
    assert_eq!(lines[23], (14, 15, "perks (2):".to_string()));
    assert_eq!(lines[24], (16, 16, "[S] Survivor      ".to_string()));
    assert_eq!(lines[25], (16, 16, " +50 max armor".to_string()));
    assert_eq!(lines[26], (16, 17, "[U] Butcher       ".to_string()));
    assert_eq!(lines[27], (16, 17, " 2× loot drops".to_string()));
    assert_eq!(lines.len(), 28);
    assert_eq!(*cmds.last().unwrap(), DrawCmd::ResetColor);
}

#[test]
fn inventory_without_perks_or_loadout() {
    let cmds = draw_inventory(80, 24, 100, 0, 100, 0, &[], None);
    let lines = moves_and_prints(&cmds);
    assert_eq!(lines[20], (14, 11, "loadout:".to_string()));
    assert_eq!(lines[21], (14, 13, "perks (0):".to_string()));
    assert_eq!(lines[22], (16, 14, NO_PERKS_TEXT.to_string()));
    assert_eq!(lines[17].2, "HP 100/100   ARMOR   0/100   SANITY 100/100");
}

#[test]
fn inventory_perk_list_stops_at_panel_bottom() {
    let perks = [Perk::CorpsePulse, Perk::IronWill, Perk::QuickHands, Perk::Rampage, Perk::Butcher];
    // rows 20: panel 14 high from row 3; perks start on row 13 and stop
    // after the one drawn on row 15 (the bottom row is 16).
    let lines = moves_and_prints(&draw_inventory(80, 20, 10, 0, 50, 0, &perks, None));
    let perk_rows: Vec<u16> = lines.iter().filter(|l| l.2.starts_with('[')).map(|l| l.1).collect();
    assert_eq!(perk_rows, vec![13, 14, 15]);
}

#[test]
fn armor_capacity_follows_survivor() {
    assert_eq!(max_armor(&[]), 100);
    assert_eq!(max_armor(&[Perk::Butcher, Perk::Survivor]), 150);
}

use terminal_hell::hud::draw_intermission;
use terminal_hell::waves::IntermissionPhase;

#[test]
fn intermission_strip_shows_votes_or_brands() {
    assert!(draw_intermission(None, 5, &[], &[]).is_empty());
    let kiosks = vec![("doom_inferno".to_string(), 2), ("zerg_tide".to_string(), 0)];
    let brands = vec!["quake_arena".to_string(), "mod_x".to_string()];
    let vote = draw_intermission(Some(IntermissionPhase::Vote), 7, &kiosks, &brands);
    assert_eq!(
        vote,
        vec![
            DrawCmd::MoveTo(0, 3),
            DrawCmd::Fg(Pixel::rgb(255, 235, 150)),
            DrawCmd::Bg(Pixel::rgb(20, 10, 30)),
            DrawCmd::Print(" [VOTE  7s] DOOM: 2  ZERG: 0  (walk + E to vote) ".to_string()),
            DrawCmd::ResetColor,
        ]
    );
    let stock = draw_intermission(Some(IntermissionPhase::Stock), 12, &kiosks, &brands);
    assert_eq!(printed(&stock), vec![" [STOCK 12s] brands: QUAKE mod_x "]);
    let empty_vote = draw_intermission(Some(IntermissionPhase::Vote), 3, &[], &brands);
    assert_eq!(printed(&empty_vote), vec![" [VOTE  3s] brands: QUAKE mod_x "]);
}

use terminal_hell::hud::{draw_kiosk_labels, KioskLabel};

#[test]
fn kiosk_labels_center_above_each_kiosk() {
    let k = |col: i32, row: i32, name: &str, votes: u32| KioskLabel {
        col,
        row,
        brand_name: name.to_string(),
        votes,
        color: Pixel::rgb(200, 80, 60),
    };
    // Viewport 160x90 pixels: 80 columns, 30 rows of terminal cells.
    let kiosks = vec![k(40, 10, "QUAKE", 3), k(2, 20, "DOOM", 0), k(40, 2, "SAM", 1), k(90, 10, "RE", 0)];
    let cmds = draw_kiosk_labels(160, 90, &kiosks);
    assert_eq!(
        cmds,
        vec![
            DrawCmd::MoveTo(36, 7),
            DrawCmd::Fg(Pixel::rgb(200, 80, 60)),
            DrawCmd::Bg(Pixel::rgb(20, 10, 30)),
            DrawCmd::Print("QUAKE (3)".to_string()),
            DrawCmd::ResetColor,
            DrawCmd::MoveTo(0, 17),
            DrawCmd::Fg(Pixel::rgb(200, 80, 60)),
            DrawCmd::Bg(Pixel::rgb(20, 10, 30)),
            DrawCmd::Print("DOOM (0)".to_string()),
            DrawCmd::ResetColor,
        ]
    );
}
