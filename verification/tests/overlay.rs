//! Match overlay: packets, teams and the texts drawn from them.

use aicam::overlay::{
    apply_game_state, format_game_phase, format_message_budget, format_mm_ss, format_state_line,
    parse_game_state, parse_penalties, scoreboard_state_from_game, shootout_dot_states,
    shootout_total_dots, DotState, GameOverlayData, PenaltyCard, GAME_PHASE_PENALTY_SHOOTOUT,
    SHOOTOUT_DOT_CAP,
};
use aicam::overlay::DotState::{Missed, Scored, Upcoming};
use aicam::teams::{
    contrasting_text_rgb, load_teams_map, parse_hex_color, resolve_team_color, resolve_team_name,
    team_colour_byte_to_rgb, JerseyColor, TeamInfo, TeamsMap,
};

fn value(text: &str) -> serde_json::Value {
    serde_json::from_str(text).unwrap()
}

/// The channels as fractions of the full intensity.
fn fractions(c: JerseyColor) -> (f64, f64, f64) {
    (
        c.r as f64 / 5100.0,
        c.g as f64 / 5100.0,
        c.b as f64 / 5100.0,
    )
}


#[test]
fn test_load_teams_map() {
    let map = load_teams_map(Some(
        r#"{"0":"Invisibles","5":"B-Human","14":"HTWK Robots"}"#,
    ));
    assert_eq!(map.len(), 3);
    assert_eq!(map.get(&5).unwrap().name, "B-Human");
    assert_eq!(map.get(&5).unwrap().color, None);
    assert_eq!(map.get(&14).unwrap().name, "HTWK Robots");
}

#[test]
fn test_load_teams_map_mixed_schema() {
    let map = load_teams_map(Some(
        r##"{
            "5":  "B-Human",
            "14": {"name": "HTWK Robots", "color": "#cc0000"},
            "20": {"name": "Greens",      "color": "00aa55"}
        }"##,
    ));
    assert_eq!(map.len(), 3);
    assert_eq!(map.get(&5).unwrap().name, "B-Human");
    assert_eq!(map.get(&5).unwrap().color, None);
    let htwk = map.get(&14).unwrap();
    assert_eq!(htwk.name, "HTWK Robots");
    let (r, g, b) = fractions(htwk.color.unwrap());
    assert!((r - 0xcc as f64 / 255.0).abs() < 1e-6);
    assert!(g.abs() < 1e-6);
    assert!(b.abs() < 1e-6);
    let greens = map.get(&20).unwrap();
    assert_eq!(greens.name, "Greens");
    let (r, g, b) = fractions(greens.color.unwrap());
    assert!(r.abs() < 1e-6);
    assert!((g - 0xaa as f64 / 255.0).abs() < 1e-6);
    assert!((b - 0x55 as f64 / 255.0).abs() < 1e-6);
}

#[test]
fn test_load_teams_map_bad_entries_skipped() {
    let map = load_teams_map(Some(
        r##"{
            "5":   {"name": "B-Human"},
            "6":   {"color": "#ffffff"},
            "abc": "Not A Team Number",
            "9":   42,
            "10":  {"name": "Bad Colour", "color": "not-a-hex"}
        }"##,
    ));
    assert!(map.contains_key(&5));
    assert!(!map.contains_key(&6));
    assert!(!map.contains_key(&9));
    assert_eq!(map.get(&10).unwrap().name, "Bad Colour");
    assert_eq!(map.get(&10).unwrap().color, None);
}

#[test]
fn test_parse_hex_color_variants() {
    assert_eq!(parse_hex_color("#000000"), Some(JerseyColor::from_hundredths(0, 0, 0)));
    let (r, g, b) = fractions(parse_hex_color("#ffffff").unwrap());
    assert!((r - 1.0).abs() < 1e-6 && (g - 1.0).abs() < 1e-6 && (b - 1.0).abs() < 1e-6);
    assert!(parse_hex_color("00aa55").is_some());
    assert_eq!(parse_hex_color("#abc"), None);
    assert_eq!(parse_hex_color("rgb(0,0,0)"), None);
    assert_eq!(parse_hex_color(""), None);
}

#[test]
fn test_resolve_team_name_known() {
    let mut map = TeamsMap::new();
    map.insert(5, TeamInfo::from_name("B-Human"));
    assert_eq!(resolve_team_name(&map, 5), "B-Human");
}

#[test]
fn test_resolve_team_name_unknown() {
    let map = TeamsMap::new();
    assert_eq!(resolve_team_name(&map, 99), "Team 99");
}

#[test]
fn test_resolve_team_color_returns_configured_or_none() {
    let mut map = TeamsMap::new();
    map.insert(
        14,
        TeamInfo {
            name: "HTWK Robots".into(),
            color: Some(JerseyColor::from_hundredths(80, 0, 0)),
        },
    );
    map.insert(5, TeamInfo::from_name("B-Human"));
    assert_eq!(resolve_team_color(&map, 14), Some(JerseyColor::from_hundredths(80, 0, 0)));
    assert_eq!(resolve_team_color(&map, 5), None);
    assert_eq!(resolve_team_color(&map, 999), None);
}

#[test]
fn test_parse_game_state_uses_per_team_message_budgets_when_present() {
    let teams = TeamsMap::new();
    let gs = value(r#"{
        "team1_number": 5,
        "team2_number": 14,
        "state": "PLAYING",
        "set_play": "NONE",
        "first_half": true,
        "secs_remaining": 600,
        "game_phase": 0,
        "kicking_team": 0,
        "packet_number": 1042,
        "team1_message_budget": 555,
        "team2_message_budget": 614
    }"#);
    let data = parse_game_state(&gs, &teams);
    assert_eq!(data.team1_message_budget, 555);
    assert_eq!(data.team2_message_budget, 614);
    assert_eq!(data.packet_number, 1042);
}

#[test]
fn test_parse_game_state_accepts_legacy_packet_number_keys() {
    let teams = TeamsMap::new();
    let gs = value(r#"{
        "team1_number": 5,
        "team2_number": 14,
        "state": "PLAYING",
        "set_play": "NONE",
        "first_half": true,
        "secs_remaining": 600,
        "game_phase": 0,
        "kicking_team": 0,
        "packet_number": 999,
        "team1_packet_number": 555,
        "team2_packet_number": 614
    }"#);
    let data = parse_game_state(&gs, &teams);
    assert_eq!(data.team1_message_budget, 555);
    assert_eq!(data.team2_message_budget, 614);
}

#[test]
fn test_format_message_budget_prefix() {
    assert_eq!(format_message_budget(1200), "msg 1200");
    assert_eq!(format_message_budget(0), "msg 0");
}

#[test]
fn test_parse_game_state() {
    let mut teams = TeamsMap::new();
    teams.insert(5, TeamInfo::from_name("B-Human"));
    teams.insert(
        14,
        TeamInfo {
            name: "HTWK Robots".into(),
            color: Some(JerseyColor::from_hundredths(80, 0, 0)),
        },
    );
    let gs = value(r#"{
        "team1_number": 5,
        "team2_number": 14,
        "team1_score": 2,
        "team2_score": 1,
        "first_half": false,
        "secs_remaining": 300,
        "state": "PLAYING",
        "set_play": "NONE",
        "kicking_team": 5,
        "packet_number": 1042,
        "game_phase": 1
    }"#);
    let data = parse_game_state(&gs, &teams);
    assert_eq!(data.team1_name, "B-Human");
    assert_eq!(data.team2_name, "HTWK Robots");
    assert_eq!(data.team1_color, None);
    assert_eq!(data.team2_color, Some(JerseyColor::from_hundredths(80, 0, 0)));
    assert_eq!(data.team1_message_budget, 1042);
    assert_eq!(data.team2_message_budget, 1042);
    assert_eq!(data.team1_score, 2);
    assert_eq!(data.team2_score, 1);
    assert!(!data.first_half);
    assert_eq!(data.secs_remaining, 300);
    assert_eq!(data.state, "PLAYING");
    assert!(data.is_live);
}

#[test]
fn test_parse_game_state_surfaces_task481_fields() {
    let teams = TeamsMap::new();
    let gs = value(r#"{
        "team1_number": 5,
        "team2_number": 14,
        "state": "PLAYING",
        "set_play": "NONE",
        "first_half": true,
        "secs_remaining": 600,
        "game_phase": 1,
        "kicking_team": 0,
        "secondary_time": 45,
        "team1_goalkeeper": 1,
        "team1_penalty_shot": 2,
        "team1_single_shots": 3,
        "team2_goalkeeper": 7,
        "team2_penalty_shot": 1,
        "team2_single_shots": 1
    }"#);
    let data = parse_game_state(&gs, &teams);
    assert_eq!(data.secondary_time, 45);
    assert_eq!(data.team1_goalkeeper, 1);
    assert_eq!(data.team2_goalkeeper, 7);
    assert_eq!(data.team1_penalty_shot, 2);
    assert_eq!(data.team1_single_shots, 0b0011);
    assert_eq!(data.team2_penalty_shot, 1);
    assert_eq!(data.team2_single_shots, 0b0001);
}

#[test]
fn test_parse_game_state_packet_colour_fallback() {
    let teams = TeamsMap::new();
    let gs = value(r#"{
        "team1_number": 99,
        "team2_number": 100,
        "state": "PLAYING",
        "set_play": "NONE",
        "first_half": true,
        "secs_remaining": 600,
        "game_phase": 0,
        "kicking_team": 0,
        "team1_field_player_colour": 1,
        "team2_field_player_colour": 5
    }"#);
    let data = parse_game_state(&gs, &teams);
    assert_eq!(data.team1_color, Some(JerseyColor::from_hundredths(85, 15, 15)));
    assert_eq!(data.team2_color, Some(JerseyColor::from_hundredths(15, 70, 30)));
}

#[test]
fn test_parse_game_state_teams_json_wins_over_packet_colour() {
    let mut teams = TeamsMap::new();
    teams.insert(
        5,
        TeamInfo {
            name: "B-Human".into(),
            color: Some(JerseyColor::from_hundredths(10, 20, 30)),
        },
    );
    let gs = value(r#"{
        "team1_number": 5,
        "team2_number": 99,
        "state": "PLAYING",
        "set_play": "NONE",
        "first_half": true,
        "secs_remaining": 600,
        "game_phase": 0,
        "kicking_team": 0,
        "team1_field_player_colour": 1,
        "team2_field_player_colour": 5
    }"#);
    let data = parse_game_state(&gs, &teams);
    assert_eq!(data.team1_color, Some(JerseyColor::from_hundredths(10, 20, 30)));
    assert_eq!(data.team2_color, Some(JerseyColor::from_hundredths(15, 70, 30)));
}

#[test]
fn test_team_colour_byte_to_rgb_full_table() {
    for byte in 0..=9_u32 {
        assert!(
            team_colour_byte_to_rgb(byte).is_some(),
            "byte {byte} should map to Some(rgb)"
        );
    }
    assert!(team_colour_byte_to_rgb(10).is_none());
    assert!(team_colour_byte_to_rgb(255).is_none());
}

#[test]
fn test_parse_game_state_normalises_kicking_team_none_sentinel() {
    let teams = TeamsMap::new();
    let gs = value(r#"{
        "team1_number": 5,
        "team2_number": 14,
        "state": "READY",
        "set_play": "NONE",
        "first_half": true,
        "secs_remaining": 45,
        "game_phase": 0,
        "kicking_team": 255
    }"#);
    let data = parse_game_state(&gs, &teams);
    assert_eq!(data.kicking_team, 0);
}

#[test]
fn test_parse_game_state_reads_stopped_flag() {
    let teams = TeamsMap::new();
    let gs_stopped = value(r#"{
        "team1_number": 5,
        "team2_number": 14,
        "state": "PLAYING",
        "set_play": "NONE",
        "first_half": true,
        "secs_remaining": 300,
        "game_phase": 0,
        "kicking_team": 0,
        "stopped": true
    }"#);
    assert!(parse_game_state(&gs_stopped, &teams).stopped);

    let gs_default = value(r#"{
        "team1_number": 5,
        "team2_number": 14,
        "state": "PLAYING",
        "set_play": "NONE",
        "first_half": true,
        "secs_remaining": 300,
        "game_phase": 0,
        "kicking_team": 0
    }"#);
    assert!(!parse_game_state(&gs_default, &teams).stopped);
}

#[test]
fn test_format_state_line_playing() {
    let data = GameOverlayData {
        state: "PLAYING".into(),
        set_play: "NONE".into(),
        ..Default::default()
    };
    assert_eq!(format_state_line(&data), "playing");
}

#[test]
fn test_format_state_line_ready_kickoff() {
    let data = GameOverlayData {
        state: "READY".into(),
        set_play: "NONE".into(),
        kicking_team: 5,
        team1_number: 5,
        team1_name: "B-Human".into(),
        ..Default::default()
    };
    assert_eq!(format_state_line(&data), "ready, kickoff for B-Human");
}

#[test]
fn test_format_state_line_set_play() {
    let data = GameOverlayData {
        state: "PLAYING".into(),
        set_play: "PENALTY_KICK".into(),
        kicking_team: 14,
        team2_number: 14,
        team2_name: "HTWK Robots".into(),
        ..Default::default()
    };
    assert_eq!(
        format_state_line(&data),
        "playing, penalty kick for HTWK Robots"
    );
}

#[test]
fn test_format_state_line_ready_without_kicker() {
    let data = GameOverlayData {
        state: "READY".into(),
        set_play: "NONE".into(),
        kicking_team: 0,
        team1_number: 5,
        team1_name: "B-Human".into(),
        ..Default::default()
    };
    assert_eq!(format_state_line(&data), "ready");
}

#[test]
fn test_format_state_line_set_play_without_kicker() {
    let data = GameOverlayData {
        state: "PLAYING".into(),
        set_play: "PENALTY_KICK".into(),
        kicking_team: 0,
        team2_number: 14,
        team2_name: "HTWK Robots".into(),
        ..Default::default()
    };
    assert_eq!(format_state_line(&data), "playing, penalty kick");
}

#[test]
fn test_format_state_line_appends_secondary_time() {
    let data = GameOverlayData {
        state: "READY".into(),
        set_play: "NONE".into(),
        kicking_team: 14,
        team2_number: 14,
        team2_name: "HTWK Robots".into(),
        secondary_time: 21,
        ..Default::default()
    };
    assert_eq!(
        format_state_line(&data),
        "ready, kickoff for HTWK Robots - 00:21"
    );

    let data = GameOverlayData {
        state: "FINISHED".into(),
        set_play: "NONE".into(),
        secondary_time: 645,
        ..Default::default()
    };
    assert_eq!(format_state_line(&data), "finished - 10:45");
}

#[test]
fn test_format_state_line_omits_zero_secondary_time() {
    let data = GameOverlayData {
        state: "PLAYING".into(),
        set_play: "NONE".into(),
        secondary_time: 0,
        ..Default::default()
    };
    assert_eq!(format_state_line(&data), "playing");
}

#[test]
fn test_format_game_phase_covers_all_phases() {
    let make = |phase: u32, first_half: bool| GameOverlayData {
        game_phase: phase,
        first_half,
        ..Default::default()
    };
    assert_eq!(format_game_phase(&make(0, true)), "1st");
    assert_eq!(format_game_phase(&make(0, false)), "2nd");
    assert_eq!(format_game_phase(&make(1, true)), "shootout");
    assert_eq!(format_game_phase(&make(1, false)), "shootout");
    assert_eq!(format_game_phase(&make(2, true)), "ET 1st");
    assert_eq!(format_game_phase(&make(2, false)), "ET 2nd");
    assert_eq!(format_game_phase(&make(3, true)), "1st");
    assert_eq!(format_game_phase(&make(3, false)), "2nd");
    assert_eq!(format_game_phase(&make(99, true)), "1st");
}

#[test]
fn test_parse_game_state_surfaces_goalkeeper_colour() {
    let teams = TeamsMap::new();
    let gs = value(r#"{
        "team1_number": 5,
        "team2_number": 14,
        "state": "PLAYING",
        "set_play": "NONE",
        "first_half": true,
        "secs_remaining": 600,
        "game_phase": 0,
        "kicking_team": 0,
        "team1_field_player_colour": 1,
        "team1_goalkeeper_colour": 0,
        "team2_field_player_colour": 0,
        "team2_goalkeeper_colour": 2
    }"#);
    let data = parse_game_state(&gs, &teams);
    assert!(data.team1_goalkeeper_color.is_some());
    assert!(data.team2_goalkeeper_color.is_some());
}

#[test]
fn test_parse_game_state_suppresses_goalkeeper_colour_when_equal() {
    let teams = TeamsMap::new();
    let gs = value(r#"{
        "team1_number": 5,
        "team2_number": 14,
        "state": "PLAYING",
        "set_play": "NONE",
        "first_half": true,
        "secs_remaining": 600,
        "game_phase": 0,
        "kicking_team": 0,
        "team1_field_player_colour": 1,
        "team1_goalkeeper_colour": 1,
        "team2_field_player_colour": 0,
        "team2_goalkeeper_colour": 0
    }"#);
    let data = parse_game_state(&gs, &teams);
    assert!(data.team1_goalkeeper_color.is_none());
    assert!(data.team2_goalkeeper_color.is_none());
}

#[test]
fn test_shootout_total_dots_takes_max_and_caps() {
    assert_eq!(shootout_total_dots(0, 0), 0);
    assert_eq!(shootout_total_dots(3, 4), 4);
    assert_eq!(shootout_total_dots(4, 3), 4);
    assert_eq!(shootout_total_dots(5, 5), 5);
    assert_eq!(
        shootout_total_dots(0, SHOOTOUT_DOT_CAP + 5),
        SHOOTOUT_DOT_CAP
    );
    assert_eq!(shootout_total_dots(99, 99), SHOOTOUT_DOT_CAP);
}

#[test]
fn test_shootout_dot_states_classifies_each_attempt() {

    assert_eq!(
        shootout_dot_states(3, 0b101, 3),
        vec![Scored, Missed, Scored],
    );

    assert_eq!(
        shootout_dot_states(3, 0b101, 5),
        vec![Scored, Missed, Scored, Upcoming, Upcoming],
    );

    assert_eq!(
        shootout_dot_states(0, 0, 3),
        vec![Upcoming, Upcoming, Upcoming],
    );

    assert_eq!(shootout_dot_states(2, 0b11, 0), Vec::<DotState>::new());

    assert_eq!(
        shootout_dot_states(3, 0b11111, 3),
        vec![Scored, Scored, Scored],
    );
}

#[test]
fn test_shootout_total_dots_zero_when_no_attempts() {
    assert_eq!(shootout_total_dots(0, 0), 0);
}

#[test]
fn test_parse_penalties_sorts_by_secs_remaining_desc() {
    let p = value(r#"{
        "team1_penalties": [
            {"player_number": 4, "penalty_code": 7,
             "penalty_reason": "Ball Holding", "secs_remaining": 10},
            {"player_number": 2, "penalty_code": 7,
             "penalty_reason": "Ball Holding", "secs_remaining": 60},
            {"player_number": 6, "penalty_code": 7,
             "penalty_reason": "Ball Holding", "secs_remaining": 60},
            {"player_number": 1, "penalty_code": 7,
             "penalty_reason": "Ball Holding", "secs_remaining": 30}
        ],
        "team2_penalties": []
    }"#);
    let (team1, _team2) = parse_penalties(&p);
    let order: Vec<u32> = team1.iter().map(|c| c.player_number).collect();
    assert_eq!(order, vec![2, 6, 1, 4]);
}

#[test]
fn test_parse_penalties_filters_zero_codes() {
    let p = value(r#"{
        "team1_penalties": [
            {"team_number": 5, "player_number": 1, "penalty_code": 13,
             "penalty_reason": "Substitute", "secs_remaining": 0,
             "cautions": 0},
            {"team_number": 5, "player_number": 2, "penalty_code": 0,
             "penalty_reason": "No Penalty", "secs_remaining": 0,
             "cautions": 0},
            {"team_number": 5, "player_number": 3, "penalty_code": 7,
             "penalty_reason": "Ball Holding", "secs_remaining": 30,
             "cautions": 1}
        ],
        "team2_penalties": [
            {"team_number": 14, "player_number": 1, "penalty_code": 0,
             "penalty_reason": "No Penalty", "secs_remaining": 0,
             "cautions": 0}
        ]
    }"#);
    let (team1, team2) = parse_penalties(&p);
    assert_eq!(team1.len(), 2);
    assert_eq!(team1[0].player_number, 3);
    assert_eq!(team1[0].penalty_reason, "Ball Holding");
    assert_eq!(team1[0].secs_remaining, 30);
    assert_eq!(team1[1].player_number, 1);
    assert_eq!(team1[1].penalty_reason, "Substitute");
    assert_eq!(team1[1].secs_remaining, 0);
    assert!(team2.is_empty());
}

#[test]
fn test_parse_penalties_handles_missing_or_malformed_payload() {
    let p = value(r#"{}"#);
    let (team1, team2) = parse_penalties(&p);
    assert!(team1.is_empty());
    assert!(team2.is_empty());

    let p = value(r#"{
        "team1_penalties": "not an array",
        "team2_penalties": 42
    }"#);
    let (team1, team2) = parse_penalties(&p);
    assert!(team1.is_empty());
    assert!(team2.is_empty());

    let p = value(r#"{
        "team1_penalties": [
            {"penalty_code": 13}
        ]
    }"#);
    let (team1, _team2) = parse_penalties(&p);
    assert_eq!(team1.len(), 1);
    assert_eq!(team1[0].player_number, 0);
    assert_eq!(team1[0].penalty_reason, "");
    assert_eq!(team1[0].secs_remaining, 0);
}

#[test]
fn test_default_overlay_state_has_no_penalty_cards() {
    let d = GameOverlayData::default();
    assert!(d.team1_penalties.is_empty());
    assert!(d.team2_penalties.is_empty());
}

#[test]
fn scoreboard_state_from_game_copies_scores_and_names() {
    let d = GameOverlayData {
        team1_name: "Nao Devils".into(),
        team2_name: "B-Human".into(),
        team1_score: 3,
        team2_score: 1,
        team1_color: Some(JerseyColor::from_hundredths(100, 0, 0)),
        team2_color: Some(JerseyColor::from_hundredths(0, 0, 100)),
        field_name: "FIELD A".into(),
        ..GameOverlayData::default()
    };
    let s = scoreboard_state_from_game(&d);
    assert_eq!(s.home_team_name, "Nao Devils");
    assert_eq!(s.away_team_name, "B-Human");
    assert_eq!(s.home_score, 3);
    assert_eq!(s.away_score, 1);
    assert_eq!(s.field_name, "FIELD A");
    let home_rgba = s.home_team_color.expect("home color present");
    assert_eq!((home_rgba.r, home_rgba.g, home_rgba.b), (255, 0, 0));
    let away_rgba = s.away_team_color.expect("away color present");
    assert_eq!((away_rgba.r, away_rgba.g, away_rgba.b), (0, 0, 255));
}

#[test]
fn apply_game_state_preserves_configured_field_name() {
    let mut overlay = GameOverlayData {
        field_name: "FIELD C".into(),
        team1_score: 0,
        ..GameOverlayData::default()
    };
    let incoming = GameOverlayData {
        field_name: "FIELD A".into(),
        team1_score: 2,
        ..GameOverlayData::default()
    };
    apply_game_state(&mut overlay, incoming);
    assert_eq!(overlay.field_name, "FIELD C");
    assert_eq!(overlay.team1_score, 2);
}

#[test]
fn apply_game_state_preserves_penalty_cards() {
    let mut overlay = GameOverlayData {
        team1_penalties: vec![PenaltyCard {
            player_number: 3,
            penalty_reason: "Pushing".into(),
            secs_remaining: 30,
        }],
        ..GameOverlayData::default()
    };
    let incoming = GameOverlayData::default();
    apply_game_state(&mut overlay, incoming);
    assert_eq!(overlay.team1_penalties.len(), 1);
}

#[test]
fn scoreboard_state_from_game_emits_shootout_only_in_phase() {
    let mut d = GameOverlayData {
        game_phase: 0,
        team1_penalty_shot: 2,
        team1_single_shots: 0b01,
        ..GameOverlayData::default()
    };
    assert!(scoreboard_state_from_game(&d).shootout.is_none());

    d.game_phase = GAME_PHASE_PENALTY_SHOOTOUT;
    let s = scoreboard_state_from_game(&d);
    let so = s.shootout.expect("shootout state present");
    assert_eq!(so.home_penalty_shot, 2);
    assert_eq!(so.home_single_shots, 0b01);
}

#[test]
fn scoreboard_state_from_game_marks_goalkeeper_penalty_tile() {
    let d = GameOverlayData {
        team1_goalkeeper: 5,
        team1_penalties: vec![
            PenaltyCard {
                player_number: 5,
                penalty_reason: "Goalkeeper Holding".into(),
                secs_remaining: 30,
            },
            PenaltyCard {
                player_number: 2,
                penalty_reason: "Ball Holding".into(),
                secs_remaining: 20,
            },
        ],
        ..GameOverlayData::default()
    };
    let s = scoreboard_state_from_game(&d);
    assert_eq!(s.home_penalty_timers.len(), 2);
    assert!(s.home_penalty_timers[0].is_goalkeeper);
    assert!(!s.home_penalty_timers[1].is_goalkeeper);
}

#[test]
fn scoreboard_state_from_game_formats_clock_text() {
    let mut d = GameOverlayData {
        secs_remaining: 305,
        ..GameOverlayData::default()
    };
    assert_eq!(scoreboard_state_from_game(&d).game_clock_text, "05:05");
    d.secs_remaining = -7;
    assert_eq!(scoreboard_state_from_game(&d).game_clock_text, "-00:07");
    d.secs_remaining = 0;
    assert_eq!(scoreboard_state_from_game(&d).game_clock_text, "00:00");
}

#[test]
fn scoreboard_state_from_game_propagates_clock_stopped_flag() {
    let mut d = GameOverlayData {
        stopped: false,
        ..GameOverlayData::default()
    };
    assert!(!scoreboard_state_from_game(&d).clock_stopped);
    d.stopped = true;
    assert!(scoreboard_state_from_game(&d).clock_stopped);
}

#[test]
fn contrasting_text_rgb_picks_black_on_bright_backgrounds() {
    assert_eq!(contrasting_text_rgb(JerseyColor::from_hundredths(100, 100, 100)),
        JerseyColor::from_hundredths(0, 0, 0));
    assert_eq!(contrasting_text_rgb(JerseyColor::from_hundredths(100, 100, 0)),
        JerseyColor::from_hundredths(0, 0, 0));
    assert_eq!(contrasting_text_rgb(JerseyColor::from_hundredths(0, 100, 100)),
        JerseyColor::from_hundredths(0, 0, 0));
}

#[test]
fn contrasting_text_rgb_picks_white_on_dark_backgrounds() {
    assert_eq!(contrasting_text_rgb(JerseyColor::from_hundredths(0, 0, 0)),
        JerseyColor::from_hundredths(100, 100, 100));
    assert_eq!(contrasting_text_rgb(JerseyColor::from_hundredths(100, 0, 0)),
        JerseyColor::from_hundredths(100, 100, 100));
    assert_eq!(contrasting_text_rgb(JerseyColor::from_hundredths(0, 0, 100)),
        JerseyColor::from_hundredths(100, 100, 100));
    assert_eq!(contrasting_text_rgb(JerseyColor::from_hundredths(0, 100, 0)),
        JerseyColor::from_hundredths(100, 100, 100));
}

#[test]
fn format_mm_ss_uses_ascii_hyphen_minus_for_negative() {
    let s = format_mm_ss(-65);
    assert!(s.starts_with('-'));
    assert_eq!(s.as_bytes()[0], 0x2D);
    assert_eq!(s, "-01:05");
}

#[test]
fn format_mm_ss_no_sign_for_zero_or_positive() {
    assert_eq!(format_mm_ss(0), "00:00");
    assert_eq!(format_mm_ss(305), "05:05");
}

#[test]
fn unreadable_teams_are_no_teams() {
    assert!(load_teams_map(None).is_empty());
    assert!(load_teams_map(Some("[]")).is_empty());
    assert!(load_teams_map(Some("{")).is_empty());
}
