//! Game state for the broadcast overlay.
//!
//! Game controllers publish the state of the match and the penalised robots
//! as JSON packets. Packets become [`GameOverlayData`], which is shown as a
//! scoreboard.

use vstd::prelude::*;
use vstd::string::{StrSliceExecFns, StringExecFns};
use crate::clock;
use crate::json;
use crate::json::Json;
use crate::layout::scoreboard::{PenaltyTile, ScoreboardState, ShootoutState};
use crate::teams;
use crate::teams::{
    resolve_team_color, resolve_team_name, same_string, team_colour_byte_to_rgb, JerseyColor,
    TeamInfo, TeamsMap,
};
use crate::text;

verus! {

/// The state of a match, as the overlay shows it.
#[derive(Debug, Clone)]
pub struct GameOverlayData {
    pub team1_name: String,
    pub team2_name: String,
    /// `None` leaves the score box in its default colour.
    pub team1_color: Option<JerseyColor>,
    pub team2_color: Option<JerseyColor>,
    pub team1_score: u32,
    pub team2_score: u32,
    pub team1_number: u32,
    pub team2_number: u32,
    /// First half, else second.
    pub first_half: bool,
    pub secs_remaining: i32,
    pub game_phase: u32,
    /// Packet counter of older publishers.
    pub packet_number: u32,
    /// Messages each team may still send.
    pub team1_message_budget: u32,
    pub team2_message_budget: u32,
    /// E.g. `"PLAYING"`, `"READY"`, `"SET"`, `"FINISHED"`.
    pub state: String,
    /// E.g. `"NONE"`, `"PENALTY_KICK"`.
    pub set_play: String,
    /// Number of the kicking team, 0 for none.
    pub kicking_team: u32,
    pub field_name: String,
    /// Whether a game controller sent this.
    pub is_live: bool,
    /// The referee stopped the clock.
    pub stopped: bool,
    /// Secondary clock, 0 when none runs.
    pub secondary_time: i32,
    /// Player number of each goalkeeper, 0 when not assigned.
    pub team1_goalkeeper: u32,
    pub team2_goalkeeper: u32,
    /// Goalkeeper jersey, where it differs from the field players'.
    pub team1_goalkeeper_color: Option<JerseyColor>,
    pub team2_goalkeeper_color: Option<JerseyColor>,
    /// Shoot-out: shots taken, and a mask of those that scored.
    pub team1_penalty_shot: u32,
    pub team1_single_shots: u32,
    pub team2_penalty_shot: u32,
    pub team2_single_shots: u32,
    pub team1_penalties: Vec<PenaltyCard>,
    pub team2_penalties: Vec<PenaltyCard>,
}

/// One penalised robot.
#[derive(Debug, Clone, PartialEq, Eq)]
pub struct PenaltyCard {
    pub player_number: u32,
    /// Decoded label, e.g. `"Pushing"`.
    pub penalty_reason: String,
    /// Countdown in seconds; 0 while it is stopped.
    pub secs_remaining: u32,
}

impl Default for GameOverlayData {
    fn default() -> (d: Self)
        ensures
            d.team1_name@ == "Home"@,
            d.team2_name@ == "Away"@,
            d.team1_color is None,
            d.team2_color is None,
            d.team1_score == 0,
            d.team2_score == 0,
            d.team1_number == 0,
            d.team2_number == 0,
            d.first_half,
            d.secs_remaining == 600,
            d.game_phase == 0,
            d.packet_number == 0,
            d.team1_message_budget == 0,
            d.team2_message_budget == 0,
            d.state@ == "INITIAL"@,
            d.set_play@ == "NONE"@,
            d.kicking_team == 0,
            d.field_name@ == "FIELD A"@,
            !d.is_live,
            !d.stopped,
            d.secondary_time == 0,
            d.team1_goalkeeper == 0,
            d.team2_goalkeeper == 0,
            d.team1_goalkeeper_color is None,
            d.team2_goalkeeper_color is None,
            d.team1_penalty_shot == 0,
            d.team1_single_shots == 0,
            d.team2_penalty_shot == 0,
            d.team2_single_shots == 0,
            d.team1_penalties@.len() == 0,
            d.team2_penalties@.len() == 0,
    {
        GameOverlayData {
            team1_name: "Home".to_owned(),
            team2_name: "Away".to_owned(),
            team1_color: None,
            team2_color: None,
            team1_score: 0,
            team2_score: 0,
            team1_number: 0,
            team2_number: 0,
            first_half: true,
            secs_remaining: 600,
            game_phase: 0,
            packet_number: 0,
            team1_message_budget: 0,
            team2_message_budget: 0,
            state: "INITIAL".to_owned(),
            set_play: "NONE".to_owned(),
            kicking_team: 0,
            field_name: "FIELD A".to_owned(),
            is_live: false,
            stopped: false,
            secondary_time: 0,
            team1_goalkeeper: 0,
            team2_goalkeeper: 0,
            team1_goalkeeper_color: None,
            team2_goalkeeper_color: None,
            team1_penalty_shot: 0,
            team1_single_shots: 0,
            team2_penalty_shot: 0,
            team2_single_shots: 0,
            team1_penalties: Vec::new(),
            team2_penalties: Vec::new(),
        }
    }
}

/// The byte game controllers send for "no team kicks next".
pub const KICKING_TEAM_NONE: u32 = 255;

pub const GAME_PHASE_NORMAL: u32 = 0;
pub const GAME_PHASE_PENALTY_SHOOTOUT: u32 = 1;
pub const GAME_PHASE_OVERTIME: u32 = 2;
pub const GAME_PHASE_TIMEOUT: u32 = 3;

/// The most shoot-out dots drawn for a team.
pub const SHOOTOUT_DOT_CAP: u32 = 10;

// Game state packets.

/// The fields of a game state packet. A field that is missing or of the wrong
/// type is `None`.
#[derive(Debug, Clone)]
pub struct GameFields {
    pub team1_number: Option<u64>,
    pub team2_number: Option<u64>,
    pub team1_field_player_colour: Option<u64>,
    pub team2_field_player_colour: Option<u64>,
    pub team1_goalkeeper_colour: Option<u64>,
    pub team2_goalkeeper_colour: Option<u64>,
    pub team1_score: Option<u64>,
    pub team2_score: Option<u64>,
    pub game_phase: Option<u64>,
    pub packet_number: Option<u64>,
    pub team1_message_budget: Option<u64>,
    pub team2_message_budget: Option<u64>,
    pub team1_packet_number: Option<u64>,
    pub team2_packet_number: Option<u64>,
    pub kicking_team: Option<u64>,
    pub team1_goalkeeper: Option<u64>,
    pub team2_goalkeeper: Option<u64>,
    pub team1_penalty_shot: Option<u64>,
    pub team1_single_shots: Option<u64>,
    pub team2_penalty_shot: Option<u64>,
    pub team2_single_shots: Option<u64>,
    pub secs_remaining: Option<i64>,
    pub secondary_time: Option<i64>,
    pub first_half: Option<bool>,
    pub stopped: Option<bool>,
    pub state: Option<String>,
    pub set_play: Option<String>,
}

/// The fields are those of a JSON value.
pub open spec fn fields_of(f: GameFields, tree: Json) -> bool {
    &&& f.team1_number == tree.unsigned_member("team1_number"@)
    &&& f.team2_number == tree.unsigned_member("team2_number"@)
    &&& f.team1_field_player_colour == tree.unsigned_member("team1_field_player_colour"@)
    &&& f.team2_field_player_colour == tree.unsigned_member("team2_field_player_colour"@)
    &&& f.team1_goalkeeper_colour == tree.unsigned_member("team1_goalkeeper_colour"@)
    &&& f.team2_goalkeeper_colour == tree.unsigned_member("team2_goalkeeper_colour"@)
    &&& f.team1_score == tree.unsigned_member("team1_score"@)
    &&& f.team2_score == tree.unsigned_member("team2_score"@)
    &&& f.game_phase == tree.unsigned_member("game_phase"@)
    &&& f.packet_number == tree.unsigned_member("packet_number"@)
    &&& f.team1_message_budget == tree.unsigned_member("team1_message_budget"@)
    &&& f.team2_message_budget == tree.unsigned_member("team2_message_budget"@)
    &&& f.team1_packet_number == tree.unsigned_member("team1_packet_number"@)
    &&& f.team2_packet_number == tree.unsigned_member("team2_packet_number"@)
    &&& f.kicking_team == tree.unsigned_member("kicking_team"@)
    &&& f.team1_goalkeeper == tree.unsigned_member("team1_goalkeeper"@)
    &&& f.team2_goalkeeper == tree.unsigned_member("team2_goalkeeper"@)
    &&& f.team1_penalty_shot == tree.unsigned_member("team1_penalty_shot"@)
    &&& f.team1_single_shots == tree.unsigned_member("team1_single_shots"@)
    &&& f.team2_penalty_shot == tree.unsigned_member("team2_penalty_shot"@)
    &&& f.team2_single_shots == tree.unsigned_member("team2_single_shots"@)
    &&& f.secs_remaining == tree.signed_member("secs_remaining"@)
    &&& f.secondary_time == tree.signed_member("secondary_time"@)
    &&& f.first_half == tree.boolean_member("first_half"@)
    &&& f.stopped == tree.boolean_member("stopped"@)
    &&& same_string(f.state, tree.text_member("state"@))
    &&& same_string(f.set_play, tree.text_member("set_play"@))
}

/// Read the fields of a game state packet.
pub fn read_game_fields(gs: &serde_json::Value) -> (f: GameFields)
    ensures
        fields_of(f, json::json_of(*gs)),
{
    GameFields {
        team1_number: json::u64_field(gs, "team1_number"),
        team2_number: json::u64_field(gs, "team2_number"),
        team1_field_player_colour: json::u64_field(gs, "team1_field_player_colour"),
        team2_field_player_colour: json::u64_field(gs, "team2_field_player_colour"),
        team1_goalkeeper_colour: json::u64_field(gs, "team1_goalkeeper_colour"),
        team2_goalkeeper_colour: json::u64_field(gs, "team2_goalkeeper_colour"),
        team1_score: json::u64_field(gs, "team1_score"),
        team2_score: json::u64_field(gs, "team2_score"),
        game_phase: json::u64_field(gs, "game_phase"),
        packet_number: json::u64_field(gs, "packet_number"),
        team1_message_budget: json::u64_field(gs, "team1_message_budget"),
        team2_message_budget: json::u64_field(gs, "team2_message_budget"),
        team1_packet_number: json::u64_field(gs, "team1_packet_number"),
        team2_packet_number: json::u64_field(gs, "team2_packet_number"),
        kicking_team: json::u64_field(gs, "kicking_team"),
        team1_goalkeeper: json::u64_field(gs, "team1_goalkeeper"),
        team2_goalkeeper: json::u64_field(gs, "team2_goalkeeper"),
        team1_penalty_shot: json::u64_field(gs, "team1_penalty_shot"),
        team1_single_shots: json::u64_field(gs, "team1_single_shots"),
        team2_penalty_shot: json::u64_field(gs, "team2_penalty_shot"),
        team2_single_shots: json::u64_field(gs, "team2_single_shots"),
        secs_remaining: json::i64_field(gs, "secs_remaining"),
        secondary_time: json::i64_field(gs, "secondary_time"),
        first_half: json::bool_field(gs, "first_half"),
        stopped: json::bool_field(gs, "stopped"),
        state: json::string_field(gs, "state"),
        set_play: json::string_field(gs, "set_play"),
    }
}
/// The low 32 bits of a packet number; 0 where it is missing.
pub open spec fn low32(v: Option<u64>) -> u32 {
    match v {
        Some(n) => n as u32,
        None => 0,
    }
}

/// The low 32 bits of a signed packet number, or a default.
pub open spec fn low32_or(v: Option<i64>, default: i64) -> i32 {
    match v {
        Some(n) => n as i32,
        None => default as i32,
    }
}

pub open spec fn flag_or(v: Option<bool>, default: bool) -> bool {
    match v {
        Some(b) => b,
        None => default,
    }
}

pub open spec fn text_or(v: Option<String>, default: Seq<char>) -> Seq<char> {
    match v {
        Some(s) => s@,
        None => default,
    }
}

/// Message budget: the team's own field, else the older per-team field, else
/// the packet counter, else 0.
pub open spec fn budget_of(own: Option<u64>, older: Option<u64>, counter: Option<u64>) -> u32 {
    if own is Some {
        low32(own)
    } else if older is Some {
        low32(older)
    } else {
        low32(counter)
    }
}

pub open spec fn byte_color(byte: Option<u64>) -> Option<JerseyColor> {
    match byte {
        Some(b) => teams::jersey_of_byte(b as u32),
        None => None,
    }
}

/// A configured jersey colour wins over the packet's.
pub open spec fn shown_color(configured: Option<JerseyColor>, byte: Option<u64>) -> Option<
    JerseyColor,
> {
    match configured {
        Some(c) => Some(c),
        None => byte_color(byte),
    }
}

/// A goalkeeper jersey shows only where its byte differs from the field
/// players'.
pub open spec fn shown_gk_color(gk: Option<u64>, field: Option<u64>) -> Option<JerseyColor> {
    match (gk, field) {
        (Some(g), Some(f)) => if g as u32 == f as u32 {
            None
        } else {
            byte_color(gk)
        },
        _ => byte_color(gk),
    }
}

/// The overlay that a packet's fields stand for.
pub open spec fn is_overlay_of(
    d: GameOverlayData,
    f: GameFields,
    teams: Map<u32, TeamInfo>,
) -> bool {
    &&& d.team1_number == low32(f.team1_number)
    &&& d.team2_number == low32(f.team2_number)
    &&& d.team1_name@ == teams::team_name(teams, d.team1_number)
    &&& d.team2_name@ == teams::team_name(teams, d.team2_number)
    &&& d.team1_color == shown_color(
        teams::team_color(teams, d.team1_number),
        f.team1_field_player_colour,
    )
    &&& d.team2_color == shown_color(
        teams::team_color(teams, d.team2_number),
        f.team2_field_player_colour,
    )
    &&& d.team1_goalkeeper_color == shown_gk_color(
        f.team1_goalkeeper_colour,
        f.team1_field_player_colour,
    )
    &&& d.team2_goalkeeper_color == shown_gk_color(
        f.team2_goalkeeper_colour,
        f.team2_field_player_colour,
    )
    &&& d.team1_score == low32(f.team1_score)
    &&& d.team2_score == low32(f.team2_score)
    &&& d.first_half == flag_or(f.first_half, true)
    &&& d.secs_remaining == low32_or(f.secs_remaining, 600)
    &&& d.game_phase == low32(f.game_phase)
    &&& d.packet_number == low32(f.packet_number)
    &&& d.team1_message_budget == budget_of(
        f.team1_message_budget,
        f.team1_packet_number,
        f.packet_number,
    )
    &&& d.team2_message_budget == budget_of(
        f.team2_message_budget,
        f.team2_packet_number,
        f.packet_number,
    )
    &&& d.state@ == text_or(f.state, "INITIAL"@)
    &&& d.set_play@ == text_or(f.set_play, "NONE"@)
    &&& d.kicking_team == (if low32(f.kicking_team) == KICKING_TEAM_NONE {
        0
    } else {
        low32(f.kicking_team)
    })
    &&& d.field_name@ == "FIELD A"@
    &&& d.is_live
    &&& d.stopped == flag_or(f.stopped, false)
    &&& d.secondary_time == low32_or(f.secondary_time, 0)
    &&& d.team1_goalkeeper == low32(f.team1_goalkeeper)
    &&& d.team2_goalkeeper == low32(f.team2_goalkeeper)
    &&& d.team1_penalty_shot == low32(f.team1_penalty_shot)
    &&& d.team1_single_shots == low32(f.team1_single_shots)
    &&& d.team2_penalty_shot == low32(f.team2_penalty_shot)
    &&& d.team2_single_shots == low32(f.team2_single_shots)
    &&& d.team1_penalties@.len() == 0
    &&& d.team2_penalties@.len() == 0
}

fn u32_or_zero(v: Option<u64>) -> (r: u32)
    ensures
        r == low32(v),
{
    match v {
        Some(n) => n as u32,
        None => 0,
    }
}

fn i32_or(v: Option<i64>, default: i64) -> (r: i32)
    ensures
        r == low32_or(v, default),
{
    match v {
        Some(n) => n as i32,
        None => default as i32,
    }
}

fn message_budget(own: Option<u64>, older: Option<u64>, counter: Option<u64>) -> (r: u32)
    ensures
        r == budget_of(own, older, counter),
{
    if own.is_some() {
        u32_or_zero(own)
    } else if older.is_some() {
        u32_or_zero(older)
    } else {
        u32_or_zero(counter)
    }
}

fn packet_color(byte: Option<u64>) -> (c: Option<JerseyColor>)
    ensures
        c == byte_color(byte),
{
    match byte {
        Some(b) => team_colour_byte_to_rgb(b as u32),
        None => None,
    }
}

fn jersey_color(configured: Option<JerseyColor>, byte: Option<u64>) -> (c: Option<JerseyColor>)
    ensures
        c == shown_color(configured, byte),
{
    match configured {
        Some(c) => Some(c),
        None => packet_color(byte),
    }
}

fn goalkeeper_color(gk: Option<u64>, field: Option<u64>) -> (c: Option<JerseyColor>)
    ensures
        c == shown_gk_color(gk, field),
{
    match (gk, field) {
        (Some(g), Some(f)) => if g as u32 == f as u32 {
            None
        } else {
            packet_color(gk)
        },
        _ => packet_color(gk),
    }
}

fn string_or(v: &Option<String>, default: &str) -> (s: String)
    ensures
        s@ == text_or(*v, default@),
{
    match v {
        Some(s) => s.clone(),
        None => default.to_owned(),
    }
}

/// Turn the fields of a packet into overlay data.
pub fn overlay_from_fields(f: &GameFields, teams: &TeamsMap) -> (d: GameOverlayData)
    ensures
        is_overlay_of(d, *f, teams@),
{
    let team1_number: u32 = u32_or_zero(f.team1_number);
    let team2_number: u32 = u32_or_zero(f.team2_number);
    let kicking_team: u32 = u32_or_zero(f.kicking_team);
    GameOverlayData {
        team1_name: resolve_team_name(teams, team1_number),
        team2_name: resolve_team_name(teams, team2_number),
        team1_color: jersey_color(
            resolve_team_color(teams, team1_number),
            f.team1_field_player_colour,
        ),
        team2_color: jersey_color(
            resolve_team_color(teams, team2_number),
            f.team2_field_player_colour,
        ),
        team1_score: u32_or_zero(f.team1_score),
        team2_score: u32_or_zero(f.team2_score),
        team1_number,
        team2_number,
        first_half: f.first_half.unwrap_or(true),
        secs_remaining: i32_or(f.secs_remaining, 600),
        game_phase: u32_or_zero(f.game_phase),
        packet_number: u32_or_zero(f.packet_number),
        team1_message_budget: message_budget(
            f.team1_message_budget,
            f.team1_packet_number,
            f.packet_number,
        ),
        team2_message_budget: message_budget(
            f.team2_message_budget,
            f.team2_packet_number,
            f.packet_number,
        ),
        state: string_or(&f.state, "INITIAL"),
        set_play: string_or(&f.set_play, "NONE"),
        kicking_team: if kicking_team == KICKING_TEAM_NONE {
            0
        } else {
            kicking_team
        },
        field_name: "FIELD A".to_owned(),
        is_live: true,
        stopped: f.stopped.unwrap_or(false),
        secondary_time: i32_or(f.secondary_time, 0),
        team1_goalkeeper: u32_or_zero(f.team1_goalkeeper),
        team2_goalkeeper: u32_or_zero(f.team2_goalkeeper),
        team1_goalkeeper_color: goalkeeper_color(
            f.team1_goalkeeper_colour,
            f.team1_field_player_colour,
        ),
        team2_goalkeeper_color: goalkeeper_color(
            f.team2_goalkeeper_colour,
            f.team2_field_player_colour,
        ),
        team1_penalty_shot: u32_or_zero(f.team1_penalty_shot),
        team1_single_shots: u32_or_zero(f.team1_single_shots),
        team2_penalty_shot: u32_or_zero(f.team2_penalty_shot),
        team2_single_shots: u32_or_zero(f.team2_single_shots),
        team1_penalties: Vec::new(),
        team2_penalties: Vec::new(),
    }
}

/// Turn a game state packet into overlay data.
pub fn parse_game_state(gs: &serde_json::Value, teams: &TeamsMap) -> (d: GameOverlayData)
    ensures
        exists|f: GameFields| #[trigger]
            fields_of(f, json::json_of(*gs)) && is_overlay_of(d, f, teams@),
{
    let f: GameFields = read_game_fields(gs);
    let d: GameOverlayData = overlay_from_fields(&f, teams);
    assert(fields_of(f, json::json_of(*gs)) && is_overlay_of(d, f, teams@));
    d
}

// Penalty packets.

/// What a penalty card says.
pub struct Card {
    pub player_number: u32,
    pub penalty_reason: Seq<char>,
    pub secs_remaining: u32,
}

impl View for PenaltyCard {
    type V = Card;

    open spec fn view(&self) -> Card {
        Card {
            player_number: self.player_number,
            penalty_reason: self.penalty_reason@,
            secs_remaining: self.secs_remaining,
        }
    }
}

/// What a list of penalty cards says.
pub open spec fn cards(list: Seq<PenaltyCard>) -> Seq<Card> {
    list.map_values(|c: PenaltyCard| c@)
}

/// The fields of one entry of a penalty packet.
#[derive(Debug, Clone)]
pub struct PenaltyFields {
    pub penalty_code: Option<u64>,
    pub player_number: Option<u64>,
    pub penalty_reason: Option<String>,
    pub secs_remaining: Option<u64>,
}

/// Code 0 means that the robot is not penalised.
pub open spec fn is_active(f: PenaltyFields) -> bool {
    f.penalty_code matches Some(code) && code != 0
}

pub open spec fn card_of(f: PenaltyFields) -> Card {
    Card {
        player_number: low32(f.player_number),
        penalty_reason: text_or(f.penalty_reason, Seq::empty()),
        secs_remaining: low32(f.secs_remaining),
    }
}

/// `a` is shown before `b`: it has longer to go, or as long and the smaller
/// player number.
pub open spec fn shown_before(a: Card, b: Card) -> bool {
    a.secs_remaining > b.secs_remaining || (a.secs_remaining == b.secs_remaining
        && a.player_number < b.player_number)
}

/// The first position from `from` on whose card `c` is shown before.
pub open spec fn place_for(list: Seq<Card>, c: Card, from: int) -> int
    decreases list.len() - from,
{
    if from >= list.len() || from < 0 || shown_before(c, list[from]) {
        from
    } else {
        place_for(list, c, from + 1)
    }
}

/// The active cards of the first `n` entries in display order. Cards that tie
/// keep the order of the packet.
pub open spec fn shown_cards(entries: Seq<PenaltyFields>, n: int) -> Seq<Card>
    decreases n,
{
    if n <= 0 {
        Seq::empty()
    } else {
        let before = shown_cards(entries, n - 1);
        if is_active(entries[n - 1]) {
            let c = card_of(entries[n - 1]);
            before.insert(place_for(before, c, 0), c)
        } else {
            before
        }
    }
}

pub(crate) proof fn lemma_place_in_range(list: Seq<Card>, c: Card, from: int)
    requires
        0 <= from <= list.len(),
    ensures
        from <= place_for(list, c, from) <= list.len(),
        place_for(list, c, from) < list.len() ==> shown_before(c, list[place_for(list, c, from)]),
        forall|i: int| from <= i < place_for(list, c, from) ==> !shown_before(c, #[trigger] list[i]),
    decreases list.len() - from,
{
    if from < list.len() && !shown_before(c, list[from]) {
        lemma_place_in_range(list, c, from + 1);
    }
}

/// Cards come longest first, ties by player number.
pub open spec fn in_display_order(list: Seq<Card>) -> bool {
    forall|i: int, j: int|
        0 <= i < j < list.len() ==> !shown_before(#[trigger] list[j], #[trigger] list[i])
}

/// The cards of a packet are in display order, whatever order it lists them
/// in, and there is one for each active entry.
pub proof fn law_cards_in_display_order(entries: Seq<PenaltyFields>, n: int)
    requires
        0 <= n <= entries.len(),
    ensures
        in_display_order(shown_cards(entries, n)),
        shown_cards(entries, n).to_multiset() == entries.take(n).filter(
            |f: PenaltyFields| is_active(f),
        ).map_values(|f: PenaltyFields| card_of(f)).to_multiset(),
    decreases n,
{
    broadcast use vstd::seq_lib::group_to_multiset_ensures;

    let active = |f: PenaltyFields| is_active(f);
    let card = |f: PenaltyFields| card_of(f);
    if n > 0 {
        law_cards_in_display_order(entries, n - 1);
        let before = shown_cards(entries, n - 1);
        let last = entries[n - 1];
        assert(entries.take(n).drop_last() =~= entries.take(n - 1));
        assert(entries.take(n).last() == last);
        reveal(Seq::filter);
        let kept = entries.take(n - 1).filter(active);
        if is_active(last) {
            let c = card_of(last);
            let at = place_for(before, c, 0);
            lemma_place_in_range(before, c, 0);
            let after = before.insert(at, c);
            assert(in_display_order(after)) by {
                assert forall|i: int, j: int| 0 <= i < j < after.len() implies !shown_before(
                    #[trigger] after[j],
                    #[trigger] after[i],
                ) by {
                    let old_i = if i < at {
                        i
                    } else {
                        i - 1
                    };
                    let old_j = if j < at {
                        j
                    } else {
                        j - 1
                    };
                    if i == at {
                        assert(after[j] == before[old_j]);
                        if old_j > at {
                            assert(!shown_before(before[old_j], before[at]));
                        }
                    } else if j == at {
                        assert(after[i] == before[old_i]);
                    } else {
                        assert(after[i] == before[old_i]);
                        assert(after[j] == before[old_j]);
                    }
                }
            }
            vstd::seq_lib::to_multiset_insert(before, at, c);
            assert(kept.push(last).map_values(card) =~= kept.map_values(card).push(c));
        }
    } else {
        assert(entries.take(0) =~= Seq::<PenaltyFields>::empty());
        reveal(Seq::filter);
        assert(entries.take(0).filter(active).map_values(card) =~= Seq::<Card>::empty());
    }
}

/// Build the penalty cards of a team from the entries of a packet.
pub fn cards_from_fields(entries: &Vec<PenaltyFields>) -> (list: Vec<PenaltyCard>)
    ensures
        cards(list@) == shown_cards(entries@, entries@.len() as int),
{
    let mut list: Vec<PenaltyCard> = Vec::new();
    let mut n: usize = 0;
    assert(cards(list@) =~= shown_cards(entries@, 0));
    while n < entries.len()
        invariant
            n <= entries@.len(),
            cards(list@) == shown_cards(entries@, n as int),
        decreases entries@.len() - n,
    {
        let f: &PenaltyFields = &entries[n];
        let active: bool = match f.penalty_code {
            Some(code) => code != 0,
            None => false,
        };
        if active {
            assert(""@ =~= Seq::<char>::empty()) by {
                reveal_strlit("");
            }
            let card = PenaltyCard {
                player_number: u32_or_zero(f.player_number),
                penalty_reason: string_or(&f.penalty_reason, ""),
                secs_remaining: u32_or_zero(f.secs_remaining),
            };
            let ghost before = cards(list@);
            let ghost c = card@;
            let mut at: usize = 0;
            while at < list.len() && !(card.secs_remaining > list[at].secs_remaining || (
            card.secs_remaining == list[at].secs_remaining && card.player_number
                < list[at].player_number))
                invariant
                    at <= list@.len(),
                    before == cards(list@),
                    c == card@,
                    place_for(before, c, 0) == place_for(before, c, at as int),
                decreases list@.len() - at,
            {
                assert(before[at as int] == list@[at as int]@);
                at = at + 1;
            }
            proof {
                if at < list@.len() {
                    assert(before[at as int] == list@[at as int]@);
                }
            }
            list.insert(at, card);
            assert(cards(list@) =~= before.insert(at as int, c));
        }
        n = n + 1;
    }
    list
}

/// The fields of a penalty entry are those of a JSON value.
pub open spec fn penalty_fields_of(f: PenaltyFields, tree: Json) -> bool {
    &&& f.penalty_code == tree.unsigned_member("penalty_code"@)
    &&& f.player_number == tree.unsigned_member("player_number"@)
    &&& same_string(f.penalty_reason, tree.text_member("penalty_reason"@))
    &&& f.secs_remaining == tree.unsigned_member("secs_remaining"@)
}

/// The penalty entries of one team; none where the packet has no such list.
pub open spec fn entries_of(entries: Seq<PenaltyFields>, packet: Json, key: Seq<char>) -> bool {
    let list = match packet.member(key) {
        Some(v) => v.list(),
        None => None,
    };
    match list {
        Some(items) => entries.len() == items.len() && (forall|i: int|
            #![trigger entries[i]]
            0 <= i < entries.len() ==> penalty_fields_of(entries[i], items[i])),
        None => entries.len() == 0,
    }
}

fn read_penalty_entries(p: &serde_json::Value, key: &str) -> (entries: Vec<PenaltyFields>)
    ensures
        entries_of(entries@, json::json_of(*p), key@),
{
    let mut entries: Vec<PenaltyFields> = Vec::new();
    match json::field(p, key) {
        None => {},
        Some(v) => match v.as_array() {
            None => {},
            Some(items) => {
                let ghost trees = items@.map_values(|x: serde_json::Value| json::json_of(x));
                let mut i: usize = 0;
                while i < items.len()
                    invariant
                        i <= items@.len(),
                        entries@.len() == i,
                        trees == items@.map_values(|x: serde_json::Value| json::json_of(x)),
                        forall|j: int|
                            #![trigger entries@[j]]
                            0 <= j < i ==> penalty_fields_of(entries@[j], trees[j]),
                    decreases items@.len() - i,
                {
                    let e: &serde_json::Value = &items[i];
                    assert(trees[i as int] == json::json_of(*e));
                    entries.push(
                        PenaltyFields {
                            penalty_code: json::u64_field(e, "penalty_code"),
                            player_number: json::u64_field(e, "player_number"),
                            penalty_reason: json::string_field(e, "penalty_reason"),
                            secs_remaining: json::u64_field(e, "secs_remaining"),
                        },
                    );
                    i = i + 1;
                }
            },
        },
    }
    entries
}

/// The cards of one team in a packet.
pub open spec fn team_cards(list: Seq<PenaltyCard>, packet: Json, key: Seq<char>) -> bool {
    exists|entries: Seq<PenaltyFields>| #[trigger]
        entries_of(entries, packet, key) && cards(list) == shown_cards(
            entries,
            entries.len() as int,
        )
}

/// Turn a penalty packet into the cards of both teams.
pub fn parse_penalties(p: &serde_json::Value) -> (r: (Vec<PenaltyCard>, Vec<PenaltyCard>))
    ensures
        team_cards(r.0@, json::json_of(*p), "team1_penalties"@),
        team_cards(r.1@, json::json_of(*p), "team2_penalties"@),
{
    let team1: Vec<PenaltyFields> = read_penalty_entries(p, "team1_penalties");
    let team2: Vec<PenaltyFields> = read_penalty_entries(p, "team2_penalties");
    let cards1: Vec<PenaltyCard> = cards_from_fields(&team1);
    let cards2: Vec<PenaltyCard> = cards_from_fields(&team2);
    assert(entries_of(team1@, json::json_of(*p), "team1_penalties"@));
    assert(entries_of(team2@, json::json_of(*p), "team2_penalties"@));
    (cards1, cards2)
}

// Merging packets into the overlay.

/// `after` shows `data`, with the penalty cards and field name of `before`.
pub open spec fn merged(
    before: GameOverlayData,
    data: GameOverlayData,
    after: GameOverlayData,
) -> bool {
    after == (GameOverlayData {
        team1_penalties: before.team1_penalties,
        team2_penalties: before.team2_penalties,
        field_name: before.field_name,
        ..data
    })
}

/// Show a new game state. Packets carry neither penalty cards nor the
/// configured field name, so those stay.
pub fn apply_game_state(overlay: &mut GameOverlayData, data: GameOverlayData)
    ensures
        merged(*old(overlay), data, *final(overlay)),
{
    let mut next: GameOverlayData = data;
    std::mem::swap(&mut next.team1_penalties, &mut overlay.team1_penalties);
    std::mem::swap(&mut next.team2_penalties, &mut overlay.team2_penalties);
    std::mem::swap(&mut next.field_name, &mut overlay.field_name);
    *overlay = next;
}

/// What a message does to the overlay.
pub open spec fn packet_applied(
    before: GameOverlayData,
    topic: Seq<char>,
    payload: Seq<char>,
    teams: Map<u32, TeamInfo>,
    after: GameOverlayData,
) -> bool {
    match json::json_text(payload) {
        None => after == before,
        Some(tree) => if topic == "telemetry.game_state"@ {
            exists|f: GameFields, d: GameOverlayData|
                #![trigger fields_of(f, tree), merged(before, d, after)]
                fields_of(f, tree) && is_overlay_of(d, f, teams) && merged(before, d, after)
        } else if topic == "telemetry.penalties"@ {
            &&& team_cards(after.team1_penalties@, tree, "team1_penalties"@)
            &&& team_cards(after.team2_penalties@, tree, "team2_penalties"@)
            &&& after == (GameOverlayData {
                team1_penalties: after.team1_penalties,
                team2_penalties: after.team2_penalties,
                ..before
            })
        } else {
            after == before
        },
    }
}

/// Apply a message from the game controller bus: game states and penalties
/// are shown, anything else is left alone.
pub fn apply_message(overlay: &mut GameOverlayData, topic: &str, payload: &str, teams: &TeamsMap)
    ensures
        packet_applied(*old(overlay), topic@, payload@, teams@, *final(overlay)),
{
    match json::parse_json(payload) {
        Err(_) => {},
        Ok(v) => {
            let ghost tree = json::json_of(v);
            if text::same_text(topic, "telemetry.game_state") {
                let f: GameFields = read_game_fields(&v);
                let d: GameOverlayData = overlay_from_fields(&f, teams);
                let ghost shown = d;
                apply_game_state(overlay, d);
                assert(fields_of(f, tree) && is_overlay_of(shown, f, teams@) && merged(
                    *old(overlay),
                    shown,
                    *overlay,
                ));
            } else if text::same_text(topic, "telemetry.penalties") {
                let (team1, team2) = parse_penalties(&v);
                overlay.team1_penalties = team1;
                overlay.team2_penalties = team2;
            }
        },
    }
}

/// Change the field name where an update carries one.
pub fn apply_overlay_update(overlay: &mut GameOverlayData, update: &serde_json::Value)
    ensures
        match json::json_of(*update).text_member("field_name"@) {
            Some(name) => final(overlay).field_name@ == name && *final(overlay) == (
            GameOverlayData { field_name: final(overlay).field_name, ..*old(overlay) }),
            None => *final(overlay) == *old(overlay),
        },
{
    match json::string_field(update, "field_name") {
        Some(name) => {
            overlay.field_name = name;
        },
        None => {},
    }
}

/// A game state packet changes neither the penalty cards nor the field name,
/// and a penalty packet changes nothing else.
pub proof fn law_packets_keep_what_they_lack(
    before: GameOverlayData,
    topic: Seq<char>,
    payload: Seq<char>,
    teams: Map<u32, TeamInfo>,
    after: GameOverlayData,
)
    requires
        packet_applied(before, topic, payload, teams, after),
    ensures
        after.field_name == before.field_name,
        topic != "telemetry.penalties"@ ==> after.team1_penalties == before.team1_penalties
            && after.team2_penalties == before.team2_penalties,
        topic != "telemetry.game_state"@ ==> after.team1_score == before.team1_score
            && after.team2_score == before.team2_score && after.secs_remaining
            == before.secs_remaining && after.state == before.state,
{
    reveal_strlit("telemetry.game_state");
    reveal_strlit("telemetry.penalties");
    assert("telemetry.game_state"@[10] != "telemetry.penalties"@[10]);
}

// Texts.

/// Minutes and seconds of a clock, with a hyphen before a negative one.
pub open spec fn mm_ss(secs: int) -> Seq<char> {
    if secs < 0 {
        seq!['-'] + mm_ss_of((-secs) as nat)
    } else {
        mm_ss_of(secs as nat)
    }
}

pub open spec fn mm_ss_of(secs: nat) -> Seq<char> {
    text::decimal2(secs / 60) + seq![':'] + text::decimal2(secs % 60)
}

fn push_mm_ss(out: &mut String, secs: u64)
    ensures
        final(out)@ == old(out)@ + mm_ss_of(secs as nat),
{
    text::push_decimal2(out, secs / 60);
    out.push(':');
    text::push_decimal2(out, secs % 60);
    assert(out@ =~= old(out)@ + mm_ss_of(secs as nat));
}

/// Format a clock as `MM:SS`.
pub fn format_mm_ss(secs: i32) -> (s: String)
    ensures
        s@ == mm_ss(secs as int),
{
    let mut out: String = String::new();
    if secs < 0 {
        out.push('-');
        push_mm_ss(&mut out, (-(secs as i64)) as u64);
    } else {
        push_mm_ss(&mut out, secs as u64);
    }
    assert(out@ =~= mm_ss(secs as int));
    out
}

/// Format a message budget, as in `msg 1200`.
pub fn format_message_budget(budget: u32) -> (s: String)
    ensures
        s@ == "msg "@ + text::decimal(budget as nat),
{
    let mut out: String = "msg ".to_owned();
    text::push_decimal(&mut out, budget as u64);
    out
}

/// The phase label: the half, after `ET` in overtime, or `shootout`. A timeout
/// or an unknown phase shows the half.
pub open spec fn phase_label(phase: u32, first_half: bool) -> Seq<char> {
    if phase == GAME_PHASE_PENALTY_SHOOTOUT {
        "shootout"@
    } else if phase == GAME_PHASE_OVERTIME {
        if first_half {
            "ET 1st"@
        } else {
            "ET 2nd"@
        }
    } else {
        if first_half {
            "1st"@
        } else {
            "2nd"@
        }
    }
}

/// Format the phase label.
pub fn format_game_phase(data: &GameOverlayData) -> (s: String)
    ensures
        s@ == phase_label(data.game_phase, data.first_half),
{
    if data.game_phase == GAME_PHASE_PENALTY_SHOOTOUT {
        "shootout".to_owned()
    } else if data.game_phase == GAME_PHASE_OVERTIME {
        if data.first_half {
            "ET 1st".to_owned()
        } else {
            "ET 2nd".to_owned()
        }
    } else if data.first_half {
        "1st".to_owned()
    } else {
        "2nd".to_owned()
    }
}

/// What `str::to_lowercase` makes of a text.
pub uninterp spec fn lowercase(text: Seq<char>) -> Seq<char>;

/// `str::to_lowercase` of the standard library maps a text to lower case by
/// the Unicode tables. The result is a function of the text.
#[verifier::external_body]
fn to_lower(text: &str) -> (s: String)
    ensures
        s@ == lowercase(text@),
{
    text.to_lowercase()
}

/// The team that kicks next: nobody for 0, `unknown` for a number neither
/// team has.
pub open spec fn kicker(data: GameOverlayData) -> Option<Seq<char>> {
    if data.kicking_team == 0 {
        None
    } else if data.kicking_team == data.team1_number {
        Some(data.team1_name@)
    } else if data.kicking_team == data.team2_number {
        Some(data.team2_name@)
    } else {
        Some("unknown"@)
    }
}

/// A text with each underscore replaced by a space.
pub open spec fn spaced(text: Seq<char>) -> Seq<char> {
    text.map_values(
        |c: char|
            if c == '_' {
                ' '
            } else {
                c
            },
    )
}

/// What follows the state: the set play or the kickoff, and who takes it.
pub open spec fn play_suffix(data: GameOverlayData, play_lower: Seq<char>) -> Seq<char> {
    let by = match kicker(data) {
        Some(k) => " for "@ + k,
        None => Seq::empty(),
    };
    if data.set_play@ != "NONE"@ {
        ", "@ + spaced(play_lower) + by
    } else if data.state@ == "READY"@ || data.state@ == "SET"@ {
        if kicker(data) is Some {
            ", kickoff"@ + by
        } else {
            Seq::empty()
        }
    } else {
        Seq::empty()
    }
}

/// The state line, from the state and the set play in lower case. A running
/// secondary clock is appended.
pub open spec fn state_line_of(
    data: GameOverlayData,
    state_lower: Seq<char>,
    play_lower: Seq<char>,
) -> Seq<char> {
    state_lower + play_suffix(data, play_lower) + (if data.secondary_time > 0 {
        " - "@ + mm_ss_of(data.secondary_time as nat)
    } else {
        Seq::empty()
    })
}

fn push_spaced(out: &mut String, text: &str)
    ensures
        final(out)@ == old(out)@ + spaced(text@),
{
    let n: usize = text.unicode_len();
    let mut i: usize = 0;
    assert(out@ =~= old(out)@ + spaced(text@).take(0));
    while i < n
        invariant
            i <= n == text@.len(),
            out@ == old(out)@ + spaced(text@).take(i as int),
        decreases n - i,
    {
        let c: char = text.get_char(i);
        if c == '_' {
            out.push(' ');
        } else {
            out.push(c);
        }
        assert(out@ =~= old(out)@ + spaced(text@).take(i + 1));
        i = i + 1;
    }
    assert(spaced(text@).take(n as int) =~= spaced(text@));
}

fn push_kicker(out: &mut String, data: &GameOverlayData)
    ensures
        final(out)@ == old(out)@ + (match kicker(*data) {
            Some(k) => " for "@ + k,
            None => Seq::empty(),
        }),
{
    if data.kicking_team != 0 {
        out.append(" for ");
        if data.kicking_team == data.team1_number {
            out.append(data.team1_name.as_str());
        } else if data.kicking_team == data.team2_number {
            out.append(data.team2_name.as_str());
        } else {
            out.append("unknown");
        }
    }
    assert(out@ =~= old(out)@ + (match kicker(*data) {
        Some(k) => " for "@ + k,
        None => Seq::empty(),
    }));
}

/// Put the state line together from the state and the set play in lower case.
pub fn state_line(data: &GameOverlayData, state_lower: &str, play_lower: &str) -> (s: String)
    ensures
        s@ == state_line_of(*data, state_lower@, play_lower@),
{
    let mut out: String = state_lower.to_owned();
    if !text::same_text(data.set_play.as_str(), "NONE") {
        out.append(", ");
        push_spaced(&mut out, play_lower);
        push_kicker(&mut out, data);
    } else if text::same_text(data.state.as_str(), "READY") || text::same_text(
        data.state.as_str(),
        "SET",
    ) {
        if data.kicking_team != 0 {
            out.append(", kickoff");
            push_kicker(&mut out, data);
        }
    }
    assert(out@ =~= state_lower@ + play_suffix(*data, play_lower@));
    if data.secondary_time > 0 {
        out.append(" - ");
        push_mm_ss(&mut out, data.secondary_time as u64);
    }
    assert(out@ =~= state_line_of(*data, state_lower@, play_lower@));
    out
}

/// Format the state line, as in `ready, kickoff for B-Human - 00:21`.
pub fn format_state_line(data: &GameOverlayData) -> (s: String)
    ensures
        s@ == state_line_of(*data, lowercase(data.state@), lowercase(data.set_play@)),
{
    let state_lower: String = to_lower(data.state.as_str());
    let play_lower: String = to_lower(data.set_play.as_str());
    state_line(data, state_lower.as_str(), play_lower.as_str())
}

// Shoot-out dots.

/// One attempt of a shoot-out.
#[derive(Debug, Clone, Copy, PartialEq, Eq, Structural)]
pub enum DotState {
    Scored,
    Missed,
    Upcoming,
}

/// How many dots each team's row has: as many as the leader has attempts, up
/// to the cap.
pub fn shootout_total_dots(team1_penalty_shot: u32, team2_penalty_shot: u32) -> (n: u32)
    ensures
        n <= SHOOTOUT_DOT_CAP,
        n <= team1_penalty_shot || n <= team2_penalty_shot,
        n == SHOOTOUT_DOT_CAP || (n >= team1_penalty_shot && n >= team2_penalty_shot),
{
    let most: u32 = if team1_penalty_shot >= team2_penalty_shot {
        team1_penalty_shot
    } else {
        team2_penalty_shot
    };
    if most <= SHOOTOUT_DOT_CAP {
        most
    } else {
        SHOOTOUT_DOT_CAP
    }
}

/// Attempt `i` of a team that has taken `penalty_shot` attempts.
pub open spec fn dot(penalty_shot: u32, single_shots: u32, i: int) -> DotState {
    if i >= penalty_shot {
        DotState::Upcoming
    } else if single_shots & (1u32 << (i as u32)) != 0 {
        DotState::Scored
    } else {
        DotState::Missed
    }
}

/// The dots of one team.
pub fn shootout_dot_states(penalty_shot: u32, single_shots: u32, total: u32) -> (dots: Vec<
    DotState,
>)
    requires
        total <= 32,
    ensures
        dots@ == Seq::new(total as nat, |i: int| dot(penalty_shot, single_shots, i)),
{
    let mut dots: Vec<DotState> = Vec::new();
    let mut i: u32 = 0;
    while i < total
        invariant
            i <= total <= 32,
            dots@ == Seq::new(i as nat, |k: int| dot(penalty_shot, single_shots, k)),
        decreases total - i,
    {
        let state: DotState = if i >= penalty_shot {
            DotState::Upcoming
        } else if single_shots & (1u32 << i) != 0 {
            DotState::Scored
        } else {
            DotState::Missed
        };
        dots.push(state);
        i = i + 1;
        assert(dots@ =~= Seq::new(i as nat, |k: int| dot(penalty_shot, single_shots, k)));
    }
    dots
}

// The scoreboard.

/// A penalty tile for a card. The goalkeeper is marked.
pub open spec fn is_tile_of(t: PenaltyTile, c: PenaltyCard, goalkeeper: u32) -> bool {
    &&& t.player_number == c.player_number
    &&& t.secs_remaining == c.secs_remaining
    &&& t.penalty_reason@ == c.penalty_reason@
    &&& t.is_goalkeeper == (goalkeeper != 0 && c.player_number == goalkeeper)
}

pub open spec fn are_tiles_of(
    tiles: Seq<PenaltyTile>,
    list: Seq<PenaltyCard>,
    goalkeeper: u32,
) -> bool {
    &&& tiles.len() == list.len()
    &&& forall|i: int|
        #![trigger tiles[i]]
        0 <= i < tiles.len() ==> is_tile_of(tiles[i], list[i], goalkeeper)
}

fn penalty_tiles(list: &Vec<PenaltyCard>, goalkeeper: u32) -> (tiles: Vec<PenaltyTile>)
    ensures
        are_tiles_of(tiles@, list@, goalkeeper),
{
    let mut tiles: Vec<PenaltyTile> = Vec::new();
    let mut i: usize = 0;
    while i < list.len()
        invariant
            i <= list@.len(),
            tiles@.len() == i,
            forall|k: int|
                #![trigger tiles@[k]]
                0 <= k < i ==> is_tile_of(tiles@[k], list@[k], goalkeeper),
        decreases list@.len() - i,
    {
        tiles.push(
            PenaltyTile {
                player_number: list[i].player_number,
                secs_remaining: list[i].secs_remaining,
                penalty_reason: list[i].penalty_reason.clone(),
                is_goalkeeper: goalkeeper != 0 && list[i].player_number == goalkeeper,
            },
        );
        i = i + 1;
    }
    tiles
}

pub open spec fn pixel_color(c: Option<JerseyColor>) -> Option<crate::renderer::color::Rgba> {
    match c {
        Some(v) => Some(teams::rgba_of(v)),
        None => None,
    }
}

/// The scoreboard that shows a match at a wall-clock time.
pub open spec fn is_scoreboard_of(
    s: ScoreboardState,
    data: GameOverlayData,
    clock_text: Seq<char>,
) -> bool {
    &&& s.field_name@ == data.field_name@
    &&& s.clock_text@ == clock_text
    &&& s.home_team_name@ == data.team1_name@
    &&& s.away_team_name@ == data.team2_name@
    &&& s.home_team_color == pixel_color(data.team1_color)
    &&& s.away_team_color == pixel_color(data.team2_color)
    &&& s.home_team_goalkeeper_color == pixel_color(data.team1_goalkeeper_color)
    &&& s.away_team_goalkeeper_color == pixel_color(data.team2_goalkeeper_color)
    &&& s.home_score == data.team1_score
    &&& s.away_score == data.team2_score
    &&& s.game_clock_text@ == mm_ss(data.secs_remaining as int)
    &&& s.clock_stopped == data.stopped
    &&& s.phase_text@ == phase_label(data.game_phase, data.first_half)
    &&& s.state_text@ == state_line_of(data, lowercase(data.state@), lowercase(data.set_play@))
    &&& s.home_message_budget == data.team1_message_budget
    &&& s.away_message_budget == data.team2_message_budget
    &&& s.shootout == (if data.game_phase == GAME_PHASE_PENALTY_SHOOTOUT {
        Some(
            ShootoutState {
                home_penalty_shot: data.team1_penalty_shot,
                home_single_shots: data.team1_single_shots,
                away_penalty_shot: data.team2_penalty_shot,
                away_single_shots: data.team2_single_shots,
            },
        )
    } else {
        None
    })
    &&& are_tiles_of(s.home_penalty_timers@, data.team1_penalties@, data.team1_goalkeeper)
    &&& are_tiles_of(s.away_penalty_timers@, data.team2_penalties@, data.team2_goalkeeper)
}

/// Turn a match into a scoreboard, at the wall-clock time `clock_text`.
pub fn scoreboard_state_at(data: &GameOverlayData, clock_text: String) -> (s: ScoreboardState)
    ensures
        is_scoreboard_of(s, *data, clock_text@),
{
    let shootout: Option<ShootoutState> = if data.game_phase == GAME_PHASE_PENALTY_SHOOTOUT {
        Some(
            ShootoutState {
                home_penalty_shot: data.team1_penalty_shot,
                home_single_shots: data.team1_single_shots,
                away_penalty_shot: data.team2_penalty_shot,
                away_single_shots: data.team2_single_shots,
            },
        )
    } else {
        None
    };
    ScoreboardState {
        field_name: data.field_name.clone(),
        clock_text,
        home_team_name: data.team1_name.clone(),
        away_team_name: data.team2_name.clone(),
        home_team_color: teams::to_rgba(data.team1_color),
        away_team_color: teams::to_rgba(data.team2_color),
        home_team_goalkeeper_color: teams::to_rgba(data.team1_goalkeeper_color),
        away_team_goalkeeper_color: teams::to_rgba(data.team2_goalkeeper_color),
        home_score: data.team1_score,
        away_score: data.team2_score,
        game_clock_text: format_mm_ss(data.secs_remaining),
        clock_stopped: data.stopped,
        phase_text: format_game_phase(data),
        state_text: format_state_line(data),
        home_message_budget: data.team1_message_budget,
        away_message_budget: data.team2_message_budget,
        shootout,
        home_penalty_timers: penalty_tiles(&data.team1_penalties, data.team1_goalkeeper),
        away_penalty_timers: penalty_tiles(&data.team2_penalties, data.team2_goalkeeper),
    }
}

/// Turn a match into a scoreboard at the current wall-clock time.
pub fn scoreboard_state_from_game(data: &GameOverlayData) -> (s: ScoreboardState)
    ensures
        is_scoreboard_of(s, *data, s.clock_text@),
        clock::is_clock_text(s.clock_text@),
{
    scoreboard_state_at(data, clock::wall_clock())
}

} // verus!
