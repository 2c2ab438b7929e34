//! What packets, clocks and colours come to on the scoreboard.
use crate::json;
use crate::json::Json;
use crate::layout::scoreboard::ScoreboardState;
use crate::overlay;
use crate::overlay::{Card, DotState, GameFields, GameOverlayData, PenaltyCard, PenaltyFields};
use crate::teams;
use crate::teams::{JerseyColor, TeamInfo};
use crate::text;
use vstd::prelude::*;

verus! {

/// A number of a packet is shown as it is, and as a default where it is missing.
pub open spec fn shows(v: Option<u64>, shown: u32, default: u32) -> bool {
    match v {
        Some(n) => n <= u32::MAX ==> shown == n,
        None => shown == default,
    }
}

pub open spec fn shows_signed(v: Option<i64>, shown: i32, default: i32) -> bool {
    match v {
        Some(n) => i32::MIN <= n <= i32::MAX ==> shown == n,
        None => shown == default,
    }
}

/// Each number of a game state packet is shown for the team that it is sent for.
pub proof fn law_packet_numbers_shown(
    before: GameOverlayData,
    payload: Seq<char>,
    teams: Map<u32, TeamInfo>,
    after: GameOverlayData,
    tree: Json,
)
    requires
        overlay::packet_applied(before, "telemetry.game_state"@, payload, teams, after),
        json::json_text(payload) == Some(tree),
    ensures
        shows(tree.unsigned_member("team1_score"@), after.team1_score, 0),
        shows(tree.unsigned_member("team2_score"@), after.team2_score, 0),
        shows(tree.unsigned_member("team1_number"@), after.team1_number, 0),
        shows(tree.unsigned_member("team2_number"@), after.team2_number, 0),
        shows(tree.unsigned_member("game_phase"@), after.game_phase, 0),
        shows(tree.unsigned_member("packet_number"@), after.packet_number, 0),
        shows(tree.unsigned_member("team1_goalkeeper"@), after.team1_goalkeeper, 0),
        shows(tree.unsigned_member("team2_goalkeeper"@), after.team2_goalkeeper, 0),
        shows(tree.unsigned_member("team1_penalty_shot"@), after.team1_penalty_shot, 0),
        shows(tree.unsigned_member("team1_single_shots"@), after.team1_single_shots, 0),
        shows(tree.unsigned_member("team2_penalty_shot"@), after.team2_penalty_shot, 0),
        shows(tree.unsigned_member("team2_single_shots"@), after.team2_single_shots, 0),
        shows_signed(tree.signed_member("secs_remaining"@), after.secs_remaining, 600),
        shows_signed(tree.signed_member("secondary_time"@), after.secondary_time, 0),
        tree.unsigned_member("kicking_team"@) == Some(255u64) ==> after.kicking_team == 0,
        tree.unsigned_member("kicking_team"@) != Some(255u64) ==> shows(
            tree.unsigned_member("kicking_team"@),
            after.kicking_team,
            0,
        ),
        after.is_live,
{
    let (f, d) = choose|f: GameFields, d: GameOverlayData|
        #![trigger overlay::fields_of(f, tree), overlay::merged(before, d, after)]
        overlay::fields_of(f, tree) && overlay::is_overlay_of(d, f, teams) && overlay::merged(
            before,
            d,
            after,
        );
    assert(overlay::fields_of(f, tree) && overlay::is_overlay_of(d, f, teams));
}

/// A message budget is the team's own, else what older publishers sent for that
/// team, else their common counter.
pub proof fn law_packet_budgets_shown(
    before: GameOverlayData,
    payload: Seq<char>,
    teams: Map<u32, TeamInfo>,
    after: GameOverlayData,
    tree: Json,
)
    requires
        overlay::packet_applied(before, "telemetry.game_state"@, payload, teams, after),
        json::json_text(payload) == Some(tree),
    ensures
        ({
            let own = tree.unsigned_member("team1_message_budget"@);
            let older = tree.unsigned_member("team1_packet_number"@);
            let counter = tree.unsigned_member("packet_number"@);
            &&& own is Some ==> shows(own, after.team1_message_budget, 0)
            &&& own is None && older is Some ==> shows(older, after.team1_message_budget, 0)
            &&& own is None && older is None ==> shows(counter, after.team1_message_budget, 0)
        }),
        ({
            let own = tree.unsigned_member("team2_message_budget"@);
            let older = tree.unsigned_member("team2_packet_number"@);
            let counter = tree.unsigned_member("packet_number"@);
            &&& own is Some ==> shows(own, after.team2_message_budget, 0)
            &&& own is None && older is Some ==> shows(older, after.team2_message_budget, 0)
            &&& own is None && older is None ==> shows(counter, after.team2_message_budget, 0)
        }),
{
    let (f, d) = choose|f: GameFields, d: GameOverlayData|
        #![trigger overlay::fields_of(f, tree), overlay::merged(before, d, after)]
        overlay::fields_of(f, tree) && overlay::is_overlay_of(d, f, teams) && overlay::merged(
            before,
            d,
            after,
        );
    assert(overlay::fields_of(f, tree) && overlay::is_overlay_of(d, f, teams));
}

/// The flags and texts of a packet, and what stands for those that it lacks.
pub proof fn law_packet_state_shown(
    before: GameOverlayData,
    payload: Seq<char>,
    teams: Map<u32, TeamInfo>,
    after: GameOverlayData,
    tree: Json,
)
    requires
        overlay::packet_applied(before, "telemetry.game_state"@, payload, teams, after),
        json::json_text(payload) == Some(tree),
    ensures
        match tree.boolean_member("first_half"@) {
            Some(b) => after.first_half == b,
            None => after.first_half,
        },
        match tree.boolean_member("stopped"@) {
            Some(b) => after.stopped == b,
            None => !after.stopped,
        },
        match tree.text_member("state"@) {
            Some(t) => after.state@ == t,
            None => after.state@ == "INITIAL"@,
        },
        match tree.text_member("set_play"@) {
            Some(t) => after.set_play@ == t,
            None => after.set_play@ == "NONE"@,
        },
{
    let (f, d) = choose|f: GameFields, d: GameOverlayData|
        #![trigger overlay::fields_of(f, tree), overlay::merged(before, d, after)]
        overlay::fields_of(f, tree) && overlay::is_overlay_of(d, f, teams) && overlay::merged(
            before,
            d,
            after,
        );
    assert(overlay::fields_of(f, tree) && overlay::is_overlay_of(d, f, teams));
}

/// Each team goes by the name and colour that its own number is configured with.
/// Without a configured colour it has the one that the packet names for its field
/// players, and its goalkeeper shows only in another colour than they do.
pub proof fn law_packet_teams_shown(
    before: GameOverlayData,
    payload: Seq<char>,
    teams: Map<u32, TeamInfo>,
    after: GameOverlayData,
    tree: Json,
)
    requires
        overlay::packet_applied(before, "telemetry.game_state"@, payload, teams, after),
        json::json_text(payload) == Some(tree),
    ensures
        ({
            let n = after.team1_number;
            let field = tree.unsigned_member("team1_field_player_colour"@);
            let gk = tree.unsigned_member("team1_goalkeeper_colour"@);
            &&& teams.contains_key(n) ==> after.team1_name@ == teams[n].name@
            &&& !teams.contains_key(n) ==> after.team1_name@ == "Team "@ + text::decimal(n as nat)
            &&& teams.contains_key(n) && teams[n].color is Some ==> after.team1_color
                == teams[n].color
            &&& !teams.contains_key(n) || teams[n].color is None ==> match field {
                Some(b) => b <= 255 ==> after.team1_color == teams::jersey_of_byte(b as u32),
                None => after.team1_color is None,
            }
            &&& match gk {
                Some(g) => g <= 255 ==> after.team1_goalkeeper_color == if field == Some(g) {
                    None
                } else if field matches Some(b) && b > 255 {
                    after.team1_goalkeeper_color
                } else {
                    teams::jersey_of_byte(g as u32)
                },
                None => after.team1_goalkeeper_color is None,
            }
        }),
        ({
            let n = after.team2_number;
            let field = tree.unsigned_member("team2_field_player_colour"@);
            let gk = tree.unsigned_member("team2_goalkeeper_colour"@);
            &&& teams.contains_key(n) ==> after.team2_name@ == teams[n].name@
            &&& !teams.contains_key(n) ==> after.team2_name@ == "Team "@ + text::decimal(n as nat)
            &&& teams.contains_key(n) && teams[n].color is Some ==> after.team2_color
                == teams[n].color
            &&& !teams.contains_key(n) || teams[n].color is None ==> match field {
                Some(b) => b <= 255 ==> after.team2_color == teams::jersey_of_byte(b as u32),
                None => after.team2_color is None,
            }
            &&& match gk {
                Some(g) => g <= 255 ==> after.team2_goalkeeper_color == if field == Some(g) {
                    None
                } else if field matches Some(b) && b > 255 {
                    after.team2_goalkeeper_color
                } else {
                    teams::jersey_of_byte(g as u32)
                },
                None => after.team2_goalkeeper_color is None,
            }
        }),
{
    let (f, d) = choose|f: GameFields, d: GameOverlayData|
        #![trigger overlay::fields_of(f, tree), overlay::merged(before, d, after)]
        overlay::fields_of(f, tree) && overlay::is_overlay_of(d, f, teams) && overlay::merged(
            before,
            d,
            after,
        );
    assert(overlay::fields_of(f, tree) && overlay::is_overlay_of(d, f, teams));
}

/// Every entry that is penalised has a card.
proof fn lemma_entry_shown(entries: Seq<PenaltyFields>, n: int, i: int)
    requires
        0 <= i < n <= entries.len(),
        overlay::is_active(entries[i]),
    ensures
        overlay::shown_cards(entries, n).contains(overlay::card_of(entries[i])),
    decreases n,
{
    let before = overlay::shown_cards(entries, n - 1);
    let c = overlay::card_of(entries[n - 1]);
    let at = overlay::place_for(before, c, 0);
    overlay::lemma_place_in_range(before, c, 0);
    if i < n - 1 {
        lemma_entry_shown(entries, n - 1, i);
        if overlay::is_active(entries[n - 1]) {
            let j = choose|j: int|
                0 <= j < before.len() && before[j] == overlay::card_of(entries[i]);
            let after = before.insert(at, c);
            if j < at {
                assert(after[j] == before[j]);
            } else {
                assert(after[j + 1] == before[j]);
            }
        }
    } else {
        assert(before.insert(at, c)[at] == c);
    }
}

/// Every card comes from an entry that is penalised.
proof fn lemma_card_sent(entries: Seq<PenaltyFields>, n: int, j: int)
    requires
        0 <= n <= entries.len(),
        0 <= j < overlay::shown_cards(entries, n).len(),
    ensures
        exists|i: int|
            #![trigger entries[i]]
            0 <= i < n && overlay::is_active(entries[i]) && overlay::shown_cards(entries, n)[j]
                == overlay::card_of(entries[i]),
    decreases n,
{
    if n > 0 {
        let before = overlay::shown_cards(entries, n - 1);
        let c = overlay::card_of(entries[n - 1]);
        let at = overlay::place_for(before, c, 0);
        overlay::lemma_place_in_range(before, c, 0);
        if !overlay::is_active(entries[n - 1]) {
            lemma_card_sent(entries, n - 1, j);
        } else if j < at {
            lemma_card_sent(entries, n - 1, j);
        } else if j > at {
            lemma_card_sent(entries, n - 1, j - 1);
        }
    }
}

/// A penalised robot of a packet, as a card shows it.
pub open spec fn card_tells(c: PenaltyCard, entry: Json) -> bool {
    &&& entry.unsigned_member("penalty_code"@) matches Some(code)
    &&& code != 0
    &&& shows(entry.unsigned_member("player_number"@), c.player_number, 0)
    &&& shows(entry.unsigned_member("secs_remaining"@), c.secs_remaining, 0)
    &&& match entry.text_member("penalty_reason"@) {
        Some(t) => c.penalty_reason@ == t,
        None => c.penalty_reason@.len() == 0,
    }
}

/// The cards tell of the entries of a list that are penalised, and of no others;
/// who has longer to go comes first, and of two with as long to go the one with the
/// smaller number.
pub open spec fn cards_tell(cards: Seq<PenaltyCard>, entries: Seq<Json>) -> bool {
    &&& forall|j: int|
        #![trigger cards[j]]
        0 <= j < cards.len() ==> exists|i: int|
            #![trigger entries[i]]
            0 <= i < entries.len() && card_tells(cards[j], entries[i])
    &&& forall|i: int|
        #![trigger entries[i]]
        0 <= i < entries.len() && (entries[i].unsigned_member("penalty_code"@) matches Some(code)
            && code != 0) ==> exists|j: int|
            #![trigger cards[j]]
            0 <= j < cards.len() && card_tells(cards[j], entries[i])
    &&& forall|j: int, k: int|
        #![trigger cards[j], cards[k]]
        0 <= j < k < cards.len() ==> cards[j].secs_remaining > cards[k].secs_remaining
            || cards[j].secs_remaining == cards[k].secs_remaining && cards[j].player_number
            <= cards[k].player_number
}

proof fn lemma_cards_tell(list: Seq<PenaltyCard>, packet: Json, key: Seq<char>, items: Seq<Json>)
    requires
        overlay::team_cards(list, packet, key),
        packet.member(key) matches Some(v) && v.list() == Some(items),
    ensures
        cards_tell(list, items),
{
    let entries = choose|entries: Seq<PenaltyFields>| #[trigger]
        overlay::entries_of(entries, packet, key) && overlay::cards(list) == overlay::shown_cards(
            entries,
            entries.len() as int,
        );
    let n = entries.len() as int;
    let shown = overlay::shown_cards(entries, n);
    assert(overlay::cards(list).len() == list.len());
    assert forall|j: int| #![trigger list[j]] 0 <= j < list.len() implies exists|i: int|
        #![trigger items[i]]
        0 <= i < items.len() && card_tells(list[j], items[i]) by {
        lemma_card_sent(entries, n, j);
        let i = choose|i: int|
            #![trigger entries[i]]
            0 <= i < n && overlay::is_active(entries[i]) && shown[j] == overlay::card_of(
                entries[i],
            );
        assert(shown[j] == overlay::cards(list)[j]);
        assert(card_tells(list[j], items[i]));
    }
    assert forall|i: int|
        #![trigger items[i]]
        0 <= i < items.len() && (items[i].unsigned_member("penalty_code"@) matches Some(code)
            && code != 0) implies exists|j: int|
        #![trigger list[j]]
        0 <= j < list.len() && card_tells(list[j], items[i]) by {
        assert(overlay::penalty_fields_of(entries[i], items[i]));
        lemma_entry_shown(entries, n, i);
        let j = choose|j: int| 0 <= j < shown.len() && shown[j] == overlay::card_of(entries[i]);
        assert(shown[j] == overlay::cards(list)[j]);
        assert(card_tells(list[j], items[i]));
    }
    overlay::law_cards_in_display_order(entries, n);
    assert forall|j: int, k: int|
        #![trigger list[j], list[k]]
        0 <= j < k < list.len() implies list[j].secs_remaining > list[k].secs_remaining
        || list[j].secs_remaining == list[k].secs_remaining && list[j].player_number
        <= list[k].player_number by {
        assert(overlay::cards(list)[j] == list[j]@);
        assert(overlay::cards(list)[k] == list[k]@);
        assert(!overlay::shown_before(shown[k], shown[j]));
    }
}

/// A list of a packet.
pub open spec fn list_at(packet: Json, key: Seq<char>) -> Option<Seq<Json>> {
    match packet.member(key) {
        Some(v) => v.list(),
        None => None,
    }
}

/// A penalty packet's list of the first team becomes the first team's cards, and its
/// list of the second team the second team's.
pub proof fn law_penalty_packet_shown(
    before: GameOverlayData,
    payload: Seq<char>,
    teams: Map<u32, TeamInfo>,
    after: GameOverlayData,
    tree: Json,
)
    requires
        overlay::packet_applied(before, "telemetry.penalties"@, payload, teams, after),
        json::json_text(payload) == Some(tree),
    ensures
        list_at(tree, "team1_penalties"@) matches Some(items) ==> cards_tell(
            after.team1_penalties@,
            items,
        ),
        list_at(tree, "team2_penalties"@) matches Some(items) ==> cards_tell(
            after.team2_penalties@,
            items,
        ),
        list_at(tree, "team1_penalties"@) is None ==> after.team1_penalties@.len() == 0,
        list_at(tree, "team2_penalties"@) is None ==> after.team2_penalties@.len() == 0,
{
    reveal_strlit("telemetry.game_state");
    reveal_strlit("telemetry.penalties");
    assert("telemetry.game_state"@[10] != "telemetry.penalties"@[10]);
    if let Some(items) = list_at(tree, "team1_penalties"@) {
        lemma_cards_tell(after.team1_penalties@, tree, "team1_penalties"@, items);
    }
    if let Some(items) = list_at(tree, "team2_penalties"@) {
        lemma_cards_tell(after.team2_penalties@, tree, "team2_penalties"@, items);
    }
    assert(overlay::cards(after.team1_penalties@).len() == after.team1_penalties@.len());
    assert(overlay::cards(after.team2_penalties@).len() == after.team2_penalties@.len());
}

/// On the scoreboard the first team of a match is at home and the second away, with
/// everything that belongs to it.
pub proof fn law_first_team_is_at_home(
    s: ScoreboardState,
    data: GameOverlayData,
    clock_text: Seq<char>,
)
    requires
        overlay::is_scoreboard_of(s, data, clock_text),
    ensures
        s.home_team_name@ == data.team1_name@,
        s.home_score == data.team1_score,
        s.home_message_budget == data.team1_message_budget,
        s.home_team_color is Some <==> data.team1_color is Some,
        s.home_team_goalkeeper_color is Some <==> data.team1_goalkeeper_color is Some,
        data.team1_color matches Some(c) ==> s.home_team_color == Some(teams::rgba_of(c)),
        data.team1_goalkeeper_color matches Some(c) ==> s.home_team_goalkeeper_color == Some(
            teams::rgba_of(c),
        ),
        s.away_team_name@ == data.team2_name@,
        s.away_score == data.team2_score,
        s.away_message_budget == data.team2_message_budget,
        s.away_team_color is Some <==> data.team2_color is Some,
        s.away_team_goalkeeper_color is Some <==> data.team2_goalkeeper_color is Some,
        data.team2_color matches Some(c) ==> s.away_team_color == Some(teams::rgba_of(c)),
        data.team2_goalkeeper_color matches Some(c) ==> s.away_team_goalkeeper_color == Some(
            teams::rgba_of(c),
        ),
        s.field_name@ == data.field_name@,
        s.clock_text@ == clock_text,
        s.clock_stopped == data.stopped,
        s.shootout is Some <==> data.game_phase == 1,
        s.shootout matches Some(so) ==> so.home_penalty_shot == data.team1_penalty_shot
            && so.home_single_shots == data.team1_single_shots && so.away_penalty_shot
            == data.team2_penalty_shot && so.away_single_shots == data.team2_single_shots,
        s.home_penalty_timers@.len() == data.team1_penalties@.len(),
        s.away_penalty_timers@.len() == data.team2_penalties@.len(),
        forall|i: int|
            #![trigger s.home_penalty_timers@[i]]
            0 <= i < s.home_penalty_timers@.len() ==> s.home_penalty_timers@[i].player_number
                == data.team1_penalties@[i].player_number && s.home_penalty_timers@[i].secs_remaining
                == data.team1_penalties@[i].secs_remaining
                && s.home_penalty_timers@[i].penalty_reason@
                == data.team1_penalties@[i].penalty_reason@ && (
            s.home_penalty_timers@[i].is_goalkeeper <==> data.team1_goalkeeper != 0
                && data.team1_penalties@[i].player_number == data.team1_goalkeeper),
        forall|i: int|
            #![trigger s.away_penalty_timers@[i]]
            0 <= i < s.away_penalty_timers@.len() ==> s.away_penalty_timers@[i].player_number
                == data.team2_penalties@[i].player_number && s.away_penalty_timers@[i].secs_remaining
                == data.team2_penalties@[i].secs_remaining
                && s.away_penalty_timers@[i].penalty_reason@
                == data.team2_penalties@[i].penalty_reason@ && (
            s.away_penalty_timers@[i].is_goalkeeper <==> data.team2_goalkeeper != 0
                && data.team2_penalties@[i].player_number == data.team2_goalkeeper),
{
}

/// A clock text tells the time that is left: its minutes and seconds, read back, add
/// up to it. Below zero a hyphen stands in front, and the time is the one past zero.
pub proof fn law_clock_reads_back(s: ScoreboardState, data: GameOverlayData, clock_text: Seq<char>)
    requires
        overlay::is_scoreboard_of(s, data, clock_text),
    ensures
        ({
            let t = s.game_clock_text@;
            let secs = data.secs_remaining as int;
            let digits = if secs < 0 {
                t.skip(1)
            } else {
                t
            };
            let n = digits.len() as int;
            &&& secs < 0 ==> t[0] == '-'
            &&& n >= 5 && digits[n - 3] == ':'
            &&& 0 <= text::number_of(digits.skip(n - 2)) < 60
            &&& 60 * text::number_of(digits.take(n - 3)) + text::number_of(digits.skip(n - 2))
                == if secs < 0 {
                -secs
            } else {
                secs
            }
        }),
{
    let t = s.game_clock_text@;
    let secs = data.secs_remaining as int;
    let left = (if secs < 0 {
        -secs
    } else {
        secs
    }) as nat;
    let digits = if secs < 0 {
        t.skip(1)
    } else {
        t
    };
    assert(digits =~= overlay::mm_ss_of(left));
    text::law_padded_decimal_reads_back(left / 60);
    text::law_padded_decimal_reads_back(left % 60);
    let n = digits.len() as int;
    assert(digits.take(n - 3) =~= text::decimal2(left / 60));
    assert(digits.skip(n - 2) =~= text::decimal2(left % 60));
}

/// What the phase is called.
pub proof fn law_phase_names(s: ScoreboardState, data: GameOverlayData, clock_text: Seq<char>)
    requires
        overlay::is_scoreboard_of(s, data, clock_text),
    ensures
        data.game_phase == 1 ==> s.phase_text@ == "shootout"@,
        data.game_phase == 2 && data.first_half ==> s.phase_text@ == "ET 1st"@,
        data.game_phase == 2 && !data.first_half ==> s.phase_text@ == "ET 2nd"@,
        data.game_phase != 1 && data.game_phase != 2 && data.first_half ==> s.phase_text@ == "1st"@,
        data.game_phase != 1 && data.game_phase != 2 && !data.first_half ==> s.phase_text@
            == "2nd"@,
{
}

/// The state line names the set play, or the kickoff before it is played, and the
/// team whose number the packet gives as the kicking one. A secondary clock that
/// runs is appended.
pub proof fn law_state_line_names_kicker(
    data: GameOverlayData,
    state_lower: Seq<char>,
    play_lower: Seq<char>,
)
    ensures
        ({
            let line = overlay::state_line_of(data, state_lower, play_lower);
            let clock = if data.secondary_time > 0 {
                " - "@ + overlay::mm_ss_of(data.secondary_time as nat)
            } else {
                Seq::<char>::empty()
            };
            let k = data.kicking_team;
            let (n1, n2) = (data.team1_number, data.team2_number);
            let who = if k == n1 {
                data.team1_name@
            } else if k == n2 {
                data.team2_name@
            } else {
                "unknown"@
            };
            let starting = data.state@ == "READY"@ || data.state@ == "SET"@;
            &&& data.set_play@ != "NONE"@ && k != 0 ==> line == state_lower + (", "@
                + overlay::spaced(play_lower) + (" for "@ + who)) + clock
            &&& data.set_play@ != "NONE"@ && k == 0 ==> line == state_lower + (", "@
                + overlay::spaced(play_lower)) + clock
            &&& data.set_play@ == "NONE"@ && starting && k != 0 ==> line == state_lower + (
            ", kickoff"@ + (" for "@ + who)) + clock
            &&& data.set_play@ == "NONE"@ && (!starting || k == 0) ==> line == state_lower + clock
        }),
        forall|i: int|
            #![trigger play_lower[i]]
            0 <= i < play_lower.len() ==> overlay::spaced(play_lower)[i] == if play_lower[i] == '_' {
                ' '
            } else {
                play_lower[i]
            },
{
    let none = Seq::<char>::empty();
    let play = ", "@ + overlay::spaced(play_lower);
    assert(play + none =~= play);
    assert(state_lower + none =~= state_lower);
    assert(overlay::state_line_of(data, state_lower, play_lower) =~= overlay::state_line_of(
        data,
        state_lower,
        play_lower,
    ));
}

/// A dot tells whether its shot is still to come, and if not whether it scored,
/// which is what the shot's own bit says.
pub proof fn law_dots_tell_shots(shots: u32, mask: u32, i: u32)
    requires
        i < 32,
    ensures
        overlay::dot(shots, mask, i as int) == DotState::Upcoming <==> i >= shots,
        i < shots ==> (overlay::dot(shots, mask, i as int) == DotState::Scored <==> (mask >> i)
            & 1u32 == 1u32),
        i < shots ==> (overlay::dot(shots, mask, i as int) == DotState::Missed <==> (mask >> i)
            & 1u32 == 0u32),
{
    assert((mask & (1u32 << i) != 0) == ((mask >> i) & 1u32 == 1u32)) by (bit_vector)
        requires
            i < 32,
    ;
    assert((mask >> i) & 1u32 == 0u32 || (mask >> i) & 1u32 == 1u32) by (bit_vector);
}

/// The colours that game controllers number: blue, red, yellow, black, white,
/// green, orange, purple, brown and grey.
pub proof fn law_numbered_colours()
    ensures
        teams::jersey_of_byte(0) matches Some(c) && c.b > c.r && c.b > c.g,
        teams::jersey_of_byte(1) matches Some(c) && c.r > 4 * c.g && c.r > 4 * c.b,
        teams::jersey_of_byte(2) matches Some(c) && c.r > 4 * c.b && c.g > 4 * c.b,
        teams::jersey_of_byte(3) matches Some(c) && c.r == c.g == c.b && c.r <= 510,
        teams::jersey_of_byte(4) matches Some(c) && c.r == c.g == c.b && c.r >= 4845,
        teams::jersey_of_byte(5) matches Some(c) && c.g > 2 * c.r && c.g > 2 * c.b,
        teams::jersey_of_byte(6) matches Some(c) && c.r > c.g > c.b && 2 * c.g > c.r,
        teams::jersey_of_byte(7) matches Some(c) && c.b > c.r > 2 * c.g,
        teams::jersey_of_byte(8) matches Some(c) && c.r > c.g > c.b && c.r < 2550,
        teams::jersey_of_byte(9) matches Some(c) && c.r == c.g == c.b && 2550 < c.r < 3060,
        forall|b: u32| b > 9 ==> #[trigger] teams::jersey_of_byte(b) is None,
        forall|a: u32, b: u32|
            a < b <= 9 ==> #[trigger] teams::jersey_of_byte(a) != #[trigger] teams::jersey_of_byte(
                b,
            ),
{
}

/// A colour written as six hexadecimal digits, with or without a number sign, has
/// red first, then green, then blue.
pub proof fn law_hex_colours_read_back(s: Seq<char>, d: Seq<nat>)
    requires
        d.len() == 6,
        forall|i: int| 0 <= i < 6 ==> #[trigger] d[i] < 16,
        s == d.map_values(|v: nat| text::hex_char(v)) || s == seq!['#'] + d.map_values(
            |v: nat| text::hex_char(v),
        ),
    ensures
        teams::hex_color(s) matches Some(c) && c.r == 20 * (16 * d[0] + d[1]) && c.g == 20 * (16
            * d[2] + d[3]) && c.b == 20 * (16 * d[4] + d[5]) && teams::rgba_of(c).r == 16 * d[0]
            + d[1] && teams::rgba_of(c).g == 16 * d[2] + d[3] && teams::rgba_of(c).b == 16 * d[4]
            + d[5] && teams::rgba_of(c).a == 255,
{
    let at = teams::hex_start(s);
    let t = d.map_values(|v: nat| text::hex_char(v));
    assert forall|i: int| 0 <= i < 6 implies t[i] == text::hex_char(#[trigger] d[i])
        && teams::hex_value(t[i]) == Some(d[i] as int) by {
        assert(d[i] < 16);
    }
    assert(t[0] == text::hex_char(d[0]));
    assert(at == 0 ==> s == t);
    assert forall|i: int| at <= i < at + 6 implies teams::hex_value(#[trigger] s[i]) == Some(
        d[i - at] as int,
    ) by {
        assert(s[i] == t[i - at]);
    }
    assert(teams::is_hex_triple(s, at));
    assert(teams::hex_value(s[at]) == Some(d[0] as int));
    assert(teams::hex_value(s[at + 1]) == Some(d[1] as int));
    assert(teams::hex_value(s[at + 2]) == Some(d[2] as int));
    assert(teams::hex_value(s[at + 3]) == Some(d[3] as int));
    assert(teams::hex_value(s[at + 4]) == Some(d[4] as int));
    assert(teams::hex_value(s[at + 5]) == Some(d[5] as int));
}

} // verus!
