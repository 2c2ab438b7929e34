//! Teams: numbers, names and jersey colours.

use std::collections::HashMap;
use vstd::prelude::*;
use vstd::string::StrSliceExecFns;
use crate::json;
use crate::json::Json;
use crate::renderer::color;
use crate::renderer::color::Rgba;
use crate::scan;
use crate::text;

verus! {

/// A jersey colour. Each channel is in units of 1/5100, so that hundredths
/// and 255ths of the full intensity are both exact.
#[derive(Debug, Clone, Copy, PartialEq, Eq, Structural)]
pub struct JerseyColor {
    pub r: u16,
    pub g: u16,
    pub b: u16,
}

impl JerseyColor {
    /// A colour from channels in hundredths of the full intensity.
    pub fn from_hundredths(r: u8, g: u8, b: u8) -> (c: Self)
        ensures
            c.r == 51 * r,
            c.g == 51 * g,
            c.b == 51 * b,
    {
        JerseyColor { r: 51 * (r as u16), g: 51 * (g as u16), b: 51 * (b as u16) }
    }

    /// A colour from channels in 255ths of the full intensity.
    pub fn from_bytes(r: u8, g: u8, b: u8) -> (c: Self)
        ensures
            c.r == 20 * r,
            c.g == 20 * g,
            c.b == 20 * b,
    {
        JerseyColor { r: 20 * (r as u16), g: 20 * (g as u16), b: 20 * (b as u16) }
    }
}

/// A channel as a byte: cut at the full intensity and rounded to the nearest.
pub open spec fn channel_byte(v: u16) -> u8 {
    ((if v > 5100 {
        5100
    } else {
        v as int
    } + 10) / 20) as u8
}

pub open spec fn rgba_of(c: JerseyColor) -> Rgba {
    Rgba { r: channel_byte(c.r), g: channel_byte(c.g), b: channel_byte(c.b), a: 255 }
}

fn to_byte(v: u16) -> (b: u8)
    ensures
        b == channel_byte(v),
{
    let cut: u16 = if v > 5100 {
        5100
    } else {
        v
    };
    ((cut + 10) / 20) as u8
}

/// The opaque pixel colour of a jersey.
pub fn to_rgba(c: Option<JerseyColor>) -> (r: Option<Rgba>)
    ensures
        r == (match c {
            Some(v) => Some(rgba_of(v)),
            None => None,
        }),
{
    match c {
        Some(v) => Some(Rgba::opaque(to_byte(v.r), to_byte(v.g), to_byte(v.b))),
        None => None,
    }
}

/// Bytes come back unchanged from a jersey colour.
pub proof fn law_bytes_round_trip(b: u8)
    ensures
        channel_byte((20 * b) as u16) == b,
{
}

/// Black or white, whichever reads better on a jersey: black where the BT.601
/// luminance lies strictly above 0.6.
pub fn contrasting_text_rgb(bg: JerseyColor) -> (c: JerseyColor)
    ensures
        c == (if color::luminance(bg.r as int, bg.g as int, bg.b as int) > 3_060_000 {
            JerseyColor { r: 0, g: 0, b: 0 }
        } else {
            JerseyColor { r: 5100, g: 5100, b: 5100 }
        }),
{
    let l: u32 = 299 * (bg.r as u32) + 587 * (bg.g as u32) + 114 * (bg.b as u32);
    if l > 3_060_000 {
        JerseyColor { r: 0, g: 0, b: 0 }
    } else {
        JerseyColor { r: 5100, g: 5100, b: 5100 }
    }
}

/// The jersey colours that game controllers encode as a byte, in hundredths.
pub open spec fn colour_of_byte(byte: u32) -> Option<(int, int, int)> {
    match byte {
        0 => Some((10, 40, 90)),
        1 => Some((85, 15, 15)),
        2 => Some((95, 85, 15)),
        3 => Some((10, 10, 10)),
        4 => Some((95, 95, 95)),
        5 => Some((15, 70, 30)),
        6 => Some((95, 55, 10)),
        7 => Some((55, 20, 70)),
        8 => Some((45, 30, 15)),
        9 => Some((55, 55, 55)),
        _ => None,
    }
}

pub open spec fn jersey_of_byte(byte: u32) -> Option<JerseyColor> {
    match colour_of_byte(byte) {
        Some((r, g, b)) => Some(
            JerseyColor { r: (51 * r) as u16, g: (51 * g) as u16, b: (51 * b) as u16 },
        ),
        None => None,
    }
}

/// Decode a jersey colour byte: blue, red, yellow, black, white, green,
/// orange, purple, brown, grey. `None` for any other byte.
pub fn team_colour_byte_to_rgb(byte: u32) -> (r: Option<JerseyColor>)
    ensures
        r == jersey_of_byte(byte),
        r is Some <==> byte <= 9,
{
    match byte {
        0 => Some(JerseyColor::from_hundredths(10, 40, 90)),
        1 => Some(JerseyColor::from_hundredths(85, 15, 15)),
        2 => Some(JerseyColor::from_hundredths(95, 85, 15)),
        3 => Some(JerseyColor::from_hundredths(10, 10, 10)),
        4 => Some(JerseyColor::from_hundredths(95, 95, 95)),
        5 => Some(JerseyColor::from_hundredths(15, 70, 30)),
        6 => Some(JerseyColor::from_hundredths(95, 55, 10)),
        7 => Some(JerseyColor::from_hundredths(55, 20, 70)),
        8 => Some(JerseyColor::from_hundredths(45, 30, 15)),
        9 => Some(JerseyColor::from_hundredths(55, 55, 55)),
        _ => None,
    }
}

// Hexadecimal colours.

/// The value of a hexadecimal digit, in either case.
pub open spec fn hex_value(c: char) -> Option<int> {
    if '0' <= c <= '9' {
        Some(c as int - '0' as int)
    } else if 'a' <= c <= 'f' {
        Some(c as int - 'a' as int + 10)
    } else if 'A' <= c <= 'F' {
        Some(c as int - 'A' as int + 10)
    } else {
        None
    }
}

fn hex_digit(c: char) -> (r: Option<u8>)
    ensures
        r is Some <==> hex_value(c) is Some,
        r matches Some(v) ==> hex_value(c) == Some(v as int) && v < 16,
{
    if '0' <= c && c <= '9' {
        Some((c as u32 - 0x30) as u8)
    } else if 'a' <= c && c <= 'f' {
        Some((c as u32 - 0x61 + 10) as u8)
    } else if 'A' <= c && c <= 'F' {
        Some((c as u32 - 0x41 + 10) as u8)
    } else {
        None
    }
}

/// Six hexadecimal digits from `at` on, and nothing after them.
pub open spec fn is_hex_triple(s: Seq<char>, at: int) -> bool {
    &&& s.len() == at + 6
    &&& forall|i: int| at <= i < at + 6 ==> hex_value(#[trigger] s[i]) is Some
}

pub open spec fn hex_byte(s: Seq<char>, at: int) -> int {
    16 * hex_value(s[at])->0 + hex_value(s[at + 1])->0
}

/// Where the digits of a hexadecimal colour start: after a leading `#`.
pub open spec fn hex_start(s: Seq<char>) -> int {
    if s.len() > 0 && s[0] == '#' {
        1
    } else {
        0
    }
}

/// The colour a `#RRGGBB` or `RRGGBB` text stands for.
pub open spec fn hex_color(s: Seq<char>) -> Option<JerseyColor> {
    let at = hex_start(s);
    if is_hex_triple(s, at) {
        Some(
            JerseyColor {
                r: (20 * hex_byte(s, at)) as u16,
                g: (20 * hex_byte(s, at + 2)) as u16,
                b: (20 * hex_byte(s, at + 4)) as u16,
            },
        )
    } else {
        None
    }
}

fn hex_pair(s: &str, at: usize) -> (r: Option<u8>)
    requires
        at <= 5,
        at + 1 < s@.len(),
    ensures
        r is Some <==> hex_value(s@[at as int]) is Some && hex_value(s@[at + 1]) is Some,
        r matches Some(v) ==> v == hex_byte(s@, at as int),
{
    match (hex_digit(s.get_char(at)), hex_digit(s.get_char(at + 1))) {
        (Some(hi), Some(lo)) => Some(16 * hi + lo),
        _ => None,
    }
}

/// Parse a `#RRGGBB` or `RRGGBB` text. `None` for anything else.
pub fn parse_hex_color(s: &str) -> (r: Option<JerseyColor>)
    ensures
        r == hex_color(s@),
{
    let n: usize = s.unicode_len();
    let at: usize = if n > 0 && s.get_char(0) == '#' {
        1
    } else {
        0
    };
    if n != at + 6 {
        return None;
    }
    match (hex_pair(s, at), hex_pair(s, at + 2), hex_pair(s, at + 4)) {
        (Some(r), Some(g), Some(b)) => {
            assert(is_hex_triple(s@, at as int));
            Some(JerseyColor::from_bytes(r, g, b))
        },
        _ => None,
    }
}

// The teams map.

/// A team's name, and its jersey colour where one is configured.
#[derive(Debug, Clone)]
pub struct TeamInfo {
    pub name: String,
    pub color: Option<JerseyColor>,
}

impl TeamInfo {
    /// A team without a jersey colour.
    pub fn from_name(name: &str) -> (t: Self)
        ensures
            t.name@ == name@,
            t.color is None,
    {
        TeamInfo { name: name.to_owned(), color: None }
    }
}

/// Teams by number.
pub type TeamsMap = HashMap<u32, TeamInfo>;

/// The name of a team: `Team <number>` where none is configured.
pub open spec fn team_name(teams: Map<u32, TeamInfo>, number: u32) -> Seq<char> {
    if teams.contains_key(number) {
        teams[number].name@
    } else {
        "Team "@ + text::decimal(number as nat)
    }
}

/// The configured jersey colour of a team.
pub open spec fn team_color(teams: Map<u32, TeamInfo>, number: u32) -> Option<JerseyColor> {
    if teams.contains_key(number) {
        teams[number].color
    } else {
        None
    }
}

/// Resolve a team number to a name.
pub fn resolve_team_name(teams: &TeamsMap, number: u32) -> (name: String)
    ensures
        name@ == team_name(teams@, number),
{
    broadcast use vstd::std_specs::hash::group_hash_axioms;

    match teams.get(&number) {
        Some(t) => t.name.clone(),
        None => {
            let mut name: String = "Team ".to_owned();
            text::push_decimal(&mut name, number as u64);
            name
        },
    }
}

/// Resolve a team number to a jersey colour, if configured.
pub fn resolve_team_color(teams: &TeamsMap, number: u32) -> (c: Option<JerseyColor>)
    ensures
        c == team_color(teams@, number),
{
    broadcast use vstd::std_specs::hash::group_hash_axioms;

    match teams.get(&number) {
        Some(t) => t.color,
        None => None,
    }
}

// The teams file.

/// The 32-bit number a text stands for.
pub open spec fn number_of(s: Seq<char>) -> Option<u32> {
    match scan::number_of(s) {
        Some(n) => if n <= u32::MAX {
            Some(n as u32)
        } else {
            None
        },
        None => None,
    }
}

/// Parse a number key.
pub fn parse_number(s: &str) -> (r: Option<u32>)
    ensures
        r == number_of(s@),
{
    match scan::parse_u64(s) {
        Some(n) => if n <= 0xffff_ffff {
            Some(n as u32)
        } else {
            None
        },
        None => None,
    }
}

/// The value of a teams file entry.
pub enum TeamValue {
    /// A bare name.
    Name(String),
    /// An object with a `name` and a `color`, either of which may be missing
    /// or no string.
    Details { name: Option<String>, color: Option<String> },
    /// Anything else.
    Other,
}

/// What an entry says of its team: a bare name, or an object with a name. A
/// colour that does not parse is dropped.
pub open spec fn entry_info(v: TeamValue) -> Option<(Seq<char>, Option<JerseyColor>)> {
    match v {
        TeamValue::Name(name) => Some((name@, None)),
        TeamValue::Details { name: Some(name), color } => Some(
            (
                name@,
                match color {
                    Some(c) => hex_color(c@),
                    None => None,
                },
            ),
        ),
        _ => None,
    }
}

/// Read an entry.
pub fn team_info_of(v: &TeamValue) -> (r: Option<TeamInfo>)
    ensures
        r is Some <==> entry_info(*v) is Some,
        r matches Some(t) ==> entry_info(*v) == Some((t.name@, t.color)),
{
    match v {
        TeamValue::Name(name) => Some(TeamInfo::from_name(name.as_str())),
        TeamValue::Details { name: Some(name), color } => {
            let parsed: Option<JerseyColor> = match color {
                Some(c) => parse_hex_color(c.as_str()),
                None => None,
            };
            Some(TeamInfo { name: name.clone(), color: parsed })
        },
        _ => None,
    }
}

/// The teams of the first `n` entries. Entries that are not teams are left
/// out; of two for one number the later counts.
pub open spec fn teams_of(entries: Seq<(String, TeamValue)>, n: int) -> Map<
    u32,
    (Seq<char>, Option<JerseyColor>),
>
    decreases n,
{
    if n <= 0 {
        Map::empty()
    } else {
        let before = teams_of(entries, n - 1);
        match (number_of(entries[n - 1].0@), entry_info(entries[n - 1].1)) {
            (Some(number), Some(info)) => before.insert(number, info),
            _ => before,
        }
    }
}

/// What a teams map says.
pub open spec fn teams_view(teams: Map<u32, TeamInfo>) -> Map<
    u32,
    (Seq<char>, Option<JerseyColor>),
> {
    Map::new(|n: u32| teams.contains_key(n), |n: u32| (teams[n].name@, teams[n].color))
}

/// Build the teams map from the entries of a teams file.
pub fn teams_from_entries(entries: &Vec<(String, TeamValue)>) -> (teams: TeamsMap)
    ensures
        teams_view(teams@) == teams_of(entries@, entries@.len() as int),
{
    broadcast use vstd::std_specs::hash::group_hash_axioms;

    let mut teams: TeamsMap = HashMap::new();
    let mut i: usize = 0;
    assert(teams_view(teams@) =~= teams_of(entries@, 0));
    while i < entries.len()
        invariant
            i <= entries@.len(),
            teams_view(teams@) == teams_of(entries@, i as int),
        decreases entries@.len() - i,
    {
        let ghost before = teams@;
        match (parse_number(entries[i].0.as_str()), team_info_of(&entries[i].1)) {
            (Some(number), Some(info)) => {
                teams.insert(number, info);
            },
            _ => {},
        }
        assert(teams_view(teams@) =~= teams_of(entries@, i + 1));
        i = i + 1;
    }
    teams
}

/// A JSON value as a teams file entry.
pub open spec fn is_value_of(v: TeamValue, tree: Json) -> bool {
    match v {
        TeamValue::Name(name) => tree.text() == Some(name@),
        TeamValue::Details { name, color } => {
            &&& tree is Object
            &&& same_string(name, tree.text_member("name"@))
            &&& same_string(color, tree.text_member("color"@))
        },
        TeamValue::Other => !(tree is Text) && !(tree is Object),
    }
}

pub open spec fn same_string(a: Option<String>, b: Option<Seq<char>>) -> bool {
    match a {
        Some(s) => b == Some(s@),
        None => b is None,
    }
}

fn team_value(v: &serde_json::Value) -> (r: TeamValue)
    ensures
        is_value_of(r, json::json_of(*v)),
{
    match v.as_str() {
        Some(s) => TeamValue::Name(s.to_owned()),
        None => match json::entries(v) {
            Some(_) => TeamValue::Details {
                name: json::string_field(v, "name"),
                color: json::string_field(v, "color"),
            },
            None => TeamValue::Other,
        },
    }
}

/// `entries` lists every member of a JSON object, in some order.
pub open spec fn lists_members(entries: Seq<(String, TeamValue)>, tree: Json) -> bool {
    &&& forall|i: int|
        #![trigger entries[i]]
        0 <= i < entries.len() ==> (tree.member(entries[i].0@) matches Some(m) && is_value_of(
            entries[i].1,
            m,
        ))
    &&& forall|k: Seq<char>| (#[trigger] tree.member(k)) is Some ==> exists|i: int|
        0 <= i < entries.len() && (#[trigger] entries[i]).0@ == k
}

/// Parse the text of a teams file: a JSON object from team numbers to entries.
/// `None` where it is not a JSON object.
fn parse_teams(content: &str) -> (r: Option<TeamsMap>)
    ensures
        r is Some <==> (json::json_text(content@) matches Some(tree) && tree is Object),
        r matches Some(teams) ==> exists|entries: Seq<(String, TeamValue)>| #[trigger]
            lists_members(entries, json::json_text(content@)->0) && teams_view(teams@) == teams_of(
                entries,
                entries.len() as int,
            ),
{
    match json::parse_json(content) {
        Err(_) => None,
        Ok(v) => match json::entries(&v) {
            None => None,
            Some(members) => {
                let ghost tree = json::json_of(v);
                let mut entries: Vec<(String, TeamValue)> = Vec::new();
                let mut i: usize = 0;
                while i < members.len()
                    invariant
                        i <= members@.len(),
                        entries@.len() == i,
                        forall|j: int|
                            #![trigger members@[j]]
                            0 <= j < members@.len() ==> tree.member(members@[j].0@) == Some(
                                json::json_of(*members@[j].1),
                            ),
                        forall|j: int|
                            #![trigger entries@[j]]
                            0 <= j < i ==> entries@[j].0@ == members@[j].0@ && is_value_of(
                                entries@[j].1,
                                json::json_of(*members@[j].1),
                            ),
                    decreases members@.len() - i,
                {
                    let (key, value) = members[i];
                    entries.push((key.clone(), team_value(value)));
                    i = i + 1;
                }
                proof {
                    assert forall|k: Seq<char>| (#[trigger] tree.member(k)) is Some implies exists|
                        j: int,
                    | 0 <= j < entries@.len() && (#[trigger] entries@[j]).0@ == k by {
                        let j = choose|j: int|
                            0 <= j < members@.len() && (#[trigger] members@[j]).0@ == k;
                        assert(entries@[j].0@ == k);
                    }
                    assert forall|j: int|
                        #![trigger entries@[j]]
                        0 <= j < entries@.len() implies (tree.member(entries@[j].0@) matches Some(m)
                        && is_value_of(entries@[j].1, m)) by {
                        assert(members@[j].0@ == entries@[j].0@);
                    }
                    assert(lists_members(entries@, tree));
                }
                Some(teams_from_entries(&entries))
            },
        },
    }
}

/// `teams` holds what the text of a teams file says. A text that is not a JSON
/// object says nothing.
pub open spec fn teams_loaded(teams: Map<u32, TeamInfo>, content: Option<Seq<char>>) -> bool {
    match content {
        Some(text) => match json::json_text(text) {
            Some(tree) if tree is Object => exists|entries: Seq<(String, TeamValue)>| #[trigger]
                lists_members(entries, tree) && teams_view(teams) == teams_of(
                    entries,
                    entries.len() as int,
                ),
            _ => teams.dom() == Set::<u32>::empty(),
        },
        None => teams.dom() == Set::<u32>::empty(),
    }
}

/// Read the teams from the content of a teams file, which may be missing.
pub fn load_teams_map(content: Option<&str>) -> (teams: TeamsMap)
    ensures
        teams_loaded(
            teams@,
            match content {
                Some(c) => Some(c@),
                None => None,
            },
        ),
{
    broadcast use vstd::std_specs::hash::group_hash_axioms;

    match content {
        Some(c) => match parse_teams(c) {
            Some(teams) => teams,
            None => {
                let teams: TeamsMap = HashMap::new();
                assert(teams@.dom() =~= Set::<u32>::empty());
                teams
            },
        },
        None => {
            let teams: TeamsMap = HashMap::new();
            assert(teams@.dom() =~= Set::<u32>::empty());
            teams
        },
    }
}

} // verus!
