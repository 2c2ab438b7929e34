//! What the texts mean that the system hands over: lists of devices and of mounts,
//! numbers, and the file of the teams.

use crate::devices;
use crate::devices::AudioDevice;
use crate::json;
use crate::json::Json;
use crate::scan;
use crate::service::system;
use crate::teams;
use crate::teams::{TeamInfo, TeamValue};
use crate::text;
use vstd::prelude::*;

verus! {

/// Texts come in the order of the first characters in which they differ. A text
/// comes before those that go on from it.
pub proof fn law_order_of_texts(
    common: Seq<char>,
    c: char,
    d: char,
    after_c: Seq<char>,
    after_d: Seq<char>,
)
    ensures
        scan::precedes(common, common.push(c) + after_c),
        !scan::precedes(common.push(c) + after_c, common),
        !scan::precedes(common, common),
        c < d ==> scan::precedes(common.push(c) + after_c, common.push(d) + after_d),
        c < d ==> !scan::precedes(common.push(d) + after_d, common.push(c) + after_c),
    decreases common.len(),
{
    let a = common.push(c) + after_c;
    let b = common.push(d) + after_d;
    if common.len() > 0 {
        let rest = common.skip(1);
        law_order_of_texts(rest, c, d, after_c, after_d);
        assert(a.skip(1) =~= rest.push(c) + after_c);
        assert(b.skip(1) =~= rest.push(d) + after_d);
        assert(a[0] == common[0] && b[0] == common[0]);
    } else {
        assert(a[0] == c && b[0] == d);
    }
}

/// All characters of a text are spaces.
pub open spec fn blank(s: Seq<char>) -> bool {
    forall|i: int| 0 <= i < s.len() ==> scan::is_space(#[trigger] s[i])
}

/// No character of a text is a space.
pub open spec fn solid(s: Seq<char>) -> bool {
    forall|i: int| 0 <= i < s.len() ==> !scan::is_space(#[trigger] s[i])
}

/// A text neither starts nor ends with a space.
pub open spec fn tight(s: Seq<char>) -> bool {
    s.len() > 0 && !scan::is_space(s[0]) && !scan::is_space(s.last())
}

/// The blank, the tabulator and the ends of lines are spaces. Other printable ASCII
/// characters are none.
pub proof fn law_spaces(c: char)
    ensures
        c == ' ' || c == '\t' || c == '\n' || c == '\r' ==> scan::is_space(c),
        '!' <= c <= '~' ==> !scan::is_space(c),
{
}

/// Trimming takes off the spaces round a text, and nothing else.
pub proof fn law_trimming(before: Seq<char>, s: Seq<char>, after: Seq<char>)
    requires
        blank(before),
        blank(after),
        tight(s) || s.len() == 0,
    ensures
        scan::trimmed(before + s + after) == s,
    decreases before.len() + after.len(),
{
    let all = before + s + after;
    if before.len() > 0 {
        law_trimming(before.skip(1), s, after);
        assert(all.skip(1) =~= before.skip(1) + s + after);
        assert(all[0] == before[0]);
    } else if after.len() > 0 && s.len() > 0 {
        law_trimming(before, s, after.drop_last());
        assert(all.drop_last() =~= before + s + after.drop_last());
        assert(all.last() == after.last());
        assert(all[0] == s[0]);
    } else if after.len() > 0 {
        law_trimming(before, s, after.skip(1));
        assert(all.skip(1) =~= before + s + after.skip(1));
        assert(all[0] == after[0]);
    } else {
        assert(all =~= s);
    }
}

proof fn lemma_first_word(s: Seq<char>, n: nat)
    requires
        n <= s.len(),
        solid(s.take(n as int)),
    ensures
        scan::words_up_to(s, n) == (Seq::<Seq<char>>::empty(), s.take(n as int)),
    decreases n,
{
    if n > 0 {
        let before = s.take(n - 1);
        assert forall|i: int| 0 <= i < before.len() implies !scan::is_space(#[trigger] before[i]) by {
            assert(before[i] == s.take(n as int)[i]);
        }
        lemma_first_word(s, (n - 1) as nat);
        assert(s.take(n as int)[n - 1] == s[n - 1]);
        assert(before.push(s[n - 1]) =~= s.take(n as int));
    } else {
        assert(s.take(0) =~= Seq::<char>::empty());
    }
}

proof fn lemma_words_after(head: Seq<char>, done: Seq<Seq<char>>, b: Seq<char>, n: nat)
    requires
        n <= b.len(),
        scan::words_up_to(head + b, head.len()) == (done, Seq::<char>::empty()),
    ensures
        scan::words_up_to(head + b, head.len() + n) == (
            done + scan::words_up_to(b, n).0,
            scan::words_up_to(b, n).1,
        ),
    decreases n,
{
    if n > 0 {
        lemma_words_after(head, done, b, (n - 1) as nat);
        assert((head + b)[head.len() + n - 1] == b[n - 1]);
        let (d, w) = scan::words_up_to(b, (n - 1) as nat);
        assert(done + d.push(w) =~= (done + d).push(w));
    } else {
        assert(done + Seq::<Seq<char>>::empty() =~= done);
    }
}

/// The first word of a text ends at the first space after it; spaces before a word
/// are passed over; the last word need not end with a space.
pub proof fn law_words(word: Seq<char>, space: char, rest: Seq<char>)
    requires
        word.len() > 0,
        solid(word),
        scan::is_space(space),
    ensures
        scan::words(word.push(space) + rest) == seq![word] + scan::words(rest),
        scan::words(seq![space] + rest) == scan::words(rest),
        scan::words(word) == seq![word],
        scan::words(Seq::empty()) == Seq::<Seq<char>>::empty(),
{
    let none = Seq::<Seq<char>>::empty();
    let head = word.push(space);
    let s = head + rest;
    let n = word.len();
    assert(s.take(n as int) =~= word);
    lemma_first_word(s, n);
    assert(s[n as int] == space);
    assert(scan::words_up_to(s, n + 1) == (none.push(word), Seq::<char>::empty()));
    lemma_words_after(head, none.push(word), rest, rest.len());
    let (d, w) = scan::words_up_to(rest, rest.len());
    assert(none.push(word) =~= seq![word]);
    assert((seq![word] + d).push(w) =~= seq![word] + d.push(w));

    let one = seq![space];
    let t = one + rest;
    assert(t[0] == space);
    reveal_with_fuel(scan::words_up_to, 2);
    assert(scan::words_up_to(t, 0) == (none, Seq::<char>::empty()));
    assert(scan::words_up_to(t, 1) == (none, Seq::<char>::empty()));
    lemma_words_after(one, none, rest, rest.len());
    assert(none + d =~= d);

    assert(word.take(n as int) =~= word);
    lemma_first_word(word, n);
}

/// A text has no end of a line in it.
pub open spec fn one_line(s: Seq<char>) -> bool {
    forall|i: int| 0 <= i < s.len() ==> #[trigger] s[i] != '\n'
}

proof fn lemma_first_line(s: Seq<char>, n: nat)
    requires
        n <= s.len(),
        one_line(s.take(n as int)),
    ensures
        scan::lines_up_to(s, n) == (Seq::<Seq<char>>::empty(), s.take(n as int)),
    decreases n,
{
    if n > 0 {
        let before = s.take(n - 1);
        assert forall|i: int| 0 <= i < before.len() implies #[trigger] before[i] != '\n' by {
            assert(before[i] == s.take(n as int)[i]);
        }
        lemma_first_line(s, (n - 1) as nat);
        assert(s.take(n as int)[n - 1] == s[n - 1]);
        assert(before.push(s[n - 1]) =~= s.take(n as int));
    } else {
        assert(s.take(0) =~= Seq::<char>::empty());
    }
}

proof fn lemma_lines_after(head: Seq<char>, done: Seq<Seq<char>>, b: Seq<char>, n: nat)
    requires
        n <= b.len(),
        scan::lines_up_to(head + b, head.len()) == (done, Seq::<char>::empty()),
    ensures
        scan::lines_up_to(head + b, head.len() + n) == (
            done + scan::lines_up_to(b, n).0,
            scan::lines_up_to(b, n).1,
        ),
    decreases n,
{
    if n > 0 {
        lemma_lines_after(head, done, b, (n - 1) as nat);
        assert((head + b)[head.len() + n - 1] == b[n - 1]);
        let (d, w) = scan::lines_up_to(b, (n - 1) as nat);
        let u = scan::uncarried(w);
        assert(done + d.push(u) =~= (done + d).push(u));
    } else {
        assert(done + Seq::<Seq<char>>::empty() =~= done);
    }
}

proof fn lemma_ended_line(line: Seq<char>, rest: Seq<char>)
    requires
        one_line(line),
    ensures
        scan::lines(line.push('\n') + rest) == seq![scan::uncarried(line)] + scan::lines(rest),
{
    let none = Seq::<Seq<char>>::empty();
    let head = line.push('\n');
    let s = head + rest;
    let n = line.len();
    let u = scan::uncarried(line);
    assert(s.take(n as int) =~= line);
    lemma_first_line(s, n);
    assert(s[n as int] == '\n');
    assert(scan::lines_up_to(s, n + 1) == (none.push(u), Seq::<char>::empty()));
    lemma_lines_after(head, none.push(u), rest, rest.len());
    let (d, w) = scan::lines_up_to(rest, rest.len());
    assert(none.push(u) =~= seq![u]);
    assert((seq![u] + d).push(w) =~= seq![u] + d.push(w));
}

/// The first line of a text ends at its first line feed, with or without a carriage
/// return before it; the last line need not end.
pub proof fn law_lines(line: Seq<char>, rest: Seq<char>)
    requires
        one_line(line),
        line.len() > 0 ==> line.last() != '\r',
    ensures
        scan::lines(line.push('\n') + rest) == seq![line] + scan::lines(rest),
        scan::lines(line.push('\r').push('\n') + rest) == seq![line] + scan::lines(rest),
        line.len() > 0 ==> scan::lines(line) == seq![line],
        scan::lines(Seq::empty()) == Seq::<Seq<char>>::empty(),
{
    lemma_ended_line(line, rest);
    let carried = line.push('\r');
    assert(one_line(carried));
    lemma_ended_line(carried, rest);
    assert(carried.drop_last() =~= line);
    assert(line.take(line.len() as int) =~= line);
    lemma_first_line(line, line.len());
}

proof fn lemma_value(d: Seq<char>)
    requires
        forall|i: int| 0 <= i < d.len() ==> '0' <= #[trigger] d[i] <= '9',
    ensures
        scan::digits_value(d) == text::number_of(d),
    decreases d.len(),
{
    if d.len() > 0 {
        lemma_value(d.drop_last());
    }
}

/// A number that was written in decimal is read as that number, with or without a
/// plus sign before it. A text with anything but digits after the sign is no number.
pub proof fn law_numbers_read(n: nat, s: Seq<char>, i: int)
    requires
        0 <= i < s.len(),
        !('0' <= s[i] <= '9'),
        i > 0 || s[0] != '+',
    ensures
        scan::number_of(text::decimal(n)) == Some(n),
        scan::number_of(seq!['+'] + text::decimal(n)) == Some(n),
        scan::number_of(s) is None,
        scan::number_of(Seq::empty()) is None,
        scan::number_of(seq!['+']) is None,
{
    let d = text::decimal(n);
    text::law_decimal_reads_back(n);
    lemma_value(d);
    assert('0' <= d[0] <= '9');
    assert(scan::unsigned(d) == d);
    assert((seq!['+'] + d).skip(1) =~= d);
    let u = scan::unsigned(s);
    if s[0] == '+' {
        assert(u[i - 1] == s[i]);
    } else {
        assert(u[i] == s[i]);
    }
}

/// The waiting time in the environment counts if it is a number that fits. Anything
/// else leaves what is configured.
pub proof fn law_waiting_time(seconds: u64, configured: u64, s: Seq<char>, i: int)
    requires
        0 <= i < s.len(),
        !('0' <= s[i] <= '9'),
        i > 0 || s[0] != '+',
    ensures
        system::grace(Some(text::decimal(seconds as nat)), configured) == seconds,
        system::grace(Some(s), configured) == configured,
        system::grace(None, configured) == configured,
{
    law_numbers_read(seconds as nat, s, i);
}

// Devices.

/// The name of a video device is looked up under its own entry of the system.
pub proof fn law_names_of_cameras(name: Seq<char>)
    ensures
        devices::device_path(name) == "/dev/"@ + name,
        devices::name_file(devices::device_path(name)) == Some(
            "/sys/class/video4linux/"@ + name + "/name"@,
        ),
{
    let path = "/dev/"@ + name;
    assert(path.subrange(0, "/dev/"@.len() as int) =~= "/dev/"@);
    assert("/dev/"@.is_prefix_of(path));
    assert(path.skip("/dev/"@.len() as int) =~= name);
}

/// No character of a text is a bracket.
pub open spec fn unbracketed(s: Seq<char>) -> bool {
    forall|i: int| 0 <= i < s.len() ==> #[trigger] s[i] != '[' && s[i] != ']'
}

/// A line of the sound card list tells the number before the brackets and the name
/// between them, without the spaces round them.
#[verifier::rlimit(40)]
pub proof fn law_sound_card_line(
    indent: Seq<char>,
    id: Seq<char>,
    gap: Seq<char>,
    name: Seq<char>,
    fill: Seq<char>,
    more: Seq<char>,
    card: AudioDevice,
)
    requires
        blank(indent),
        blank(gap),
        blank(fill),
        tight(id),
        '0' <= id[0] <= '9',
        unbracketed(id),
        tight(name),
        unbracketed(name),
        more.len() > 0 ==> !scan::is_space(more.last()),
    ensures
        devices::card_of(
            indent + (id + gap + seq!['['] + name + fill + seq![']'] + more),
            card,
        ) <==> card.card_id@ == id && card.name@ == name,
{
    let t = id + gap + seq!['['] + name + fill + seq![']'] + more;
    let line = indent + t;
    let none = Seq::<char>::empty();
    assert(tight(t)) by {
        assert(t[0] == id[0]);
        if more.len() > 0 {
            assert(t.last() == more.last());
        } else {
            assert(t.last() == ']');
        }
    }
    law_trimming(indent, t, none);
    assert(indent + t + none =~= line);
    assert(scan::trimmed(line) == t);
    let open = (id.len() + gap.len()) as int;
    let close = open + 1 + name.len() + fill.len();
    assert forall|k: int| 0 <= k < close && k != open implies #[trigger] t[k] != '[' && t[k]
        != ']' by {
        if k < id.len() {
            assert(t[k] == id[k]);
        } else if k < open {
            assert(t[k] == gap[k - id.len()]);
        } else if k < open + 1 + name.len() {
            assert(t[k] == name[k - open - 1]);
        } else {
            assert(t[k] == fill[k - open - 1 - name.len()]);
        }
    }
    assert(t[open] == '[');
    assert(t[close] == ']');
    assert(devices::first_at(t, '[', open));
    assert(devices::first_at(t, ']', close));
    assert(t.subrange(0, open) =~= none + id + gap);
    assert(t.subrange(open + 1, close) =~= none + name + fill);
    law_trimming(none, id, gap);
    law_trimming(none, name, fill);
    if card.card_id@ == id && card.name@ == name {
        assert(devices::is_card(line, card, open, close));
    }
    if devices::card_of(line, card) {
        let (o, e) = choose|o: int, e: int| #[trigger] devices::is_card(line, card, o, e);
        assert(o == open);
        assert(e == close);
    }
}

proof fn lemma_all_cards(lines: Seq<Seq<char>>, n: nat)
    requires
        n <= lines.len(),
        forall|i: int| 0 <= i < lines.len() ==> devices::tells_card(#[trigger] lines[i]),
    ensures
        devices::card_lines(lines, n) == lines.take(n as int),
    decreases n,
{
    if n > 0 {
        lemma_all_cards(lines, (n - 1) as nat);
        assert(lines.take(n - 1).push(lines[n - 1]) =~= lines.take(n as int));
    } else {
        assert(lines.take(0) =~= Seq::<Seq<char>>::empty());
    }
}

/// Where every line tells of a card, the cards come in the order of their lines.
pub proof fn law_sound_cards_in_order(cards: Seq<AudioDevice>, content: Seq<char>, i: int)
    requires
        devices::are_cards(cards, content),
        forall|k: int|
            0 <= k < scan::lines(content).len() ==> devices::tells_card(
                #[trigger] scan::lines(content)[k],
            ),
        0 <= i < cards.len(),
    ensures
        cards.len() == scan::lines(content).len(),
        devices::card_of(scan::lines(content)[i], cards[i]),
{
    let lines = scan::lines(content);
    lemma_all_cards(lines, lines.len());
    assert(lines.take(lines.len() as int) =~= lines);
}

// Mounts.

/// The fields of a mount table's line, where it mounts a directory above a path.
pub open spec fn mounts(line: Seq<char>, path: Seq<char>) -> bool {
    scan::words(line).len() >= 3 && scan::words(line)[1].is_prefix_of(path)
}

proof fn lemma_mounted(lines: Seq<Seq<char>>, path: Seq<char>, n: nat, i: int)
    requires
        n <= lines.len(),
        0 <= i < lines.len(),
        mounts(lines[i], path),
        scan::words(lines[i])[1].len() > 0,
        forall|j: int|
            0 <= j < lines.len() && j != i && mounts(#[trigger] lines[j], path) ==> scan::words(
                lines[j],
            )[1].len() < scan::words(lines[i])[1].len(),
    ensures
        i < n ==> system::mounted(lines, path, n) == (
            scan::words(lines[i])[1],
            scan::words(lines[i])[2],
        ),
        i >= n ==> system::mounted(lines, path, n).0.len() < scan::words(lines[i])[1].len(),
    decreases n,
{
    if n > 0 {
        lemma_mounted(lines, path, (n - 1) as nat, i);
        assert(mounts(lines[n - 1], path) == system::covers(lines[n - 1], path));
    }
}

/// A path lies on the file system whose mount point, of those above the path, is the
/// longest. Its kind is the field after the mount point.
pub proof fn law_innermost_mount(table: Seq<char>, path: Seq<char>, i: int)
    requires
        0 <= i < scan::lines(table).len(),
        mounts(scan::lines(table)[i], path),
        scan::words(scan::lines(table)[i])[1].len() > 0,
        forall|j: int|
            0 <= j < scan::lines(table).len() && j != i && mounts(
                #[trigger] scan::lines(table)[j],
                path,
            ) ==> scan::words(scan::lines(table)[j])[1].len() < scan::words(
                scan::lines(table)[i],
            )[1].len(),
    ensures
        system::mounted(scan::lines(table), path, scan::lines(table).len()).1 == scan::words(
            scan::lines(table)[i],
        )[2],
{
    lemma_mounted(scan::lines(table), path, scan::lines(table).len(), i);
}

// Teams.

proof fn lemma_teams_of(
    entries: Seq<(String, TeamValue)>,
    n: int,
    number: u32,
    info: (Seq<char>, Option<teams::JerseyColor>),
    i: int,
)
    requires
        0 <= n <= entries.len(),
        0 <= i < entries.len(),
        teams::number_of(entries[i].0@) == Some(number),
        forall|k: int|
            #![trigger entries[k]]
            0 <= k < entries.len() && teams::number_of(entries[k].0@) == Some(number)
                ==> teams::entry_info(entries[k].1) == Some(info),
    ensures
        i < n ==> teams::teams_of(entries, n).contains_key(number) && teams::teams_of(
            entries,
            n,
        )[number] == info,
    decreases n,
{
    if n > 0 {
        lemma_teams_of(entries, n - 1, number, info, i);
    }
}

/// A team of the file has the name, and the colour if it is one, that stand under its
/// number, unless another key stands for the same number.
pub proof fn law_teams_of_file(
    teams: Map<u32, TeamInfo>,
    content: Seq<char>,
    tree: Json,
    number: u32,
    entry: Json,
)
    requires
        teams::teams_loaded(teams, Some(content)),
        json::json_text(content) == Some(tree),
        tree is Object,
        tree.member(text::decimal(number as nat)) == Some(entry),
        forall|k: Seq<char>|
            (#[trigger] tree.member(k)) is Some && scan::number_of(k) == Some(number as nat) ==> k
                == text::decimal(number as nat),
    ensures
        entry.text() matches Some(name) ==> teams.contains_key(number) && teams[number].name@
            == name && teams[number].color is None,
        entry is Object ==> (entry.text_member("name"@) matches Some(name) ==> {
            &&& teams.contains_key(number)
            &&& teams[number].name@ == name
            &&& entry.text_member("color"@) is None ==> teams[number].color is None
            &&& entry.text_member("color"@) matches Some(c) ==> teams[number].color
                == teams::hex_color(c)
        }),
{
    let key = text::decimal(number as nat);
    let entries = choose|entries: Seq<(String, TeamValue)>| #[trigger]
        teams::lists_members(entries, tree) && teams::teams_view(teams) == teams::teams_of(
            entries,
            entries.len() as int,
        );
    let i = choose|i: int| 0 <= i < entries.len() && (#[trigger] entries[i]).0@ == key;
    assert(0 <= i < entries.len() && entries[i].0@ == key) by {
        assert(tree.member(key) is Some);
    }
    law_numbers_read(number as nat, seq!['-'], 0);
    assert(teams::number_of(key) == Some(number));
    let said = teams::entry_info(entries[i].1);
    assert(teams::is_value_of(entries[i].1, entry));
    assert forall|k: int|
        #![trigger entries[k]]
        0 <= k < entries.len() && teams::number_of(entries[k].0@) == Some(
            number,
        ) implies teams::entry_info(entries[k].1) == said by {
        assert(tree.member(entries[k].0@) is Some);
        assert(entries[k].0@ == key);
        assert(teams::is_value_of(entries[k].1, entry));
    }
    if said is Some {
        let info = said->Some_0;
        lemma_teams_of(entries, entries.len() as int, number, info, i);
        assert(teams::teams_view(teams).contains_key(number));
        assert(teams::teams_view(teams)[number] == info);
    }
}

/// A text that is no JSON object names no team.
pub proof fn law_no_teams(teams: Map<u32, TeamInfo>, content: Option<Seq<char>>, number: u32)
    requires
        teams::teams_loaded(teams, content),
        content matches Some(text) ==> (json::json_text(text) matches Some(tree) ==> !(tree is
            Object)),
    ensures
        !teams.contains_key(number),
{
    assert(!teams.dom().contains(number));
}

/// The first camera is the one whose number starts with the lowest digit.
pub proof fn law_first_camera(
    entries: Seq<String>,
    i: int,
    k: int,
    c: char,
    d: char,
    after_c: Seq<char>,
    after_d: Seq<char>,
)
    requires
        devices::is_first_video(entries, i),
        0 <= k < entries.len(),
        entries[i]@ == "video"@.push(c) + after_c,
        entries[k]@ == "video"@.push(d) + after_d,
    ensures
        c <= d,
{
    let name = entries[k]@;
    assert(name.subrange(0, "video"@.len() as int) =~= "video"@);
    assert(devices::is_video(name));
    if d < c {
        law_order_of_texts("video"@, d, c, after_d, after_c);
    }
}

/// A camera goes by what its name file says, without the spaces round it, and by its
/// path where there is none.
pub proof fn law_label_of_camera(
    c: devices::CameraDevice,
    path: Seq<char>,
    label: Option<&str>,
    before: Seq<char>,
    name: Seq<char>,
    after: Seq<char>,
)
    requires
        devices::is_camera(c, path, label),
        blank(before),
        blank(after),
        tight(name),
    ensures
        c.path@ == path,
        label is None ==> c.name@ == path,
        label matches Some(l) ==> (l@ == before + name + after ==> c.name@ == name),
{
    law_trimming(before, name, after);
}

/// A switch of the environment is on for a one, and for the word true in capital or
/// small letters. It is off for anything else.
pub proof fn law_switches(value: Seq<char>)
    ensures
        system::switched_on(value) <==> value == seq!['1'] || (value.len() == 4 && forall|i: int|
            #![trigger value[i]]
            0 <= i < 4 ==> value[i] == "true"@[i] || value[i] == "TRUE"@[i]),
{
    reveal_strlit("1");
    reveal_strlit("true");
    reveal_strlit("TRUE");
    assert("1"@ =~= seq!['1']);
}

} // verus!
