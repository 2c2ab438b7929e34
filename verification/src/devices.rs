//! Which camera, microphone and accelerator there are.
use crate::scan;
use crate::text;
use vstd::prelude::*;
use vstd::string::StringExecFns;

verus! {

/// A camera.
#[derive(Debug, Clone, PartialEq, Eq)]
pub struct CameraDevice {
    pub path: String,
    pub name: String,
}

/// A microphone.
#[derive(Debug, Clone, PartialEq, Eq)]
pub struct AudioDevice {
    pub name: String,
    pub card_id: String,
}

// Cameras.

/// The device file of a name below `/dev`.
pub open spec fn device_path(name: Seq<char>) -> Seq<char> {
    "/dev/"@ + name
}

/// A name of a video device.
pub open spec fn is_video(name: Seq<char>) -> bool {
    "video"@.is_prefix_of(name)
}

/// `name` is the first video device, by the order of their names.
pub open spec fn is_first_video(entries: Seq<String>, i: int) -> bool {
    &&& 0 <= i < entries.len()
    &&& is_video(entries[i]@)
    &&& forall|k: int|
        #![trigger entries[k]]
        0 <= k < entries.len() && is_video(entries[k]@) ==> !scan::precedes(
            entries[k]@,
            entries[i]@,
        )
}

/// Find the first video device among the entries of `/dev`, as a path.
pub fn first_video_device(entries: &Vec<String>) -> (r: Option<String>)
    ensures
        match r {
            Some(path) => exists|i: int|
                #[trigger] is_first_video(entries@, i) && path@ == device_path(entries@[i]@),
            None => forall|k: int|
                #![trigger entries@[k]]
                0 <= k < entries@.len() ==> !is_video(entries@[k]@),
        },
{
    let mut best: Option<usize> = None;
    let mut i: usize = 0;
    while i < entries.len()
        invariant
            i <= entries@.len(),
            match best {
                Some(b) => b < i && is_video(entries@[b as int]@) && forall|k: int|
                    #![trigger entries@[k]]
                    0 <= k < i && is_video(entries@[k]@) ==> !scan::precedes(
                        entries@[k]@,
                        entries@[b as int]@,
                    ),
                None => forall|k: int|
                    #![trigger entries@[k]]
                    0 <= k < i ==> !is_video(entries@[k]@),
            },
        decreases entries@.len() - i,
    {
        if text::has_prefix(entries[i].as_str(), "video") {
            match best {
                Some(b) => {
                    if scan::text_precedes(entries[i].as_str(), entries[b].as_str()) {
                        proof {
                            let new = entries@[i as int]@;
                            let old_best = entries@[b as int]@;
                            assert forall|k: int|
                                #![trigger entries@[k]]
                                0 <= k <= i && is_video(entries@[k]@) implies !scan::precedes(
                                entries@[k]@,
                                new,
                            ) by {
                                scan::lemma_order(entries@[k]@, new, old_best);
                                scan::lemma_order(new, old_best, new);
                            }
                        }
                        best = Some(i);
                    } else {
                        proof {
                            scan::lemma_order(entries@[i as int]@, entries@[b as int]@, Seq::empty());
                        }
                    }
                },
                None => {
                    proof {
                        scan::lemma_order(entries@[i as int]@, Seq::empty(), Seq::empty());
                    }
                    best = Some(i);
                },
            }
        }
        i = i + 1;
    }
    match best {
        Some(b) => {
            let mut path: String = "/dev/".to_owned();
            path.append(entries[b].as_str());
            assert(is_first_video(entries@, b as int));
            Some(path)
        },
        None => None,
    }
}

/// A camera at a path. Its name is what the system says of it, without the
/// spaces round it, or the path.
pub open spec fn is_camera(c: CameraDevice, path: Seq<char>, label: Option<&str>) -> bool {
    &&& c.path@ == path
    &&& c.name@ == (match label {
        Some(l) => scan::trimmed(l@),
        None => path,
    })
}

/// Describe the camera that was found at a path. `label` is the content of its
/// name file.
pub fn detect_camera(path: String, label: Option<&str>) -> (c: CameraDevice)
    ensures
        is_camera(c, path@, label),
{
    let name: String = match label {
        Some(l) => scan::trim(l),
        None => path.clone(),
    };
    CameraDevice { path, name }
}

/// The name file of a device below `/dev`.
pub open spec fn name_file(path: Seq<char>) -> Option<Seq<char>> {
    if "/dev/"@.is_prefix_of(path) {
        Some("/sys/class/video4linux/"@ + path.skip("/dev/"@.len() as int) + "/name"@)
    } else {
        None
    }
}

/// Where the system keeps the name of a device.
pub fn device_name_from_sysfs(dev_path: &str) -> (r: Option<String>)
    ensures
        match r {
            Some(s) => name_file(dev_path@) == Some(s@),
            None => name_file(dev_path@) is None,
        },
{
    if !text::has_prefix(dev_path, "/dev/") {
        return None;
    }
    let n: usize = dev_path.unicode_len();
    let from: usize = "/dev/".unicode_len();
    let mut s: String = "/sys/class/video4linux/".to_owned();
    let device: String = scan::part(dev_path, from, n);
    assert(device@ =~= dev_path@.skip(from as int));
    s.append(device.as_str());
    s.append("/name");
    Some(s)
}

// Microphones.

/// The first place of a character, if any.
pub open spec fn first_at(s: Seq<char>, c: char, i: int) -> bool {
    0 <= i < s.len() && s[i] == c && forall|k: int| 0 <= k < i ==> s[k] != c
}

/// A line of the sound card list that tells of a card: its number, then its
/// name in brackets.
pub open spec fn is_card(line: Seq<char>, card: AudioDevice, open: int, close: int) -> bool {
    let t = scan::trimmed(line);
    &&& t.len() > 0
    &&& '0' <= t[0] <= '9'
    &&& first_at(t, '[', open)
    &&& first_at(t, ']', close)
    &&& open < close
    &&& card.card_id@ == scan::trimmed(t.subrange(0, open))
    &&& card.name@ == scan::trimmed(t.subrange(open + 1, close))
}

/// Whether a line tells of a card.
pub open spec fn tells_card(line: Seq<char>) -> bool {
    exists|card: AudioDevice, open: int, close: int| #[trigger] is_card(line, card, open, close)
}

/// `card` is what `line` tells.
pub open spec fn card_of(line: Seq<char>, card: AudioDevice) -> bool {
    exists|open: int, close: int| #[trigger] is_card(line, card, open, close)
}

/// Read a line of the sound card list, as in
/// ` 0 [Audio          ]: USB-Audio - USB Audio Device`.
pub fn parse_card(line: &str) -> (r: Option<AudioDevice>)
    ensures
        match r {
            Some(card) => card_of(line@, card),
            None => !tells_card(line@),
        },
{
    let trimmed: String = scan::trim(line);
    let t: &str = trimmed.as_str();
    let n: usize = t.unicode_len();
    if n == 0 {
        return None;
    }
    let c: char = t.get_char(0);
    if c < '0' || c > '9' {
        return None;
    }
    let open: usize = match scan::find_char(t, '[') {
        Some(i) => i,
        None => {
            return None;
        },
    };
    let close: usize = match scan::find_char(t, ']') {
        Some(i) => i,
        None => {
            return None;
        },
    };
    if close <= open {
        proof {
            assert forall|card: AudioDevice, o: int, e: int| !#[trigger] is_card(
                line@,
                card,
                o,
                e,
            ) by {
                if is_card(line@, card, o, e) {
                    assert(o == open && e == close);
                }
            }
        }
        return None;
    }
    let number: String = scan::part(t, 0, open);
    let label: String = scan::part(t, open + 1, close);
    let card: AudioDevice = AudioDevice {
        name: scan::trim(label.as_str()),
        card_id: scan::trim(number.as_str()),
    };
    proof {
        let (o, e) = (open as int, close as int);
        assert(is_card(line@, card, o, e));
    }
    Some(card)
}

/// The lines that tell of a card, among the first `n`.
pub open spec fn card_lines(lines: Seq<Seq<char>>, n: nat) -> Seq<Seq<char>>
    decreases n,
{
    if n == 0 {
        Seq::empty()
    } else if tells_card(lines[n - 1]) {
        card_lines(lines, (n - 1) as nat).push(lines[n - 1])
    } else {
        card_lines(lines, (n - 1) as nat)
    }
}

/// The cards of a sound card list, in its order.
pub open spec fn are_cards(cards: Seq<AudioDevice>, content: Seq<char>) -> bool {
    let all = card_lines(scan::lines(content), scan::lines(content).len());
    &&& cards.len() == all.len()
    &&& forall|i: int| #![trigger cards[i]] 0 <= i < cards.len() ==> card_of(all[i], cards[i])
}

/// Read the sound card list.
pub fn parse_cards(content: &str) -> (cards: Vec<AudioDevice>)
    ensures
        are_cards(cards@, content@),
{
    let lines: Vec<String> = scan::split_lines(content);
    let ghost all = scan::lines(content@);
    let mut cards: Vec<AudioDevice> = Vec::new();
    let mut i: usize = 0;
    while i < lines.len()
        invariant
            i <= lines@.len(),
            scan::texts(lines@) == all,
            cards@.len() == card_lines(all, i as nat).len(),
            forall|k: int|
                #![trigger cards@[k]]
                0 <= k < cards@.len() ==> card_of(card_lines(all, i as nat)[k], cards@[k]),
        decreases lines@.len() - i,
    {
        assert(all[i as int] == lines@[i as int]@);
        match parse_card(lines[i].as_str()) {
            Some(card) => {
                proof {
                    let (o, e) = choose|o: int, e: int| #[trigger]
                        is_card(all[i as int], card, o, e);
                    assert(is_card(all[i as int], card, o, e));
                    assert(tells_card(all[i as int]));
                    assert(card_of(all[i as int], card));
                }
                cards.push(card);
            },
            None => {},
        }
        i = i + 1;
    }
    assert(all.len() == lines@.len());
    cards
}

/// The directory that a card with a capture device has.
pub fn capture_path(card: &AudioDevice) -> (s: String)
    ensures
        s@ == "/proc/asound/card"@ + card.card_id@ + "/pcm0c"@,
{
    let mut s: String = "/proc/asound/card".to_owned();
    s.append(card.card_id.as_str());
    s.append("/pcm0c");
    s
}

/// Choose the first card that can capture.
pub fn detect_audio(cards: &Vec<AudioDevice>, can_capture: &Vec<bool>) -> (r: Option<usize>)
    requires
        cards@.len() == can_capture@.len(),
    ensures
        match r {
            Some(i) => i < cards@.len() && can_capture@[i as int] && forall|k: int|
                0 <= k < i ==> !can_capture@[k],
            None => forall|k: int| 0 <= k < cards@.len() ==> !can_capture@[k],
        },
{
    let mut i: usize = 0;
    while i < cards.len()
        invariant
            i <= cards@.len() == can_capture@.len(),
            forall|k: int| 0 <= k < i ==> !can_capture@[k],
        decreases cards@.len() - i,
    {
        if can_capture[i] {
            return Some(i);
        }
        i = i + 1;
    }
    None
}

// The accelerator.

/// Whether the accelerator can be used: its plugin is installed and one of the
/// entries of `/dev` is its device.
pub fn detect_hailo(plugin_found: bool, entries: &Vec<String>) -> (b: bool)
    ensures
        b == (plugin_found && exists|i: int|
            #![trigger entries@[i]]
            0 <= i < entries@.len() && "hailo"@.is_prefix_of(entries@[i]@)),
{
    if !plugin_found {
        return false;
    }
    let mut i: usize = 0;
    while i < entries.len()
        invariant
            plugin_found,
            i <= entries@.len(),
            forall|k: int|
                #![trigger entries@[k]]
                0 <= k < i ==> !"hailo"@.is_prefix_of(entries@[k]@),
        decreases entries@.len() - i,
    {
        if text::has_prefix(entries[i].as_str(), "hailo") {
            assert("hailo"@.is_prefix_of(entries@[i as int]@));
            return true;
        }
        i = i + 1;
    }
    false
}

} // verus!
