//! Choosing the episode to play and talking to the player process: the
//! episode request typed by the user, the source picked for it, and the
//! length-prefixed message that carries it to the player.
use vstd::prelude::*;
use vstd::bytes::{
    lemma_auto_spec_u32_to_from_le_bytes, spec_u32_from_le_bytes, spec_u32_to_le_bytes,
    u32_from_le_bytes, u32_to_le_bytes,
};
use vstd::utf8::{
    decode_utf8, encode_utf8, encode_utf8_decode_utf8, encode_utf8_valid_utf8, valid_utf8,
};
use crate::api::{PlaylistItem, Skips, Title};
use crate::text::{
    chars_of, decimal, parse_usize, parse_usize_chars, push_chars, push_decimal, split_whitespace,
    words,
};

verus! {

/// An episode request: the episode number and, optionally, a quality.
pub struct EpisodeRequest {
    pub number: usize,
    pub quality: Option<String>,
}

/// Why a requested source cannot be played.
#[derive(Clone, Copy, Debug, PartialEq, Eq, Structural)]
pub enum SourceError {
    /// The episode has no source of the requested quality.
    NoSource,
    /// The quality is none of `fullhd`, `hd` and `sd`.
    WrongQuality,
}

/// Parses the line typed at the episode prompt: its first word is the
/// episode number and its second word, if any, the quality. `None` when the
/// first word is not a number.
pub fn parse_episode_request(input: &str) -> (r: Option<EpisodeRequest>)
    requires
        words(input@).len() > 0,
    ensures
        r is None <==> parse_usize(words(input@)[0]) is None,
        r matches Some(req) ==> {
            &&& Some(req.number) == parse_usize(words(input@)[0])
            &&& words(input@).len() == 1 ==> req.quality is None
            &&& words(input@).len() > 1 ==> (req.quality matches Some(q) && q@ == words(input@)[1])
        },
{
    let chars = chars_of(input);
    let tokens = split_whitespace(&chars);
    assert(tokens.deep_view()[0] == tokens@[0]@);
    match parse_usize_chars(&tokens[0]) {
        None => None,
        Some(number) => {
            if tokens.len() == 1 {
                Some(EpisodeRequest { number, quality: None })
            } else {
                assert(tokens.deep_view()[1] == tokens@[1]@);
                let mut q = String::new();
                push_chars(&mut q, &tokens[1]);
                Some(EpisodeRequest { number, quality: Some(q) })
            }
        },
    }
}

/// The best source of an episode: full HD, else HD, else SD.
pub open spec fn best_source(item: PlaylistItem) -> Option<String> {
    if item.fullhd is Some {
        item.fullhd
    } else if item.hd is Some {
        item.hd
    } else {
        item.sd
    }
}

/// The source of an episode in the requested quality.
pub open spec fn spec_select_source(item: PlaylistItem, quality: Option<Seq<char>>) -> Result<String, SourceError> {
    match quality {
        None => Ok(best_source(item)->0),
        Some(q) => {
            let slot = if q == "fullhd"@ {
                Some(item.fullhd)
            } else if q == "hd"@ {
                Some(item.hd)
            } else if q == "sd"@ {
                Some(item.sd)
            } else {
                None
            };
            match slot {
                None => Err(SourceError::WrongQuality),
                Some(None) => Err(SourceError::NoSource),
                Some(Some(src)) => Ok(src),
            }
        },
    }
}

/// Each quality name picks the source of that quality: `fullhd` the full
/// HD one, `hd` the HD one, `sd` the SD one, and the episode has no source
/// of that quality exactly when that one is missing. Any other word is a
/// wrong quality, whatever the episode holds.
pub proof fn lemma_quality_names_pick_their_source(item: PlaylistItem, q: Seq<char>)
    ensures
        spec_select_source(item, Some("fullhd"@)) == match item.fullhd {
            Some(src) => Ok::<String, SourceError>(src),
            None => Err(SourceError::NoSource),
        },
        spec_select_source(item, Some("hd"@)) == match item.hd {
            Some(src) => Ok::<String, SourceError>(src),
            None => Err(SourceError::NoSource),
        },
        spec_select_source(item, Some("sd"@)) == match item.sd {
            Some(src) => Ok::<String, SourceError>(src),
            None => Err(SourceError::NoSource),
        },
        q != "fullhd"@ && q != "hd"@ && q != "sd"@ ==> spec_select_source(item, Some(q)) == Err::<
            String,
            SourceError,
        >(SourceError::WrongQuality),
{
    reveal_strlit("fullhd");
    reveal_strlit("hd");
    reveal_strlit("sd");
    assert("fullhd"@.len() != "hd"@.len());
    assert("fullhd"@.len() != "sd"@.len());
    assert("hd"@[0] != "sd"@[0]);
}

/// Without a quality the best source is taken: full HD when there is one,
/// else HD, else SD; a source is never passed over for a worse one.
pub proof fn lemma_no_quality_takes_the_best(item: PlaylistItem)
    requires
        has_source(item),
    ensures
        ({
            let r = spec_select_source(item, None);
            &&& item.fullhd is Some ==> r == Ok::<String, SourceError>(item.fullhd->0)
            &&& item.fullhd is None && item.hd is Some ==> r == Ok::<String, SourceError>(item.hd->0)
            &&& item.fullhd is None && item.hd is None ==> r == Ok::<String, SourceError>(item.sd->0)
        }),
{
}

/// Whether an episode has a source in some quality.
pub open spec fn has_source(item: PlaylistItem) -> bool {
    item.fullhd is Some || item.hd is Some || item.sd is Some
}

fn clone_source(src: &Option<String>) -> (r: Option<String>)
    ensures
        r == *src,
{
    match src {
        Some(s) => Some(s.clone()),
        None => None,
    }
}

/// Picks the source of an episode: the best one when no quality is given,
/// else the one of the named quality (`fullhd`, `hd` or `sd`).
pub fn select_source(item: &PlaylistItem, quality: Option<&str>) -> (r: Result<String, SourceError>)
    requires
        quality is None ==> has_source(*item),
    ensures
        r == spec_select_source(*item, match quality { Some(q) => Some(q@), None => None }),
{
    match quality {
        None => {
            if item.fullhd.is_some() {
                Ok(clone_source(&item.fullhd).unwrap())
            } else if item.hd.is_some() {
                Ok(clone_source(&item.hd).unwrap())
            } else {
                Ok(clone_source(&item.sd).unwrap())
            }
        },
        Some(q) => {
            let q = String::from_str(q);
            let slot = if q == String::from_str("fullhd") {
                &item.fullhd
            } else if q == String::from_str("hd") {
                &item.hd
            } else if q == String::from_str("sd") {
                &item.sd
            } else {
                return Err(SourceError::WrongQuality);
            };
            match clone_source(slot) {
                None => Err(SourceError::NoSource),
                Some(src) => Ok(src),
            }
        },
    }
}

/// The playlist position of episode `number`: the server lists episodes
/// from the newest to the oldest, so episode 1 is the last item.
pub open spec fn episode_index(len: nat, number: nat) -> int {
    len - number
}

/// Episodes are counted from the oldest, which the server lists last:
/// episode 1 is the last item, episode `len` the first, and each next
/// episode sits one place earlier; every episode from 1 to `len` has its own
/// place in the playlist.
pub proof fn lemma_episodes_counted_from_the_end(len: nat, number: nat, other: nat)
    requires
        1 <= number <= len,
        1 <= other <= len,
    ensures
        episode_index(len, 1) == len - 1,
        episode_index(len, len) == 0,
        0 <= episode_index(len, number) < len,
        number < len ==> episode_index(len, number + 1) == episode_index(len, number) - 1,
        number != other ==> episode_index(len, number) != episode_index(len, other),
{
}

/// Whether an episode can be played without naming a quality.
pub fn has_any_source(item: &PlaylistItem) -> (b: bool)
    ensures
        b == has_source(*item),
{
    item.fullhd.is_some() || item.hd.is_some() || item.sd.is_some()
}

/// The playlist position of episode `number` in a playlist of `len`
/// episodes.
pub fn episode_position(len: usize, number: usize) -> (index: usize)
    requires
        1 <= number <= len,
    ensures
        index == episode_index(len as nat, number as nat),
        index < len,
{
    len - number
}

/// The quality names the episode prompt knows.
pub open spec fn is_quality_word(q: Seq<char>) -> bool {
    q == "fullhd"@ || q == "hd"@ || q == "sd"@
}

/// Whether `q` is one of the quality names `fullhd`, `hd` and `sd`.
pub fn is_known_quality(q: &str) -> (b: bool)
    ensures
        b == is_quality_word(q@),
{
    let q = String::from_str(q);
    q == String::from_str("fullhd") || q == String::from_str("hd") || q == String::from_str("sd")
}

/// The requests that can be looked up in a playlist: the number is at most
/// the number of episodes; it must be at least 1 whenever the episode is
/// looked at (a known quality, or no quality, which also needs some source).
/// A request with an unknown quality is answered without looking.
pub open spec fn selection_allowed(playlist: Seq<PlaylistItem>, number: nat, quality: Option<Seq<char>>) -> bool {
    number <= playlist.len() && match quality {
        Some(q) => is_quality_word(q) ==> number >= 1,
        None => number >= 1 && has_source(playlist[episode_index(playlist.len(), number)]),
    }
}

/// The answer to an episode request: an unknown quality is refused first;
/// otherwise the episode's position and its source in that quality.
pub open spec fn spec_select_episode(playlist: Seq<PlaylistItem>, number: nat, quality: Option<Seq<char>>) -> Result<(usize, String), SourceError> {
    if quality is Some && !is_quality_word(quality->0) {
        Err(SourceError::WrongQuality)
    } else {
        let index = episode_index(playlist.len(), number);
        match spec_select_source(playlist[index], quality) {
            Ok(src) => Ok((index as usize, src)),
            Err(e) => Err(e),
        }
    }
}

/// An episode request is answered thus: a quality word other than
/// `fullhd`, `hd` and `sd` is refused whatever the number; otherwise the
/// episode counted from the end is looked at, and its source in the named
/// quality (the best one without a name) is given with its place.
pub proof fn lemma_episode_request_answers(playlist: Seq<PlaylistItem>, number: nat, q: Seq<char>)
    requires
        1 <= number <= playlist.len(),
    ensures
        q != "fullhd"@ && q != "hd"@ && q != "sd"@ ==> spec_select_episode(playlist, number, Some(q))
            == Err::<(usize, String), SourceError>(SourceError::WrongQuality),
        ({
            let index = playlist.len() - number;
            let item = playlist[index];
            &&& spec_select_episode(playlist, number, Some("hd"@)) == match item.hd {
                Some(src) => Ok::<(usize, String), SourceError>((index as usize, src)),
                None => Err(SourceError::NoSource),
            }
            &&& spec_select_episode(playlist, number, Some("fullhd"@)) == match item.fullhd {
                Some(src) => Ok::<(usize, String), SourceError>((index as usize, src)),
                None => Err(SourceError::NoSource),
            }
            &&& spec_select_episode(playlist, number, Some("sd"@)) == match item.sd {
                Some(src) => Ok::<(usize, String), SourceError>((index as usize, src)),
                None => Err(SourceError::NoSource),
            }
            &&& has_source(item) ==> spec_select_episode(playlist, number, None) == Ok::<
                (usize, String),
                SourceError,
            >((index as usize, best_source(item)->0))
        }),
{
    let index = playlist.len() - number;
    lemma_quality_names_pick_their_source(playlist[index], q);
    reveal_strlit("fullhd");
    reveal_strlit("hd");
    reveal_strlit("sd");
}

/// The quality of a request, as characters.
pub open spec fn request_quality(request: EpisodeRequest) -> Option<Seq<char>> {
    match request.quality {
        Some(q) => Some(q@),
        None => None,
    }
}

/// Answers an episode request from a playlist: an unknown quality is
/// refused; otherwise the episode's position in the playlist and its source
/// in the requested quality (the best one when none is named).
pub fn select_episode(playlist: &Vec<PlaylistItem>, request: &EpisodeRequest) -> (r: Result<(usize, String), SourceError>)
    requires
        selection_allowed(playlist@, request.number as nat, request_quality(*request)),
    ensures
        r == spec_select_episode(playlist@, request.number as nat, request_quality(*request)),
{
    match &request.quality {
        Some(q) => {
            if !is_known_quality(q.as_str()) {
                return Err(SourceError::WrongQuality);
            }
            let index = episode_position(playlist.len(), request.number);
            match select_source(&playlist[index], Some(q.as_str())) {
                Ok(src) => Ok((index, src)),
                Err(e) => Err(e),
            }
        },
        None => {
            let index = episode_position(playlist.len(), request.number);
            match select_source(&playlist[index], None) {
                Ok(src) => Ok((index, src)),
                Err(e) => Err(e),
            }
        },
    }
}

/// The skip intervals as the player reads them: `[o1,o2,e1,e2]`, each pair
/// present only when the server gave exactly two numbers for it.
pub open spec fn skips_text(skips: Skips) -> Seq<char> {
    let opening = if skips.opening@.len() == 2 {
        decimal(skips.opening@[0] as nat) + ","@ + decimal(skips.opening@[1] as nat)
    } else {
        Seq::empty()
    };
    let ending = if skips.ending@.len() == 2 {
        ","@ + decimal(skips.ending@[0] as nat) + ","@ + decimal(skips.ending@[1] as nat)
    } else {
        Seq::empty()
    };
    "["@ + opening + ending + "]"@
}

/// The skip text is a bracketed list: it starts with `[` and, when the
/// opening has exactly two numbers, continues with them as `o1,o2` whatever
/// the ending holds; when the ending has exactly two numbers it ends with
/// `,e1,e2]` whatever the opening holds; a list of any other length adds
/// nothing, so with neither pair the text is `[]`.
pub proof fn lemma_skips_text_pairs(skips: Skips)
    ensures
        ({
            let t = skips_text(skips);
            let open_pair = decimal(skips.opening@[0] as nat) + ","@ + decimal(skips.opening@[1] as nat);
            let end_pair = ","@ + decimal(skips.ending@[0] as nat) + ","@ + decimal(skips.ending@[1] as nat) + "]"@;
            &&& t.len() >= 2 && t[0] == '[' && t.last() == ']'
            &&& skips.opening@.len() == 2 ==> t.subrange(1, 1 + (open_pair.len() as int)) == open_pair
            &&& skips.ending@.len() == 2 ==> t.subrange(t.len() - (end_pair.len() as int), t.len() as int) == end_pair
            &&& skips.opening@.len() != 2 && skips.ending@.len() != 2 ==> t == seq!['[', ']']
            &&& skips.opening@.len() == 2 && skips.ending@.len() != 2 ==> t.len() == (open_pair.len() as int) + 2
            &&& skips.opening@.len() != 2 && skips.ending@.len() == 2 ==> t.len() == (end_pair.len() as int) + 1
        }),
{
    reveal_strlit("[");
    reveal_strlit("]");
    reveal_strlit(",");
    let t = skips_text(skips);
    let open_pair = decimal(skips.opening@[0] as nat) + ","@ + decimal(skips.opening@[1] as nat);
    let end_pair = ","@ + decimal(skips.ending@[0] as nat) + ","@ + decimal(skips.ending@[1] as nat) + "]"@;
    if skips.opening@.len() == 2 {
        assert(t.subrange(1, 1 + (open_pair.len() as int)) =~= open_pair);
    }
    if skips.ending@.len() == 2 {
        assert(t.subrange(t.len() - (end_pair.len() as int), t.len() as int) =~= end_pair);
    }
    if skips.opening@.len() != 2 && skips.ending@.len() != 2 {
        assert(t =~= seq!['[', ']']);
    }
}

/// Formats the skip intervals of an episode.
pub fn skips_string(skips: &Skips) -> (s: String)
    ensures
        s@ == skips_text(*skips),
{
    let mut s = String::from_str("[");
    if skips.opening.len() == 2 {
        push_decimal(&mut s, skips.opening[0] as u64);
        s.append(",");
        push_decimal(&mut s, skips.opening[1] as u64);
    }
    if skips.ending.len() == 2 {
        s.append(",");
        push_decimal(&mut s, skips.ending[0] as u64);
        s.append(",");
        push_decimal(&mut s, skips.ending[1] as u64);
    }
    s.append("]");
    proof {
        assert(s@ =~= skips_text(*skips));
    }
    s
}

/// The caption of an episode: `{title} - {name}`, the name empty when the
/// server gave none.
pub open spec fn episode_caption(item: PlaylistItem) -> Seq<char> {
    item.title@ + " - "@ + match item.name {
        Some(n) => n@,
        None => Seq::empty(),
    }
}

/// The caption is the episode's title, then ` - `, then its name, or
/// nothing when it has none.
pub proof fn lemma_caption_parts(item: PlaylistItem)
    ensures
        ({
            let c = episode_caption(item);
            let t = item.title@;
            let n = match item.name {
                Some(x) => x@,
                None => Seq::<char>::empty(),
            };
            &&& c.len() == t.len() as int + 3 + n.len()
            &&& c.subrange(0, t.len() as int) == t
            &&& c.subrange(t.len() as int, t.len() as int + 3) == seq![' ', '-', ' ']
            &&& c.subrange(t.len() as int + 3, c.len() as int) == n
        }),
{
    reveal_strlit(" - ");
    let c = episode_caption(item);
    let t = item.title@;
    let n = match item.name {
        Some(x) => x@,
        None => Seq::<char>::empty(),
    };
    assert(c.subrange(0, t.len() as int) =~= t);
    assert(c.subrange(t.len() as int, t.len() as int + 3) =~= seq![' ', '-', ' ']);
    assert(c.subrange(t.len() as int + 3, c.len() as int) =~= n);
}

/// Formats the caption of an episode.
pub fn episode_name(item: &PlaylistItem) -> (s: String)
    ensures
        s@ == episode_caption(*item),
{
    let mut s = item.title.clone();
    s.append(" - ");
    match &item.name {
        Some(n) => s.append(n.as_str()),
        None => {},
    }
    proof {
        assert(s@ =~= episode_caption(*item));
    }
    s
}

/// The message that tells the player what to play, in the JSON shape it
/// reads; the values are written as they are.
pub open spec fn player_message_text(source: Seq<char>, skips: Seq<char>, episode_title: Seq<char>, title: Seq<char>) -> Seq<char> {
    "{\"source\":\""@ + source + "\",\"skips\":"@ + skips + ",\"episode_title\":\""@ + episode_title
        + "\",\"title\":\""@ + title + "\"}"@
}

/// The player message carries each value under its own key, in the order
/// source, skips, episode title, release title: `{"source":"`, the source,
/// `","skips":`, the skips, `,"episode_title":"`, the episode title,
/// `","title":"`, the release title and `"}`.
pub proof fn lemma_player_message_fields(source: Seq<char>, skips: Seq<char>, episode_title: Seq<char>, title: Seq<char>)
    ensures
        ({
            let m = player_message_text(source, skips, episode_title, title);
            let k1 = "{\"source\":\""@;
            let k2 = "\",\"skips\":"@;
            let k3 = ",\"episode_title\":\""@;
            let k4 = "\",\"title\":\""@;
            let a = k1.len() as int;
            let b = a + source.len();
            let c = b + k2.len();
            let d = c + skips.len();
            let e = d + k3.len();
            let f = e + episode_title.len();
            let g = f + k4.len();
            let h = g + title.len();
            &&& k1.len() == 11 && k2.len() == 10 && k3.len() == 18 && k4.len() == 11
            &&& m.len() == h + 2
            &&& m.subrange(0, a) == k1
            &&& m.subrange(a, b) == source
            &&& m.subrange(b, c) == k2
            &&& m.subrange(c, d) == skips
            &&& m.subrange(d, e) == k3
            &&& m.subrange(e, f) == episode_title
            &&& m.subrange(f, g) == k4
            &&& m.subrange(g, h) == title
            &&& m.subrange(h, h + 2) == seq!['"', '}']
        }),
{
    reveal_strlit("{\"source\":\"");
    reveal_strlit("\",\"skips\":");
    reveal_strlit(",\"episode_title\":\"");
    reveal_strlit("\",\"title\":\"");
    reveal_strlit("\"}");
    let m = player_message_text(source, skips, episode_title, title);
    let k1 = "{\"source\":\""@;
    let k2 = "\",\"skips\":"@;
    let k3 = ",\"episode_title\":\""@;
    let k4 = "\",\"title\":\""@;
    let a = k1.len() as int;
    let b = a + source.len();
    let c = b + k2.len();
    let d = c + skips.len();
    let e = d + k3.len();
    let f = e + episode_title.len();
    let g = f + k4.len();
    let h = g + title.len();
    assert(m.subrange(0, a) =~= k1);
    assert(m.subrange(a, b) =~= source);
    assert(m.subrange(b, c) =~= k2);
    assert(m.subrange(c, d) =~= skips);
    assert(m.subrange(d, e) =~= k3);
    assert(m.subrange(e, f) =~= episode_title);
    assert(m.subrange(f, g) =~= k4);
    assert(m.subrange(g, h) =~= title);
    assert(m.subrange(h, h + 2) =~= seq!['"', '}']);
}

/// Builds the message for the player.
pub fn player_message(source: &str, skips: &str, episode_title: &str, title: &str) -> (m: String)
    ensures
        m@ == player_message_text(source@, skips@, episode_title@, title@),
{
    let mut m = String::from_str("{\"source\":\"");
    m.append(source);
    m.append("\",\"skips\":");
    m.append(skips);
    m.append(",\"episode_title\":\"");
    m.append(episode_title);
    m.append("\",\"title\":\"");
    m.append(title);
    m.append("\"}");
    proof {
        assert(m@ =~= player_message_text(source@, skips@, episode_title@, title@));
    }
    m
}

/// A frame: the payload's byte length as four little-endian bytes (kept to
/// 32 bits), then the payload.
pub open spec fn frame(payload: Seq<u8>) -> Seq<u8> {
    spec_u32_to_le_bytes(payload.len() as u32) + payload
}

/// Frames the UTF-8 bytes of `data` for the player's input stream.
pub fn encode_frame(data: &str) -> (f: Vec<u8>)
    ensures
        f@ == frame(encode_utf8(data@)),
{
    let bytes = data.as_bytes();
    let length = data.len() as u32;
    let mut f = u32_to_le_bytes(length);
    let ghost head = f@;
    for i in 0..bytes.len()
        invariant
            f@ == head + bytes@.take(i as int),
    {
        f.push(bytes[i]);
        assert(bytes@.take(i + 1) =~= bytes@.take(i as int).push(bytes@[i as int]));
    }
    assert(bytes@.take(bytes@.len() as int) =~= bytes@);
    f
}

/// The payload length announced by a frame's four header bytes.
pub fn frame_length(header: &[u8]) -> (n: u32)
    requires
        header@.len() == 4,
    ensures
        n == spec_u32_from_le_bytes(header@),
{
    u32_from_le_bytes(header)
}

/// `String::from_utf8`: the text that `bytes` encode in UTF-8, if they are
/// valid UTF-8.
#[verifier::external_body]
fn string_from_utf8(bytes: Vec<u8>) -> (r: Option<String>)
    ensures
        r is Some <==> valid_utf8(bytes@),
        r matches Some(s) ==> s@ == decode_utf8(bytes@),
{
    String::from_utf8(bytes).ok()
}

/// The text carried by a frame's payload; `None` when it is not UTF-8.
pub fn frame_text(payload: Vec<u8>) -> (r: Option<String>)
    ensures
        r is Some <==> valid_utf8(payload@),
        r matches Some(s) ==> s@ == decode_utf8(payload@),
{
    string_from_utf8(payload)
}

/// What the player reads back from a frame of a message is the message:
/// the header announces the payload's length, and the payload is valid
/// UTF-8 that decodes to the message (for messages shorter than 4 GiB).
pub proof fn lemma_frame_roundtrip(message: Seq<char>)
    requires
        encode_utf8(message).len() <= u32::MAX,
    ensures
        ({
            let f = frame(encode_utf8(message));
            &&& f.len() == 4 + encode_utf8(message).len()
            &&& spec_u32_from_le_bytes(f.take(4)) == encode_utf8(message).len()
            &&& f.skip(4) == encode_utf8(message)
            &&& valid_utf8(f.skip(4))
            &&& decode_utf8(f.skip(4)) == message
        }),
{
    let payload = encode_utf8(message);
    let f = frame(payload);
    lemma_auto_spec_u32_to_from_le_bytes();
    let header = spec_u32_to_le_bytes(payload.len() as u32);
    assert(f.take(4) =~= header);
    assert(f.skip(4) =~= payload);
    encode_utf8_valid_utf8(message);
    encode_utf8_decode_utf8(message);
}

/// What one line typed at the episode prompt leads to.
pub enum PromptOutcome {
    /// The first word is not an episode number.
    WrongNumber,
    /// The episode has no source of the requested quality.
    NoSource,
    /// The quality is none of `fullhd`, `hd` and `sd`.
    WrongQuality,
    /// These bytes go to the managed player's input stream.
    Feed(Vec<u8>),
    /// The configured player is started on this source.
    Launch(String),
}

/// The quality word of a prompt line: its second word, if any.
pub open spec fn prompt_quality(line: Seq<char>) -> Option<Seq<char>> {
    if words(line).len() > 1 {
        Some(words(line)[1])
    } else {
        None
    }
}

/// The quality of a prompt line is its second word, when there is one.
pub proof fn lemma_prompt_quality_is_second_word(line: Seq<char>)
    ensures
        words(line).len() >= 2 ==> prompt_quality(line) == Some(words(line)[1]),
        words(line).len() < 2 ==> prompt_quality(line) is None,
{
}

/// The prompt lines that can be answered: at least one word, and a
/// request that can be looked up when the first word is a number.
pub open spec fn prompt_allowed(playlist: Seq<PlaylistItem>, line: Seq<char>) -> bool {
    words(line).len() > 0 && match parse_usize(words(line)[0]) {
        Some(n) => selection_allowed(playlist, n as nat, prompt_quality(line)),
        None => true,
    }
}

/// Whether a prompt line can be answered.
pub fn prompt_line_allowed(playlist: &Vec<PlaylistItem>, line: &str) -> (b: bool)
    ensures
        b == prompt_allowed(playlist@, line@),
{
    if split_whitespace(&chars_of(line)).len() == 0 {
        return false;
    }
    match parse_episode_request(line) {
        None => true,
        Some(request) => {
            if request.number > playlist.len() {
                return false;
            }
            match &request.quality {
                Some(q) => !is_known_quality(q.as_str()) || request.number >= 1,
                None => request.number >= 1 && has_any_source(
                    &playlist[episode_position(playlist.len(), request.number)],
                ),
            }
        },
    }
}

/// The name of a release at its episode prompt and in the player: the
/// localized one.
pub open spec fn release_name(title: Title) -> Seq<char> {
    title.names@[0]@
}

/// The localized name of a release, which heads its episode prompt.
pub fn release_heading(title: &Title) -> (name: &String)
    ensures
        name@ == release_name(*title),
{
    &title.names[0]
}

/// The question of the episode prompt: `Enter episoed number [{series}]: `,
/// the series empty when the server gave none.
pub open spec fn spec_episode_prompt_text(title: Title) -> Seq<char> {
    "Enter episoed number ["@ + match title.series {
        Some(s) => s@,
        None => Seq::empty(),
    } + "]: "@
}

/// The episode prompt asks `Enter episoed number [`, shows the series (or
/// nothing) and ends with `]: `; the release is named by its localized name,
/// the first of its two names.
pub proof fn lemma_prompt_text_parts(title: Title)
    ensures
        ({
            let t = spec_episode_prompt_text(title);
            let head = "Enter episoed number ["@;
            let sv = match title.series {
                Some(x) => x@,
                None => Seq::<char>::empty(),
            };
            &&& head.len() == 22
            &&& t.len() == 22 + sv.len() + 3
            &&& t.subrange(0, 22) == head
            &&& t.subrange(22, 22 + sv.len() as int) == sv
            &&& t.subrange(22 + sv.len() as int, t.len() as int) == seq![']', ':', ' ']
        }),
        release_name(title) == title.names@[0]@,
{
    reveal_strlit("Enter episoed number [");
    reveal_strlit("]: ");
    let t = spec_episode_prompt_text(title);
    let sv = match title.series {
        Some(x) => x@,
        None => Seq::<char>::empty(),
    };
    assert(t.subrange(0, 22) =~= "Enter episoed number ["@);
    assert(t.subrange(22, 22 + sv.len() as int) =~= sv);
    assert(t.subrange(22 + sv.len() as int, t.len() as int) =~= seq![']', ':', ' ']);
}

/// Builds the question of the episode prompt for a release.
pub fn episode_prompt_text(title: &Title) -> (text: String)
    ensures
        text@ == spec_episode_prompt_text(*title),
{
    let mut text = String::from_str("Enter episoed number [");
    match &title.series {
        Some(s) => text.append(s.as_str()),
        None => {},
    }
    text.append("]: ");
    proof {
        assert(text@ =~= spec_episode_prompt_text(*title));
    }
    text
}

/// The message that plays the source of episode `index` of `playlist` for
/// release `title`.
pub open spec fn play_message(title: Title, playlist: Seq<PlaylistItem>, index: int, src: Seq<char>) -> Seq<char> {
    player_message_text(src, skips_text(playlist[index].skips), episode_caption(playlist[index]), release_name(title))
}

/// What a prompt line is answered with: a wrong number when its first
/// word is not a number; otherwise the answer to the episode request, and
/// for a playable episode the framed message to the managed player or the
/// source to launch.
pub open spec fn prompt_answered(r: PromptOutcome, title: Title, playlist: Seq<PlaylistItem>, line: Seq<char>, managed: bool) -> bool {
    match parse_usize(words(line)[0]) {
        None => r is WrongNumber,
        Some(n) => match spec_select_episode(playlist, n as nat, prompt_quality(line)) {
            Err(SourceError::NoSource) => r is NoSource,
            Err(SourceError::WrongQuality) => r is WrongQuality,
            Ok((index, src)) => if managed {
                r matches PromptOutcome::Feed(f) && f@ == frame(encode_utf8(play_message(title, playlist, index as int, src@)))
            } else {
                r matches PromptOutcome::Launch(s) && s == src
            },
        },
    }
}

/// How prompt lines are answered: a first word that is not a number is a
/// wrong number; a refused request is reported as refused; a playable
/// episode is played: the managed player is fed a frame whose header gives
/// the payload's length and whose payload decodes to the message naming
/// the chosen source, and any other player is launched on the chosen
/// source. The player kind changes only how the episode is delivered.
pub proof fn lemma_prompt_answers(r: PromptOutcome, title: Title, playlist: Seq<PlaylistItem>, line: Seq<char>, managed: bool)
    requires
        prompt_allowed(playlist, line),
        prompt_answered(r, title, playlist, line, managed),
    ensures
        parse_usize(words(line)[0]) is None ==> r is WrongNumber,
        parse_usize(words(line)[0]) matches Some(n) ==> {
            let sel = spec_select_episode(playlist, n as nat, prompt_quality(line));
            &&& sel == Err::<(usize, String), SourceError>(SourceError::NoSource) ==> r is NoSource
            &&& sel == Err::<(usize, String), SourceError>(SourceError::WrongQuality) ==> r is WrongQuality
            &&& sel is Ok && !managed ==> (r matches PromptOutcome::Launch(s) && s == sel->Ok_0.1)
            &&& sel is Ok && managed && encode_utf8(play_message(title, playlist, sel->Ok_0.0 as int, sel->Ok_0.1@)).len() <= u32::MAX ==> (r matches PromptOutcome::Feed(f) && {
                let m = play_message(title, playlist, sel->Ok_0.0 as int, sel->Ok_0.1@);
                &&& spec_u32_from_le_bytes(f@.take(4)) == encode_utf8(m).len()
                &&& valid_utf8(f@.skip(4))
                &&& decode_utf8(f@.skip(4)) == m
            })
        },
{
    if let Some(n) = parse_usize(words(line)[0]) {
        let sel = spec_select_episode(playlist, n as nat, prompt_quality(line));
        if sel is Ok && managed {
            let m = play_message(title, playlist, sel->Ok_0.0 as int, sel->Ok_0.1@);
            if encode_utf8(m).len() <= u32::MAX {
                lemma_frame_roundtrip(m);
            }
        }
    }
}

/// Answers one line typed at the episode prompt of release `title`, whose
/// episodes are `playlist`: a wrong number or quality, a missing source, or
/// what to play. With the managed player it is the framed message that
/// names the source, the skip intervals, the episode caption and the
/// release (by its localized name); otherwise the source.
pub fn episode_prompt(title: &Title, playlist: &Vec<PlaylistItem>, line: &str, managed: bool) -> (r: PromptOutcome)
    requires
        prompt_allowed(playlist@, line@),
    ensures
        prompt_answered(r, *title, playlist@, line@, managed),
{
    let request = match parse_episode_request(line) {
        None => return PromptOutcome::WrongNumber,
        Some(request) => request,
    };
    match select_episode(playlist, &request) {
        Err(SourceError::NoSource) => PromptOutcome::NoSource,
        Err(SourceError::WrongQuality) => PromptOutcome::WrongQuality,
        Ok((index, source)) => {
            if managed {
                let item = &playlist[index];
                let skips = skips_string(&item.skips);
                let name = episode_name(item);
                let message = player_message(
                    source.as_str(),
                    skips.as_str(),
                    name.as_str(),
                    release_heading(title).as_str(),
                );
                PromptOutcome::Feed(encode_frame(message.as_str()))
            } else {
                PromptOutcome::Launch(source)
            }
        },
    }
}

/// The player's query for episode information; it has nothing to report.
pub fn get_info() {
}

} // verus!
