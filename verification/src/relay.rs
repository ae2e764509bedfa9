//! The log relay's line handling: extracting chat-relevant lines from the
//! followed service log, shaping the outward message with its emphasis
//! span, and formatting the inbound broadcast command.

use vstd::prelude::*;

use crate::scan::pattern_at;
use crate::scan::pattern_matches_at;
use vstd::slice::slice_subrange;
use vstd::slice::slice_to_vec;

verus! {

/// The fixed shape in front of a chat-relevant log line's speaker.
pub open spec fn relay_marker() -> Seq<u8> {
    seq![
        'I' as u8, 'N' as u8, 'F' as u8, 'O' as u8, ']' as u8, ':' as u8, ' ' as u8, '<' as u8,
    ]
}

/// A byte that may stand in a speaker name.
pub open spec fn is_name_byte(b: u8) -> bool {
    ||| 'A' as u8 <= b <= 'Z' as u8
    ||| 'a' as u8 <= b <= 'z' as u8
    ||| '0' as u8 <= b <= '9' as u8
}

/// The least index at or after `i` holding no name byte; `s.len()` when
/// name bytes run to the end.
pub open spec fn first_nonname_from(s: Seq<u8>, i: int) -> int
    decreases s.len() - i when 0 <= i <= s.len()
{
    if i >= s.len() {
        s.len() as int
    } else if !is_name_byte(s[i]) {
        i
    } else {
        first_nonname_from(s, i + 1)
    }
}

pub proof fn lemma_first_nonname_from(s: Seq<u8>, i: int)
    requires
        0 <= i <= s.len(),
    ensures
        i <= first_nonname_from(s, i) <= s.len(),
        first_nonname_from(s, i) < s.len() ==> !is_name_byte(s[first_nonname_from(s, i)]),
        forall|k: int| i <= k < first_nonname_from(s, i) ==> is_name_byte(s[k]),
    decreases s.len() - i,
{
    if i < s.len() && is_name_byte(s[i]) {
        lemma_first_nonname_from(s, i + 1);
    }
}

/// A chat-relevant line shape starts at `i`: the marker, a non-empty run
/// of name bytes, then `"> "` and the message.
pub open spec fn relay_match_at(s: Seq<u8>, i: int) -> bool {
    let a = i + relay_marker().len();
    let e = first_nonname_from(s, a);
    &&& pattern_at(s, relay_marker(), i)
    &&& a < e
    &&& e + 2 <= s.len()
    &&& s[e] == '>' as u8
    &&& s[e + 1] == ' ' as u8
}

/// Whether the line is chat-relevant at all.
pub open spec fn has_relay_match(s: Seq<u8>) -> bool {
    exists|i: int| relay_match_at(s, i)
}

/// The least index at or after `i` where the line shape matches; `s.len()`
/// when it matches nowhere.
pub open spec fn first_relay_match(s: Seq<u8>, i: int) -> int
    decreases s.len() - i when 0 <= i <= s.len()
{
    if i + relay_marker().len() > s.len() {
        s.len() as int
    } else if relay_match_at(s, i) {
        i
    } else {
        first_relay_match(s, i + 1)
    }
}

pub proof fn lemma_first_relay_match(s: Seq<u8>, i: int)
    requires
        0 <= i <= s.len(),
    ensures
        i <= first_relay_match(s, i) <= s.len(),
        first_relay_match(s, i) < s.len() ==> relay_match_at(s, first_relay_match(s, i)),
        forall|k: int| i <= k < first_relay_match(s, i) ==> !relay_match_at(s, k),
    decreases s.len() - i,
{
    if i + relay_marker().len() <= s.len() && !relay_match_at(s, i) {
        lemma_first_relay_match(s, i + 1);
    }
}

/// The speaker of a chat-relevant line: the name run after the first
/// matching marker.
pub open spec fn relay_speaker(s: Seq<u8>) -> Seq<u8> {
    let a = first_relay_match(s, 0) + relay_marker().len();
    s.subrange(a, first_nonname_from(s, a))
}

/// The message of a chat-relevant line: everything after the `"> "` that
/// closes the speaker.
pub open spec fn relay_message(s: Seq<u8>) -> Seq<u8> {
    let e = first_nonname_from(s, first_relay_match(s, 0) + relay_marker().len());
    s.subrange(e + 2, s.len() as int)
}

/// The relay marker as bytes.
fn relay_marker_bytes() -> (r: Vec<u8>)
    ensures
        r@ == relay_marker(),
{
    let mut v: Vec<u8> = Vec::new();
    v.push('I' as u8);
    v.push('N' as u8);
    v.push('F' as u8);
    v.push('O' as u8);
    v.push(']' as u8);
    v.push(':' as u8);
    v.push(' ' as u8);
    v.push('<' as u8);
    assert(v@ =~= relay_marker());
    v
}

/// Whether `b` may stand in a speaker name.
fn byte_is_name(b: u8) -> (r: bool)
    ensures
        r == is_name_byte(b),
{
    ('A' as u8 <= b && b <= 'Z' as u8) || ('a' as u8 <= b && b <= 'z' as u8) || ('0' as u8 <= b
        && b <= '9' as u8)
}

/// The least index at or after `from` holding no name byte; `s.len()` when
/// name bytes run to the end.
fn find_nonname_from(s: &[u8], from: usize) -> (r: usize)
    requires
        from <= s@.len(),
    ensures
        r == first_nonname_from(s@, from as int),
{
    let n = s.len();
    let mut i: usize = from;
    while i < n
        invariant
            n == s@.len(),
            from <= i <= n,
            first_nonname_from(s@, from as int) == first_nonname_from(s@, i as int),
        decreases n - i,
    {
        if !byte_is_name(s[i]) {
            return i;
        }
        i = i + 1;
    }
    n
}

/// Whether the chat-relevant line shape matches exactly at `i`.
fn relay_match_check(s: &[u8], marker: &[u8], i: usize) -> (r: bool)
    requires
        i <= s@.len(),
        marker@ == relay_marker(),
    ensures
        r == relay_match_at(s@, i as int),
{
    let n = s.len();
    if !pattern_matches_at(s, marker, i) {
        return false;
    }
    proof {
        assert(relay_marker().len() == 8);
        assert(i + 8 <= n);
    }
    let a = i + 8;
    proof {
        lemma_first_nonname_from(s@, a as int);
    }
    let e = find_nonname_from(s, a);
    if e == a {
        return false;
    }
    if n - e < 2 {
        return false;
    }
    s[e] == '>' as u8 && s[e + 1] == ' ' as u8
}

/// Extract the speaker and the message from one log line, when the line is
/// chat-relevant; lines of any other shape yield nothing.
pub fn extract_speaker_message(line: &[u8]) -> (r: Option<(Vec<u8>, Vec<u8>)>)
    ensures
        r is Some <==> has_relay_match(line@),
        r matches Some(p) ==> p.0@ == relay_speaker(line@) && p.1@ == relay_message(line@),
{
    let n = line.len();
    let marker = relay_marker_bytes();
    let mut i: usize = 0;
    while 8 <= n - i
        invariant
            n == line@.len(),
            i <= n,
            marker@ == relay_marker(),
            first_relay_match(line@, 0) == first_relay_match(line@, i as int),
        decreases n - i,
    {
        if relay_match_check(line, marker.as_slice(), i) {
            let a = i + 8;
            let e = find_nonname_from(line, a);
            let speaker = slice_to_vec(slice_subrange(line, a, e));
            let message = slice_to_vec(slice_subrange(line, e + 2, n));
            proof {
                assert(relay_match_at(line@, i as int));
                assert(first_relay_match(line@, 0) == i);
            }
            return Some((speaker, message));
        }
        i = i + 1;
    }
    proof {
        assert(first_relay_match(line@, 0) == line@.len());
        lemma_first_relay_match(line@, 0);
        assert forall|k: int| !relay_match_at(line@, k) by {
            if relay_match_at(line@, k) {
                assert(pattern_at(line@, relay_marker(), k));
                assert(0 <= k < line@.len());
            }
        }
    }
    None
}

/// The `": "` placed between the speaker and the message of the outward
/// text.
pub open spec fn speaker_sep() -> Seq<u8> {
    seq![':' as u8, ' ' as u8]
}

/// One outward chat message: its text, and the span to emphasize.
pub struct RelayMessage {
    pub text: Vec<u8>,
    pub emphasis_offset: usize,
    pub emphasis_len: usize,
}

/// Shape the outward message `speaker: message`, with the speaker
/// emphasized.
pub fn format_relay_text(speaker: &[u8], message: &[u8]) -> (r: RelayMessage)
    ensures
        r.text@ == speaker@ + speaker_sep() + message@,
        r.emphasis_offset == 0,
        r.emphasis_len == speaker@.len(),
{
    let mut text: Vec<u8> = Vec::new();
    text.extend_from_slice(speaker);
    text.push(':' as u8);
    text.push(' ' as u8);
    text.extend_from_slice(message);
    assert(text@ =~= speaker@ + speaker_sep() + message@);
    RelayMessage { text, emphasis_offset: 0, emphasis_len: speaker.len() }
}

/// The whole per-line relay step: a chat-relevant line becomes the outward
/// message `speaker: message` with the speaker emphasized; any other line
/// is silently dropped.
pub fn relay_line(line: &[u8]) -> (r: Option<RelayMessage>)
    ensures
        r is Some <==> has_relay_match(line@),
        r matches Some(m) ==> {
            &&& m.text@ == relay_speaker(line@) + speaker_sep() + relay_message(line@)
            &&& m.emphasis_offset == 0
            &&& m.emphasis_len == relay_speaker(line@).len()
        },
{
    match extract_speaker_message(line) {
        Some(p) => Some(format_relay_text(p.0.as_slice(), p.1.as_slice())),
        None => None,
    }
}

/// The fixed opening of the auxiliary protocol's broadcast command.
pub open spec fn broadcast_prefix() -> Seq<u8> {
    seq![
        't' as u8, 'e' as u8, 'l' as u8, 'l' as u8, 'r' as u8, 'a' as u8, 'w' as u8, ' ' as u8,
        '@' as u8, 'a' as u8, ' ' as u8, '[' as u8, '"' as u8, '"' as u8, ',' as u8, '{' as u8,
        '"' as u8, 't' as u8, 'e' as u8, 'x' as u8, 't' as u8, '"' as u8, ':' as u8, '"' as u8,
    ]
}

/// The fixed middle of the broadcast command, between the author's name
/// and the message text.
pub open spec fn broadcast_mid() -> Seq<u8> {
    seq![
        '"' as u8, ',' as u8, '"' as u8, 'b' as u8, 'o' as u8, 'l' as u8, 'd' as u8, '"' as u8,
        ':' as u8, 't' as u8, 'r' as u8, 'u' as u8, 'e' as u8, '}' as u8, ',' as u8, '"' as u8,
        ':' as u8, ' ' as u8,
    ]
}

/// The fixed closing of the broadcast command.
pub open spec fn broadcast_suffix() -> Seq<u8> {
    seq!['"' as u8, ']' as u8]
}

/// Format the broadcast command that forwards one inbound chat message
/// into the running service, with the author's name set in bold.
pub fn format_broadcast_command(name: &[u8], text: &[u8]) -> (r: Vec<u8>)
    ensures
        r@ == broadcast_prefix() + name@ + broadcast_mid() + text@ + broadcast_suffix(),
{
    let mut v: Vec<u8> = Vec::new();
    v.push('t' as u8);
    v.push('e' as u8);
    v.push('l' as u8);
    v.push('l' as u8);
    v.push('r' as u8);
    v.push('a' as u8);
    v.push('w' as u8);
    v.push(' ' as u8);
    v.push('@' as u8);
    v.push('a' as u8);
    v.push(' ' as u8);
    v.push('[' as u8);
    v.push('"' as u8);
    v.push('"' as u8);
    v.push(',' as u8);
    v.push('{' as u8);
    v.push('"' as u8);
    v.push('t' as u8);
    v.push('e' as u8);
    v.push('x' as u8);
    v.push('t' as u8);
    v.push('"' as u8);
    v.push(':' as u8);
    v.push('"' as u8);
    assert(v@ =~= broadcast_prefix());
    v.extend_from_slice(name);
    v.push('"' as u8);
    v.push(',' as u8);
    v.push('"' as u8);
    v.push('b' as u8);
    v.push('o' as u8);
    v.push('l' as u8);
    v.push('d' as u8);
    v.push('"' as u8);
    v.push(':' as u8);
    v.push('t' as u8);
    v.push('r' as u8);
    v.push('u' as u8);
    v.push('e' as u8);
    v.push('}' as u8);
    v.push(',' as u8);
    v.push('"' as u8);
    v.push(':' as u8);
    v.push(' ' as u8);
    assert(v@ =~= broadcast_prefix() + name@ + broadcast_mid());
    v.extend_from_slice(text);
    v.push('"' as u8);
    v.push(']' as u8);
    assert(v@ =~= broadcast_prefix() + name@ + broadcast_mid() + text@ + broadcast_suffix());
    v
}

/// The name shown for a chat author: the username when one is set, the
/// first name otherwise.
pub fn choose_display_name<'a>(username: &'a Option<Vec<u8>>, first_name: &'a [u8]) -> (r: &'a [u8])
    ensures
        username matches Some(u) ==> r@ == u@,
        username is None ==> r@ == first_name@,
{
    match username {
        Some(u) => u.as_slice(),
        None => first_name,
    }
}

} // verus!
