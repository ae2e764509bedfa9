//! Status classification: what the init system's answer and the auxiliary
//! query protocol's output say about the service, and the parsing of the
//! free-form participant list.
//!
//! Status is derived, never stored: the caller re-runs both external calls
//! for every probe and hands their plain results in here.

use vstd::prelude::*;

use crate::scan::contains_pattern;
use crate::scan::first_pattern_from;
use crate::scan::lemma_first_pattern_from;
use crate::scan::pattern_at;
use crate::scan::pattern_matches_at;
use crate::scan::find_pattern_from;
use crate::scan::slice_contains_pattern;
use vstd::slice::slice_subrange;
use vstd::slice::slice_to_vec;

verus! {

/// The service's state at one probe instant.
#[derive(Debug)]
pub enum ServiceStatus {
    /// No process runs.
    Inactive,
    /// The process was launched but the auxiliary protocol is not yet
    /// reachable.
    Starting,
    /// The service answers; the fields are read from the participant list.
    Running {
        current_players: u64,
        max_players: u64,
        player_names: Vec<Vec<u8>>,
    },
}

/// What the auxiliary query returned.
#[derive(Debug)]
pub enum AuxQueryOutcome {
    /// The query could be issued but the protocol server refused the
    /// connection: the service is still starting.
    ConnectionFailure,
    /// The query answered with this output.
    Output(Vec<u8>),
}

/// Why a probe failed.
#[derive(PartialEq, Eq, Structural, Clone, Copy, Debug)]
pub enum StatusError {
    /// The auxiliary output did not have the promised shape; the
    /// collaborator contract is trusted verbatim, so this is fatal for the
    /// probe.
    MalformedListOutput,
}

/// An ASCII decimal digit.
pub open spec fn is_digit(b: u8) -> bool {
    '0' as u8 <= b <= '9' as u8
}

/// The least index at or after `i` holding a digit; `s.len()` when there
/// is none.
pub open spec fn first_digit_from(s: Seq<u8>, i: int) -> int
    decreases s.len() - i when 0 <= i <= s.len()
{
    if i >= s.len() {
        s.len() as int
    } else if is_digit(s[i]) {
        i
    } else {
        first_digit_from(s, i + 1)
    }
}

/// The least index at or after `i` holding no digit; `s.len()` when digits
/// run to the end.
pub open spec fn first_nondigit_from(s: Seq<u8>, i: int) -> int
    decreases s.len() - i when 0 <= i <= s.len()
{
    if i >= s.len() {
        s.len() as int
    } else if !is_digit(s[i]) {
        i
    } else {
        first_nondigit_from(s, i + 1)
    }
}

pub proof fn lemma_first_digit_from(s: Seq<u8>, i: int)
    requires
        0 <= i <= s.len(),
    ensures
        i <= first_digit_from(s, i) <= s.len(),
        first_digit_from(s, i) < s.len() ==> is_digit(s[first_digit_from(s, i)]),
        forall|k: int| i <= k < first_digit_from(s, i) ==> !is_digit(s[k]),
    decreases s.len() - i,
{
    if i < s.len() && !is_digit(s[i]) {
        lemma_first_digit_from(s, i + 1);
    }
}

pub proof fn lemma_first_nondigit_from(s: Seq<u8>, i: int)
    requires
        0 <= i <= s.len(),
    ensures
        i <= first_nondigit_from(s, i) <= s.len(),
        first_nondigit_from(s, i) < s.len() ==> !is_digit(s[first_nondigit_from(s, i)]),
        forall|k: int| i <= k < first_nondigit_from(s, i) ==> is_digit(s[k]),
    decreases s.len() - i,
{
    if i < s.len() && is_digit(s[i]) {
        lemma_first_nondigit_from(s, i + 1);
    }
}

/// Where the first maximal digit run of `s` starts: the current player
/// count.
pub open spec fn current_count_start(s: Seq<u8>) -> int {
    first_digit_from(s, 0)
}

/// Where the first maximal digit run of `s` ends.
pub open spec fn current_count_end(s: Seq<u8>) -> int {
    first_nondigit_from(s, current_count_start(s))
}

/// Where the second maximal digit run of `s` starts: the maximal player
/// count.
pub open spec fn max_count_start(s: Seq<u8>) -> int {
    first_digit_from(s, current_count_end(s))
}

/// Where the second maximal digit run of `s` ends.
pub open spec fn max_count_end(s: Seq<u8>) -> int {
    first_nondigit_from(s, max_count_start(s))
}

/// The decimal value of the digits `s[i..j]`.
pub open spec fn digits_value(s: Seq<u8>, i: int, j: int) -> int
    decreases j - i,
{
    if j <= i {
        0
    } else {
        digits_value(s, i, j - 1) * 10 + (s[j - 1] - '0' as u8)
    }
}

/// Over digits, the value is non-negative and grows with the run.
pub proof fn lemma_digits_value_mono(s: Seq<u8>, i: int, j1: int, j2: int)
    requires
        0 <= i <= j1 <= j2 <= s.len(),
        forall|k: int| i <= k < j2 ==> is_digit(#[trigger] s[k]),
    ensures
        0 <= digits_value(s, i, j1),
        digits_value(s, i, j1) <= digits_value(s, i, j2),
    decreases j2 - i,
{
    if j2 == i {
    } else if j1 == j2 {
        lemma_digits_value_mono(s, i, j1 - 1, j2 - 1);
        assert(is_digit(s[j2 - 1]));
    } else {
        lemma_digits_value_mono(s, i, j1, j2 - 1);
        assert(is_digit(s[j2 - 1]));
    }
}

/// The separator in front of the participant names.
pub open spec fn colon_space() -> Seq<u8> {
    seq![':' as u8, ' ' as u8]
}

/// The separator between two participant names.
pub open spec fn comma_space() -> Seq<u8> {
    seq![',' as u8, ' ' as u8]
}

/// The names that the region of `s` from `pos` on lists, split at each
/// `", "`; an empty region lists none.
pub open spec fn split_names_from(s: Seq<u8>, pos: int) -> Seq<Seq<u8>>
    decreases s.len() - pos when 0 <= pos <= s.len()
{
    if pos >= s.len() {
        Seq::empty()
    } else {
        let k = first_pattern_from(s, comma_space(), pos);
        if pos <= k && k < s.len() && k + 2 <= s.len() {
            seq![s.subrange(pos, k)] + split_names_from(s, k + 2)
        } else {
            seq![s.subrange(pos, s.len() as int)]
        }
    }
}

/// Where `": "` first occurs in `s`; the names start two bytes later.
pub open spec fn names_sep_pos(s: Seq<u8>) -> int {
    first_pattern_from(s, colon_space(), 0)
}

/// The auxiliary list output has the promised shape: two digit runs whose
/// values fit the result type, and a `": "` in front of the names.
pub open spec fn list_output_wellformed(s: Seq<u8>) -> bool {
    &&& current_count_start(s) < s.len()
    &&& max_count_start(s) < s.len()
    &&& digits_value(s, current_count_start(s), current_count_end(s)) <= u64::MAX
    &&& digits_value(s, max_count_start(s), max_count_end(s)) <= u64::MAX
    &&& names_sep_pos(s) < s.len()
}

/// The current player count that `s` reports.
pub open spec fn spec_current_players(s: Seq<u8>) -> int {
    digits_value(s, current_count_start(s), current_count_end(s))
}

/// The maximal player count that `s` reports.
pub open spec fn spec_max_players(s: Seq<u8>) -> int {
    digits_value(s, max_count_start(s), max_count_end(s))
}

/// The participant names that `s` reports.
pub open spec fn spec_player_names(s: Seq<u8>) -> Seq<Seq<u8>> {
    split_names_from(s, names_sep_pos(s) + 2)
}

/// What a well-formed auxiliary list output yields.
pub struct PlayerListInfo {
    pub current_players: u64,
    pub max_players: u64,
    pub player_names: Vec<Vec<u8>>,
}

/// Whether `b` is an ASCII decimal digit.
fn byte_is_digit(b: u8) -> (r: bool)
    ensures
        r == is_digit(b),
{
    '0' as u8 <= b && b <= '9' as u8
}

/// The least index at or after `from` holding a digit; `s.len()` when
/// there is none.
fn find_digit_from(s: &[u8], from: usize) -> (r: usize)
    requires
        from <= s@.len(),
    ensures
        r == first_digit_from(s@, from as int),
{
    let n = s.len();
    let mut i: usize = from;
    while i < n
        invariant
            n == s@.len(),
            from <= i <= n,
            first_digit_from(s@, from as int) == first_digit_from(s@, i as int),
        decreases n - i,
    {
        if byte_is_digit(s[i]) {
            return i;
        }
        i = i + 1;
    }
    n
}

/// The least index at or after `from` holding no digit; `s.len()` when
/// digits run to the end.
fn find_nondigit_from(s: &[u8], from: usize) -> (r: usize)
    requires
        from <= s@.len(),
    ensures
        r == first_nondigit_from(s@, from as int),
{
    let n = s.len();
    let mut i: usize = from;
    while i < n
        invariant
            n == s@.len(),
            from <= i <= n,
            first_nondigit_from(s@, from as int) == first_nondigit_from(s@, i as int),
        decreases n - i,
    {
        if !byte_is_digit(s[i]) {
            return i;
        }
        i = i + 1;
    }
    n
}

/// The value of the digit run `s[i..j]`, unless it exceeds the result
/// type.
fn parse_digits(s: &[u8], i: usize, j: usize) -> (r: Option<u64>)
    requires
        i <= j <= s@.len(),
        forall|k: int| i <= k < j ==> is_digit(#[trigger] s@[k]),
    ensures
        digits_value(s@, i as int, j as int) <= u64::MAX ==> r == Some(
            digits_value(s@, i as int, j as int) as u64,
        ),
        digits_value(s@, i as int, j as int) > u64::MAX ==> r is None,
{
    let mut acc: u64 = 0;
    let mut k: usize = i;
    while k < j
        invariant
            i <= k <= j <= s@.len(),
            forall|m: int| i <= m < j ==> is_digit(#[trigger] s@[m]),
            acc == digits_value(s@, i as int, k as int),
        decreases j - k,
    {
        let d = (s[k] - '0' as u8) as u64;
        let acc10 = match acc.checked_mul(10) {
            Some(v) => v,
            None => {
                proof {
                    lemma_digits_value_mono(s@, i as int, k + 1, j as int);
                    assert(digits_value(s@, i as int, k + 1) > u64::MAX);
                }
                return None;
            },
        };
        acc = match acc10.checked_add(d) {
            Some(v) => v,
            None => {
                proof {
                    lemma_digits_value_mono(s@, i as int, k + 1, j as int);
                    assert(digits_value(s@, i as int, k + 1) > u64::MAX);
                }
                return None;
            },
        };
        k = k + 1;
    }
    Some(acc)
}

/// The `": "` separator as bytes.
fn colon_space_bytes() -> (r: Vec<u8>)
    ensures
        r@ == colon_space(),
{
    let mut v: Vec<u8> = Vec::new();
    v.push(':' as u8);
    v.push(' ' as u8);
    assert(v@ =~= colon_space());
    v
}

/// The `", "` separator as bytes.
fn comma_space_bytes() -> (r: Vec<u8>)
    ensures
        r@ == comma_space(),
{
    let mut v: Vec<u8> = Vec::new();
    v.push(',' as u8);
    v.push(' ' as u8);
    assert(v@ =~= comma_space());
    v
}

/// Parse the auxiliary `list` output: the first two digit runs give the
/// current and maximal player counts, and everything after the first
/// `": "` is the `", "`-separated participant name list.  `None` exactly
/// when the output is malformed.
pub fn parse_player_list(s: &[u8]) -> (r: Option<PlayerListInfo>)
    ensures
        r is Some <==> list_output_wellformed(s@),
        r matches Some(info) ==> {
            &&& info.current_players == spec_current_players(s@)
            &&& info.max_players == spec_max_players(s@)
            &&& info.player_names@.map_values(|n: Vec<u8>| n@) == spec_player_names(s@)
        },
{
    let n = s.len();
    proof {
        lemma_first_digit_from(s@, 0);
    }
    let c_start = find_digit_from(s, 0);
    if c_start == n {
        return None;
    }
    proof {
        lemma_first_nondigit_from(s@, c_start as int);
    }
    let c_end = find_nondigit_from(s, c_start);
    proof {
        lemma_first_digit_from(s@, c_end as int);
    }
    let m_start = find_digit_from(s, c_end);
    if m_start == n {
        return None;
    }
    proof {
        lemma_first_nondigit_from(s@, m_start as int);
    }
    let m_end = find_nondigit_from(s, m_start);

    let current_players = match parse_digits(s, c_start, c_end) {
        Some(v) => v,
        None => {
            return None;
        },
    };
    let max_players = match parse_digits(s, m_start, m_end) {
        Some(v) => v,
        None => {
            return None;
        },
    };
    proof {
        lemma_digits_value_mono(s@, c_start as int, c_end as int, c_end as int);
        lemma_digits_value_mono(s@, m_start as int, m_end as int, m_end as int);
    }

    let sep = colon_space_bytes();
    proof {
        lemma_first_pattern_from(s@, colon_space(), 0);
    }
    let sep_pos = find_pattern_from(s, sep.as_slice(), 0);
    if sep_pos == n {
        return None;
    }

    let comma = comma_space_bytes();
    let mut player_names: Vec<Vec<u8>> = Vec::new();
    let mut pos = sep_pos + 2;
    while pos < n
        invariant
            n == s@.len(),
            pos <= n,
            spec_player_names(s@) == player_names@.map_values(|v: Vec<u8>| v@)
                + split_names_from(s@, pos as int),
            comma@ == comma_space(),
            names_sep_pos(s@) + 2 == sep_pos + 2 <= n,
        decreases n - pos,
    {
        let ghost prefix = player_names@.map_values(|v: Vec<u8>| v@);
        proof {
            lemma_first_pattern_from(s@, comma_space(), pos as int);
        }
        let k = find_pattern_from(s, comma.as_slice(), pos);
        if k < n {
            assert(pattern_at(s@, comma_space(), k as int));
            let segment = slice_to_vec(slice_subrange(s, pos, k));
            player_names.push(segment);
            proof {
                assert(player_names@.map_values(|v: Vec<u8>| v@) =~= prefix.push(
                    s@.subrange(pos as int, k as int),
                ));
                assert(split_names_from(s@, pos as int) == seq![
                    s@.subrange(pos as int, k as int),
                ] + split_names_from(s@, k + 2));
                assert(prefix + split_names_from(s@, pos as int) =~= prefix.push(
                    s@.subrange(pos as int, k as int),
                ) + split_names_from(s@, k + 2));
            }
            pos = k + 2;
        } else {
            let segment = slice_to_vec(slice_subrange(s, pos, n));
            player_names.push(segment);
            proof {
                assert(player_names@.map_values(|v: Vec<u8>| v@) =~= prefix.push(
                    s@.subrange(pos as int, n as int),
                ));
                assert(split_names_from(s@, pos as int) == seq![
                    s@.subrange(pos as int, n as int),
                ]);
                assert(prefix + split_names_from(s@, pos as int) =~= prefix.push(
                    s@.subrange(pos as int, n as int),
                ));
            }
            pos = n;
        }
    }
    proof {
        assert(split_names_from(s@, pos as int) =~= Seq::<Seq<u8>>::empty());
        assert(player_names@.map_values(|v: Vec<u8>| v@) + Seq::<Seq<u8>>::empty()
            =~= player_names@.map_values(|v: Vec<u8>| v@));
    }
    Some(PlayerListInfo { current_players, max_players, player_names })
}

/// The exact output of the init system's activity query when the unit is
/// active.
pub open spec fn active_answer() -> Seq<u8> {
    seq!['a' as u8, 'c' as u8, 't' as u8, 'i' as u8, 'v' as u8, 'e' as u8, '\n' as u8]
}

/// Whether the init system's answer reports the unit active.
pub fn init_reports_active(out: &[u8]) -> (r: bool)
    ensures
        r == (out@ == active_answer()),
{
    let marker: [u8; 7] = ['a' as u8, 'c' as u8, 't' as u8, 'i' as u8, 'v' as u8, 'e' as u8, '\n' as u8];
    if out.len() != 7 {
        proof {
            assert(out@ != active_answer());
        }
        return false;
    }
    let r = pattern_matches_at(out, marker.as_slice(), 0);
    proof {
        assert(marker@ =~= active_answer());
        if pattern_at(out@, active_answer(), 0) {
            assert(out@ =~= active_answer());
        }
    }
    r
}

/// The marker in the auxiliary tool's error output that signals a refused
/// connection.
pub open spec fn connection_failed_marker() -> Seq<u8> {
    seq![
        'C' as u8, 'o' as u8, 'n' as u8, 'n' as u8, 'e' as u8, 'c' as u8, 't' as u8, 'i' as u8,
        'o' as u8, 'n' as u8, ' ' as u8, 'f' as u8, 'a' as u8, 'i' as u8, 'l' as u8, 'e' as u8,
        'd' as u8,
    ]
}

/// Read the auxiliary query's raw capture: a refused connection on the
/// error stream outranks whatever arrived on the output stream.
pub fn interpret_aux_result(stdout_bytes: Vec<u8>, stderr_bytes: &[u8]) -> (r: AuxQueryOutcome)
    ensures
        contains_pattern(stderr_bytes@, connection_failed_marker()) ==> r
            is ConnectionFailure,
        !contains_pattern(stderr_bytes@, connection_failed_marker()) ==> r
            == AuxQueryOutcome::Output(stdout_bytes),
{
    let mut marker: Vec<u8> = Vec::new();
    marker.push('C' as u8);
    marker.push('o' as u8);
    marker.push('n' as u8);
    marker.push('n' as u8);
    marker.push('e' as u8);
    marker.push('c' as u8);
    marker.push('t' as u8);
    marker.push('i' as u8);
    marker.push('o' as u8);
    marker.push('n' as u8);
    marker.push(' ' as u8);
    marker.push('f' as u8);
    marker.push('a' as u8);
    marker.push('i' as u8);
    marker.push('l' as u8);
    marker.push('e' as u8);
    marker.push('d' as u8);
    assert(marker@ =~= connection_failed_marker());
    if slice_contains_pattern(stderr_bytes, marker.as_slice()) {
        AuxQueryOutcome::ConnectionFailure
    } else {
        AuxQueryOutcome::Output(stdout_bytes)
    }
}

/// Classify the service's state from the init system's answer and — only
/// when the unit is active — the auxiliary query's outcome, exactly one of
/// which is passed in.
pub fn classify_status(init_active: bool, aux: Option<AuxQueryOutcome>) -> (r: Result<
    ServiceStatus,
    StatusError,
>)
    requires
        init_active <==> aux is Some,
    ensures
        !init_active ==> r == Ok::<ServiceStatus, StatusError>(ServiceStatus::Inactive),
        aux matches Some(AuxQueryOutcome::ConnectionFailure) ==> r == Ok::<
            ServiceStatus,
            StatusError,
        >(ServiceStatus::Starting),
        aux matches Some(AuxQueryOutcome::Output(o)) ==> (if list_output_wellformed(o@) {
            &&& r matches Ok(st)
            &&& st matches ServiceStatus::Running { current_players, max_players, player_names }
            &&& current_players == spec_current_players(o@)
            &&& max_players == spec_max_players(o@)
            &&& player_names@.map_values(|n: Vec<u8>| n@) == spec_player_names(o@)
        } else {
            r == Err::<ServiceStatus, StatusError>(StatusError::MalformedListOutput)
        }),
{
    match aux {
        None => Ok(ServiceStatus::Inactive),
        Some(AuxQueryOutcome::ConnectionFailure) => Ok(ServiceStatus::Starting),
        Some(AuxQueryOutcome::Output(o)) => match parse_player_list(o.as_slice()) {
            Some(info) => Ok(
                ServiceStatus::Running {
                    current_players: info.current_players,
                    max_players: info.max_players,
                    player_names: info.player_names,
                },
            ),
            None => Err(StatusError::MalformedListOutput),
        },
    }
}

} // verus!
