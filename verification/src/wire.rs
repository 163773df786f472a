//! The wire grammar: what one framed line must look like, and the value it
//! denotes.
//!
//! Each line is one JSON document of a fixed shape,
//!
//! ```text
//! {"Domain": string, "Invocation": string,
//!  "Payload": {"Json": string} | {"HistoryItem": {
//!      "Domain": string, "Invocation": string, "Amplitude": string,
//!      "StateType": string, "State": string}}}
//! ```
//!
//! with JSON whitespace allowed between tokens and the members of one object
//! accepted in any order, each exactly once.  Strings support the short JSON
//! escapes and `\uXXXX` for scalar values; a surrogate code unit, an
//! unescaped control character, an unknown member, or anything else outside
//! this shape makes the line malformed.
//!
//! [`decode_packet`] is the single meaning function: the decoder in
//! `message_parser` returns exactly what it returns, and nothing else.

use vstd::prelude::*;

verus! {

// ---------------------------------------------------------------------------
// Decoded values
// ---------------------------------------------------------------------------

/// The five text fields of a history-item payload, as written on the wire.
#[verifier::ext_equal]
pub ghost struct ItemDescriptor {
    pub domain: Seq<char>,
    pub invocation: Seq<char>,
    pub amplitude: Seq<char>,
    pub state_type: Seq<char>,
    pub state: Seq<char>,
}

/// The payload half of a decoded line.
pub ghost enum PayloadModel {
    Json(Seq<char>),
    Item(ItemDescriptor),
}

/// The value denoted by one well-formed line.
#[verifier::ext_equal]
pub ghost struct PacketModel {
    pub domain: Seq<char>,
    pub invocation: Seq<char>,
    pub payload: PayloadModel,
}

// ---------------------------------------------------------------------------
// Whitespace
// ---------------------------------------------------------------------------

/// JSON whitespace.
pub open spec fn is_ws(c: char) -> bool {
    c == ' ' || c == '\t' || c == '\r' || c == '\n'
}

/// First position at or after `i` that does not hold whitespace (or the end
/// of `s`).
pub open spec fn ws_end(s: Seq<char>, i: int) -> int
    decreases s.len() - i,
{
    if 0 <= i < s.len() && is_ws(s[i]) {
        ws_end(s, i + 1)
    } else {
        i
    }
}

pub proof fn lemma_ws_end(s: Seq<char>, i: int)
    ensures
        i <= ws_end(s, i),
        i <= s.len() ==> ws_end(s, i) <= s.len(),
    decreases s.len() - i,
{
    if 0 <= i < s.len() && is_ws(s[i]) {
        lemma_ws_end(s, i + 1);
    }
}

// ---------------------------------------------------------------------------
// Strings
// ---------------------------------------------------------------------------

/// Character produced by a single-character escape, if the escape is known.
pub open spec fn simple_escape(c: char) -> Option<char> {
    if c == '"' {
        Some('"')
    } else if c == '\\' {
        Some('\\')
    } else if c == '/' {
        Some('/')
    } else if c == 'b' {
        Some('\u{0008}')
    } else if c == 'f' {
        Some('\u{000C}')
    } else if c == 'n' {
        Some('\n')
    } else if c == 'r' {
        Some('\r')
    } else if c == 't' {
        Some('\t')
    } else {
        None
    }
}

/// Value of one hexadecimal digit, or -1.
pub open spec fn hex_digit_val(c: char) -> int {
    let v = c as int;
    if '0' as int <= v <= '9' as int {
        v - '0' as int
    } else if 'A' as int <= v <= 'F' as int {
        v - 'A' as int + 10
    } else if 'a' as int <= v <= 'f' as int {
        v - 'a' as int + 10
    } else {
        -1
    }
}

/// Value of the four hexadecimal digits at `i`, or -1 when any of the four
/// positions is missing or not a digit.
pub open spec fn hex4_val(s: Seq<char>, i: int) -> int {
    if i + 4 <= s.len() && hex_digit_val(s[i]) >= 0 && hex_digit_val(s[i + 1]) >= 0
        && hex_digit_val(s[i + 2]) >= 0 && hex_digit_val(s[i + 3]) >= 0 {
        hex_digit_val(s[i]) * 4096 + hex_digit_val(s[i + 1]) * 256 + hex_digit_val(s[i + 2]) * 16
            + hex_digit_val(s[i + 3])
    } else {
        -1
    }
}

/// Whether a `\uXXXX` code unit is a Unicode scalar value (not a surrogate).
pub open spec fn is_scalar16(v: int) -> bool {
    0 <= v < 0xD800 || 0xE000 <= v <= 0xFFFF
}

/// A control character, which must be escaped inside a string.
pub open spec fn is_control(c: char) -> bool {
    (c as u32) < 32
}

/// The body of a string, starting just after the opening quote: the decoded
/// characters and the position just after the closing quote.
pub open spec fn string_tail(s: Seq<char>, i: int) -> Option<(Seq<char>, int)>
    decreases s.len() - i,
{
    if i < 0 || i >= s.len() {
        None
    } else if s[i] == '"' {
        Some((Seq::empty(), i + 1))
    } else if s[i] == '\\' {
        if i + 1 >= s.len() {
            None
        } else {
            let e = s[i + 1];
            if e == 'u' {
                let v = hex4_val(s, i + 2);
                if i + 6 <= s.len() && v >= 0 && is_scalar16(v) {
                    match string_tail(s, i + 6) {
                        Some((t, j)) => Some((seq![v as char] + t, j)),
                        None => None,
                    }
                } else {
                    None
                }
            } else {
                match simple_escape(e) {
                    Some(c) => match string_tail(s, i + 2) {
                        Some((t, j)) => Some((seq![c] + t, j)),
                        None => None,
                    },
                    None => None,
                }
            }
        }
    } else if is_control(s[i]) {
        None
    } else {
        match string_tail(s, i + 1) {
            Some((t, j)) => Some((seq![s[i]] + t, j)),
            None => None,
        }
    }
}

pub proof fn lemma_string_tail_bounds(s: Seq<char>, i: int)
    ensures
        string_tail(s, i) matches Some((t, j)) ==> i < j <= s.len(),
    decreases s.len() - i,
{
    if 0 <= i < s.len() {
        if s[i] == '\\' && i + 1 < s.len() {
            if s[i + 1] == 'u' {
                if i + 6 <= s.len() {
                    lemma_string_tail_bounds(s, i + 6);
                }
            } else {
                lemma_string_tail_bounds(s, i + 2);
            }
        } else {
            lemma_string_tail_bounds(s, i + 1);
        }
    }
}

/// A whole string token at `i`: an opening quote, a body, a closing quote.
pub open spec fn parse_string(s: Seq<char>, i: int) -> Option<(Seq<char>, int)> {
    if 0 <= i < s.len() && s[i] == '"' {
        string_tail(s, i + 1)
    } else {
        None
    }
}

pub proof fn lemma_parse_string_bounds(s: Seq<char>, i: int)
    ensures
        parse_string(s, i) matches Some((t, j)) ==> i + 2 <= j <= s.len(),
{
    lemma_string_tail_bounds(s, i + 1);
}

// ---------------------------------------------------------------------------
// Objects
// ---------------------------------------------------------------------------

/// The members of the history-item object, starting just after its opening
/// brace or after a separating comma.  Each of the five members must appear
/// exactly once, in any order; every value is a string.
pub open spec fn parse_hist_fields(
    s: Seq<char>,
    i: int,
    domain: Option<Seq<char>>,
    invocation: Option<Seq<char>>,
    amplitude: Option<Seq<char>>,
    state_type: Option<Seq<char>>,
    state: Option<Seq<char>>,
) -> Option<(ItemDescriptor, int)>
    decreases s.len() - i,
        via parse_hist_fields_dec
{
    let j = ws_end(s, i);
    match parse_string(s, j) {
        None => None,
        Some((key, k)) => {
            let m = ws_end(s, k);
            if m >= s.len() || s[m] != ':' {
                None
            } else {
                let n = ws_end(s, m + 1);
                match parse_string(s, n) {
                    None => None,
                    Some((v, p)) => {
                        let upd = if key == "Domain"@ && domain is None {
                            Some((Some(v), invocation, amplitude, state_type, state))
                        } else if key == "Invocation"@ && invocation is None {
                            Some((domain, Some(v), amplitude, state_type, state))
                        } else if key == "Amplitude"@ && amplitude is None {
                            Some((domain, invocation, Some(v), state_type, state))
                        } else if key == "StateType"@ && state_type is None {
                            Some((domain, invocation, amplitude, Some(v), state))
                        } else if key == "State"@ && state is None {
                            Some((domain, invocation, amplitude, state_type, Some(v)))
                        } else {
                            None
                        };
                        match upd {
                            None => None,
                            Some((d2, i2, a2, t2, s2)) => {
                                let q = ws_end(s, p);
                                if q < s.len() && s[q] == ',' {
                                    parse_hist_fields(s, q + 1, d2, i2, a2, t2, s2)
                                } else if q < s.len() && s[q] == '}' {
                                    match (d2, i2, a2, t2, s2) {
                                        (
                                            Some(fd),
                                            Some(fi),
                                            Some(fa),
                                            Some(ft),
                                            Some(fs),
                                        ) => Some(
                                            (
                                                ItemDescriptor {
                                                    domain: fd,
                                                    invocation: fi,
                                                    amplitude: fa,
                                                    state_type: ft,
                                                    state: fs,
                                                },
                                                q + 1,
                                            ),
                                        ),
                                        _ => None,
                                    }
                                } else {
                                    None
                                }
                            },
                        }
                    },
                }
            }
        },
    }
}

#[via_fn]
proof fn parse_hist_fields_dec(
    s: Seq<char>,
    i: int,
    domain: Option<Seq<char>>,
    invocation: Option<Seq<char>>,
    amplitude: Option<Seq<char>>,
    state_type: Option<Seq<char>>,
    state: Option<Seq<char>>,
) {
    lemma_ws_end(s, i);
    let j = ws_end(s, i);
    lemma_parse_string_bounds(s, j);
    if let Some((key, k)) = parse_string(s, j) {
        lemma_ws_end(s, k);
        let m = ws_end(s, k);
        lemma_ws_end(s, m + 1);
        let n = ws_end(s, m + 1);
        lemma_parse_string_bounds(s, n);
        if let Some((v, p)) = parse_string(s, n) {
            lemma_ws_end(s, p);
        }
    }
}

/// A history-item object at `i`: braces around the five members.
pub open spec fn parse_hist_object(s: Seq<char>, i: int) -> Option<(ItemDescriptor, int)> {
    if 0 <= i < s.len() && s[i] == '{' {
        parse_hist_fields(
            s,
            i + 1,
            Option::<Seq<char>>::None,
            Option::<Seq<char>>::None,
            Option::<Seq<char>>::None,
            Option::<Seq<char>>::None,
            Option::<Seq<char>>::None,
        )
    } else {
        None
    }
}

pub proof fn lemma_parse_hist_fields_bounds(
    s: Seq<char>,
    i: int,
    domain: Option<Seq<char>>,
    invocation: Option<Seq<char>>,
    amplitude: Option<Seq<char>>,
    state_type: Option<Seq<char>>,
    state: Option<Seq<char>>,
)
    ensures
        parse_hist_fields(s, i, domain, invocation, amplitude, state_type, state) matches Some(
            (d, j),
        ) ==> i < j <= s.len(),
    decreases s.len() - i,
{
    lemma_ws_end(s, i);
    let j = ws_end(s, i);
    lemma_parse_string_bounds(s, j);
    if let Some((key, k)) = parse_string(s, j) {
        lemma_ws_end(s, k);
        let m = ws_end(s, k);
        lemma_ws_end(s, m + 1);
        let n = ws_end(s, m + 1);
        lemma_parse_string_bounds(s, n);
        if let Some((v, p)) = parse_string(s, n) {
            lemma_ws_end(s, p);
            let q = ws_end(s, p);
            if q < s.len() && s[q] == ',' {
                if key == "Domain"@ && domain is None {
                    lemma_parse_hist_fields_bounds(
                        s,
                        q + 1,
                        Some(v),
                        invocation,
                        amplitude,
                        state_type,
                        state,
                    );
                } else if key == "Invocation"@ && invocation is None {
                    lemma_parse_hist_fields_bounds(
                        s,
                        q + 1,
                        domain,
                        Some(v),
                        amplitude,
                        state_type,
                        state,
                    );
                } else if key == "Amplitude"@ && amplitude is None {
                    lemma_parse_hist_fields_bounds(
                        s,
                        q + 1,
                        domain,
                        invocation,
                        Some(v),
                        state_type,
                        state,
                    );
                } else if key == "StateType"@ && state_type is None {
                    lemma_parse_hist_fields_bounds(
                        s,
                        q + 1,
                        domain,
                        invocation,
                        amplitude,
                        Some(v),
                        state,
                    );
                } else if key == "State"@ && state is None {
                    lemma_parse_hist_fields_bounds(
                        s,
                        q + 1,
                        domain,
                        invocation,
                        amplitude,
                        state_type,
                        Some(v),
                    );
                }
            }
        }
    }
}

pub proof fn lemma_parse_hist_object_bounds(s: Seq<char>, i: int)
    ensures
        parse_hist_object(s, i) matches Some((d, j)) ==> i < j <= s.len(),
{
    if 0 <= i < s.len() && s[i] == '{' {
        lemma_parse_hist_fields_bounds(
            s,
            i + 1,
            Option::<Seq<char>>::None,
            Option::<Seq<char>>::None,
            Option::<Seq<char>>::None,
            Option::<Seq<char>>::None,
            Option::<Seq<char>>::None,
        );
    }
}

/// A payload object at `i`: exactly one member, either `"Json"` with a
/// string value or `"HistoryItem"` with a history-item object.
pub open spec fn parse_payload(s: Seq<char>, i: int) -> Option<(PayloadModel, int)> {
    if !(0 <= i < s.len() && s[i] == '{') {
        None
    } else {
        let j = ws_end(s, i + 1);
        match parse_string(s, j) {
            None => None,
            Some((key, k)) => {
                let m = ws_end(s, k);
                if m >= s.len() || s[m] != ':' {
                    None
                } else {
                    let n = ws_end(s, m + 1);
                    if key == "Json"@ {
                        match parse_string(s, n) {
                            None => None,
                            Some((v, p)) => {
                                let q = ws_end(s, p);
                                if q < s.len() && s[q] == '}' {
                                    Some((PayloadModel::Json(v), q + 1))
                                } else {
                                    None
                                }
                            },
                        }
                    } else if key == "HistoryItem"@ {
                        match parse_hist_object(s, n) {
                            None => None,
                            Some((d, p)) => {
                                let q = ws_end(s, p);
                                if q < s.len() && s[q] == '}' {
                                    Some((PayloadModel::Item(d), q + 1))
                                } else {
                                    None
                                }
                            },
                        }
                    } else {
                        None
                    }
                }
            },
        }
    }
}

pub proof fn lemma_parse_payload_bounds(s: Seq<char>, i: int)
    ensures
        parse_payload(s, i) matches Some((pl, j)) ==> i < j <= s.len(),
{
    if 0 <= i < s.len() && s[i] == '{' {
        lemma_ws_end(s, i + 1);
        let j = ws_end(s, i + 1);
        lemma_parse_string_bounds(s, j);
        if let Some((key, k)) = parse_string(s, j) {
            lemma_ws_end(s, k);
            let m = ws_end(s, k);
            lemma_ws_end(s, m + 1);
            let n = ws_end(s, m + 1);
            lemma_parse_string_bounds(s, n);
            if let Some((v, p)) = parse_string(s, n) {
                lemma_ws_end(s, p);
            }
            lemma_parse_hist_object_bounds(s, n);
            if let Some((d, p)) = parse_hist_object(s, n) {
                lemma_ws_end(s, p);
            }
        }
    }
}

/// The members of the envelope object, starting just after its opening
/// brace or after a separating comma: `"Domain"` and `"Invocation"` with
/// string values and `"Payload"` with a payload object, each exactly once,
/// in any order.
pub open spec fn parse_env_fields(
    s: Seq<char>,
    i: int,
    domain: Option<Seq<char>>,
    invocation: Option<Seq<char>>,
    payload: Option<PayloadModel>,
) -> Option<(PacketModel, int)>
    decreases s.len() - i, 1int,
        via parse_env_fields_dec
{
    let j = ws_end(s, i);
    match parse_string(s, j) {
        None => None,
        Some((key, k)) => {
            let m = ws_end(s, k);
            if m >= s.len() || s[m] != ':' {
                None
            } else {
                let n = ws_end(s, m + 1);
                if key == "Domain"@ && domain is None {
                    match parse_string(s, n) {
                        Some((v, p)) => env_tail(s, p, Some(v), invocation, payload),
                        None => None,
                    }
                } else if key == "Invocation"@ && invocation is None {
                    match parse_string(s, n) {
                        Some((v, p)) => env_tail(s, p, domain, Some(v), payload),
                        None => None,
                    }
                } else if key == "Payload"@ && payload is None {
                    match parse_payload(s, n) {
                        Some((pl, p)) => env_tail(s, p, domain, invocation, Some(pl)),
                        None => None,
                    }
                } else {
                    None
                }
            }
        },
    }
}

/// After one envelope member, at `p`: a comma continues with the remaining
/// members, a closing brace ends the envelope, which must then be complete.
pub open spec fn env_tail(
    s: Seq<char>,
    p: int,
    domain: Option<Seq<char>>,
    invocation: Option<Seq<char>>,
    payload: Option<PayloadModel>,
) -> Option<(PacketModel, int)>
    decreases s.len() - p, 0int,
        via env_tail_dec
{
    let q = ws_end(s, p);
    if q < s.len() && s[q] == ',' {
        parse_env_fields(s, q + 1, domain, invocation, payload)
    } else if q < s.len() && s[q] == '}' {
        match (domain, invocation, payload) {
            (Some(fd), Some(fi), Some(fp)) => Some(
                (PacketModel { domain: fd, invocation: fi, payload: fp }, q + 1),
            ),
            _ => None,
        }
    } else {
        None
    }
}

#[via_fn]
proof fn parse_env_fields_dec(
    s: Seq<char>,
    i: int,
    domain: Option<Seq<char>>,
    invocation: Option<Seq<char>>,
    payload: Option<PayloadModel>,
) {
    lemma_ws_end(s, i);
    let j = ws_end(s, i);
    lemma_parse_string_bounds(s, j);
    if let Some((key, k)) = parse_string(s, j) {
        lemma_ws_end(s, k);
        let m = ws_end(s, k);
        lemma_ws_end(s, m + 1);
        let n = ws_end(s, m + 1);
        lemma_parse_string_bounds(s, n);
        lemma_parse_payload_bounds(s, n);
    }
}

#[via_fn]
proof fn env_tail_dec(
    s: Seq<char>,
    p: int,
    domain: Option<Seq<char>>,
    invocation: Option<Seq<char>>,
    payload: Option<PayloadModel>,
) {
    lemma_ws_end(s, p);
}

// ---------------------------------------------------------------------------
// The whole line
// ---------------------------------------------------------------------------

/// The value denoted by one framed line: the envelope object, possibly
/// surrounded by whitespace, and nothing else.  `None` means the line is
/// malformed.
pub open spec fn decode_packet(s: Seq<char>) -> Option<PacketModel> {
    let i = ws_end(s, 0);
    if i < s.len() && s[i] == '{' {
        match parse_env_fields(
            s,
            i + 1,
            Option::<Seq<char>>::None,
            Option::<Seq<char>>::None,
            Option::<PayloadModel>::None,
        ) {
            None => None,
            Some((pm, j)) => {
                if ws_end(s, j) == s.len() {
                    Some(pm)
                } else {
                    None
                }
            },
        }
    } else {
        None
    }
}

} // verus!
