//! The message decoder: one framed text line becomes one typed [`Action`].
//!
//! The decoder is pure and stateless.  Its contract is exact: it returns an
//! action precisely when [`decode_packet`] gives the line a value, and that
//! action carries exactly the decoded fields; on anything else it returns a
//! [`DecodeError`] holding the offending line and the sender it came from.

use vstd::prelude::*;

use crate::actions::{Action, ActionView, Message, MessageView};
use crate::state::{HistoryAction, HistoryItem, HistoryState};
use crate::state::{HistoryActionView, HistoryItemView, HistoryStateView};
use crate::text::{chars_eq_str, chars_vec, string_from_chars};
use crate::wire::{
    decode_packet, env_tail, hex_digit_val, hex4_val, is_scalar16, parse_env_fields,
    parse_hist_fields, parse_hist_object, parse_payload, parse_string, simple_escape,
    string_tail, ws_end, ItemDescriptor, PacketModel, PayloadModel,
};
use crate::wire::{lemma_parse_string_bounds, lemma_ws_end};

verus! {

// ---------------------------------------------------------------------------
// What a decoded line means
// ---------------------------------------------------------------------------

/// The history item denoted by a wire descriptor: action and state halves
/// assembled from the five fields, all `selected` flags initially clear.
pub open spec fn item_view_of(d: ItemDescriptor) -> HistoryItemView {
    HistoryItemView {
        action: HistoryActionView {
            domain: d.domain,
            invocation: d.invocation,
            amplitude: d.amplitude,
            selected: false,
        },
        state: HistoryStateView { id: d.state_type, content: d.state, selected: false },
        selected: false,
    }
}

/// The message denoted by a wire payload: `Json` text passes through as a
/// raw message, a history-item descriptor becomes the item it describes.
pub open spec fn message_of_payload(p: PayloadModel) -> MessageView {
    match p {
        PayloadModel::Json(content) => MessageView::Raw(content),
        PayloadModel::Item(d) => MessageView::HistoryItem(item_view_of(d)),
    }
}

/// The action denoted by a decoded packet, tagged with its sender.
pub open spec fn action_of_packet(pm: PacketModel, sender: Seq<char>) -> ActionView {
    ActionView {
        domain: pm.domain,
        invocation: pm.invocation,
        message: message_of_payload(pm.payload),
        sender: sender,
    }
}

/// A line the decoder rejected, together with the sender it came from.
#[derive(Debug, Clone)]
pub struct DecodeError {
    pub line: String,
    pub sender: String,
}

// ---------------------------------------------------------------------------
// Character helpers
// ---------------------------------------------------------------------------

/// Relies on `char::from_u32`: `Some` exactly on Unicode scalar values
/// (codepoints outside the surrogate range), returning that value.
#[verifier::external_body]
fn char_from_u32(v: u32) -> (r: Option<char>)
    ensures
        (v < 0xD800 || (0xE000 <= v && v <= 0x10FFFF)) ==> r == Some(v as char),
        !(v < 0xD800 || (0xE000 <= v && v <= 0x10FFFF)) ==> r is None,
{
    char::from_u32(v)
}

fn hex_digit(c: char) -> (r: Option<u32>)
    ensures
        r matches Some(d) ==> hex_digit_val(c) == d as int && d < 16,
        r is None ==> hex_digit_val(c) < 0,
{
    let u = c as u32;
    if 48 <= u && u <= 57 {
        Some(u - 48)
    } else if 65 <= u && u <= 70 {
        Some(u - 55)
    } else if 97 <= u && u <= 102 {
        Some(u - 87)
    } else {
        None
    }
}

fn simple_escape_ex(c: char) -> (r: Option<char>)
    ensures
        r == simple_escape(c),
{
    if c == '"' {
        Some('"')
    } else if c == '\\' {
        Some('\\')
    } else if c == '/' {
        Some('/')
    } else if c == 'b' {
        Some('\u{0008}')
    } else if c == 'f' {
        Some('\u{000C}')
    } else if c == 'n' {
        Some('\n')
    } else if c == 'r' {
        Some('\r')
    } else if c == 't' {
        Some('\t')
    } else {
        None
    }
}

// ---------------------------------------------------------------------------
// Token readers
// ---------------------------------------------------------------------------

fn skip_ws(v: &Vec<char>, i: usize) -> (r: usize)
    requires
        i <= v@.len(),
    ensures
        r as int == ws_end(v@, i as int),
        i <= r <= v@.len(),
    decreases v@.len() - i,
{
    proof {
        lemma_ws_end(v@, i as int);
    }
    let mut j = i;
    while j < v.len()
        invariant
            i <= j <= v@.len(),
            ws_end(v@, i as int) == ws_end(v@, j as int),
        decreases v@.len() - j,
    {
        let c = v[j];
        if !(c == ' ' || c == '\t' || c == '\r' || c == '\n') {
            proof {
                lemma_ws_end(v@, i as int);
            }
            return j;
        }
        j = j + 1;
    }
    j
}

/// Read one string token at `i`: mirror of [`parse_string`].
fn parse_string_ex(v: &Vec<char>, i: usize) -> (r: Option<(Vec<char>, usize)>)
    requires
        i <= v@.len(),
    ensures
        r matches Some((t, j)) ==> {
            &&& parse_string(v@, i as int) == Some((t@, j as int))
            &&& i < j <= v@.len()
        },
        r is None ==> parse_string(v@, i as int) is None,
{
    if i >= v.len() {
        return None;
    }
    if v[i] != '"' {
        return None;
    }
    proof {
        lemma_parse_string_bounds(v@, i as int);
    }
    let mut acc: Vec<char> = Vec::new();
    let mut cur: usize = i + 1;
    loop
        invariant
            i + 1 <= cur <= v@.len(),
            i < v@.len(),
            v@[i as int] == '"',
            (match string_tail(v@, cur as int) {
                Some((t, j)) => string_tail(v@, i + 1 as int) == Some((acc@ + t, j)),
                None => string_tail(v@, i + 1 as int) is None,
            }),
        decreases v@.len() - cur,
    {
        if cur >= v.len() {
            return None;
        }
        let c = v[cur];
        if c == '"' {
            proof {
                assert(string_tail(v@, cur as int) == Some((Seq::<char>::empty(), cur + 1 as int)));
                assert(acc@ + Seq::<char>::empty() =~= acc@);
            }
            return Some((acc, cur + 1));
        } else if c == '\\' {
            if cur + 1 >= v.len() {
                return None;
            }
            let e = v[cur + 1];
            if e == 'u' {
                if v.len() - cur < 6 {
                    return None;
                }
                let d0 = hex_digit(v[cur + 2]);
                let d1 = hex_digit(v[cur + 3]);
                let d2 = hex_digit(v[cur + 4]);
                let d3 = hex_digit(v[cur + 5]);
                match (d0, d1, d2, d3) {
                    (Some(x0), Some(x1), Some(x2), Some(x3)) => {
                        let val: u32 = x0 * 4096 + x1 * 256 + x2 * 16 + x3;
                        proof {
                            assert(hex4_val(v@, cur + 2 as int) == val as int);
                        }
                        if val < 0xD800 || val >= 0xE000 {
                            match char_from_u32(val) {
                                Some(ch) => {
                                    let ghost acc_old = acc@;
                                    acc.push(ch);
                                    proof {
                                        step_bridge(v@, cur as int, cur + 6 as int, ch, acc_old);
                                    }
                                    cur = cur + 6;
                                },
                                None => {
                                    proof {
                                        assert(is_scalar16(val as int));
                                    }
                                    return vstd::pervasive::unreached();
                                },
                            }
                        } else {
                            return None;
                        }
                    },
                    _ => {
                        return None;
                    },
                }
            } else {
                match simple_escape_ex(e) {
                    Some(c2) => {
                        let ghost acc_old = acc@;
                        acc.push(c2);
                        proof {
                            step_bridge(v@, cur as int, cur + 2 as int, c2, acc_old);
                        }
                        cur = cur + 2;
                    },
                    None => {
                        return None;
                    },
                }
            }
        } else if (c as u32) < 32 {
            return None;
        } else {
            let ghost acc_old = acc@;
            acc.push(c);
            proof {
                step_bridge(v@, cur as int, cur + 1 as int, c, acc_old);
            }
            cur = cur + 1;
        }
    }
}

// ---------------------------------------------------------------------------
// Object readers
// ---------------------------------------------------------------------------

/// Read the members of a history-item object: mirror of
/// [`parse_hist_fields`], assembling the item the descriptor denotes.
fn parse_hist_fields_ex(
    v: &Vec<char>,
    i: usize,
    domain: Option<String>,
    invocation: Option<String>,
    amplitude: Option<String>,
    state_type: Option<String>,
    state: Option<String>,
) -> (r: Option<(HistoryItem, usize)>)
    requires
        i <= v@.len(),
    ensures
        r matches Some((item, j)) ==> {
            &&& parse_hist_fields(
                v@,
                i as int,
                domain.deep_view(),
                invocation.deep_view(),
                amplitude.deep_view(),
                state_type.deep_view(),
                state.deep_view(),
            ) matches Some((d, jj)) && jj == j as int && item@ == item_view_of(d)
            &&& i < j <= v@.len()
        },
        r is None ==> parse_hist_fields(
            v@,
            i as int,
            domain.deep_view(),
            invocation.deep_view(),
            amplitude.deep_view(),
            state_type.deep_view(),
            state.deep_view(),
        ) is None,
    decreases v@.len() - i,
{
    let j = skip_ws(v, i);
    match parse_string_ex(v, j) {
        None => None,
        Some((key, k)) => {
            let m = skip_ws(v, k);
            if m == v.len() || v[m] != ':' {
                return None;
            }
            let n = skip_ws(v, m + 1);
            match parse_string_ex(v, n) {
                None => None,
                Some((val, p)) => {
                    let val_s = string_from_chars(&val);
                    let upd: Option<
                        (
                            Option<String>,
                            Option<String>,
                            Option<String>,
                            Option<String>,
                            Option<String>,
                        ),
                    > = if chars_eq_str(&key, "Domain") && domain.is_none() {
                        Some((Some(val_s), invocation, amplitude, state_type, state))
                    } else if chars_eq_str(&key, "Invocation") && invocation.is_none() {
                        Some((domain, Some(val_s), amplitude, state_type, state))
                    } else if chars_eq_str(&key, "Amplitude") && amplitude.is_none() {
                        Some((domain, invocation, Some(val_s), state_type, state))
                    } else if chars_eq_str(&key, "StateType") && state_type.is_none() {
                        Some((domain, invocation, amplitude, Some(val_s), state))
                    } else if chars_eq_str(&key, "State") && state.is_none() {
                        Some((domain, invocation, amplitude, state_type, Some(val_s)))
                    } else {
                        None
                    };
                    match upd {
                        None => None,
                        Some((d2, i2, a2, t2, s2)) => {
                            let q = skip_ws(v, p);
                            if q < v.len() && v[q] == ',' {
                                parse_hist_fields_ex(v, q + 1, d2, i2, a2, t2, s2)
                            } else if q < v.len() && v[q] == '}' {
                                match (d2, i2, a2, t2, s2) {
                                    (Some(fd), Some(fi), Some(fa), Some(ft), Some(fs)) => {
                                        let item = HistoryItem::new(
                                            HistoryAction::new(fd, fi, fa),
                                            HistoryState::new(ft, fs),
                                        );
                                        Some((item, q + 1))
                                    },
                                    _ => None,
                                }
                            } else {
                                None
                            }
                        },
                    }
                },
            }
        },
    }
}

/// Read a history-item object: mirror of [`parse_hist_object`].
fn parse_hist_object_ex(v: &Vec<char>, i: usize) -> (r: Option<(HistoryItem, usize)>)
    requires
        i <= v@.len(),
    ensures
        r matches Some((item, j)) ==> {
            &&& parse_hist_object(v@, i as int) matches Some((d, jj)) && jj == j as int && item@
                == item_view_of(d)
            &&& i < j <= v@.len()
        },
        r is None ==> parse_hist_object(v@, i as int) is None,
{
    if i == v.len() || v[i] != '{' {
        return None;
    }
    parse_hist_fields_ex(v, i + 1, None, None, None, None, None)
}

/// Read a payload object: mirror of [`parse_payload`], building the message
/// the payload denotes.
fn parse_payload_ex(v: &Vec<char>, i: usize) -> (r: Option<(Message, usize)>)
    requires
        i <= v@.len(),
    ensures
        r matches Some((msg, j)) ==> {
            &&& parse_payload(v@, i as int) matches Some((pm, jj)) && jj == j as int && msg@
                == message_of_payload(pm)
            &&& i < j <= v@.len()
        },
        r is None ==> parse_payload(v@, i as int) is None,
{
    if i == v.len() || v[i] != '{' {
        return None;
    }
    let j = skip_ws(v, i + 1);
    match parse_string_ex(v, j) {
        None => None,
        Some((key, k)) => {
            let m = skip_ws(v, k);
            if m == v.len() || v[m] != ':' {
                return None;
            }
            let n = skip_ws(v, m + 1);
            if chars_eq_str(&key, "Json") {
                match parse_string_ex(v, n) {
                    None => None,
                    Some((val, p)) => {
                        let q = skip_ws(v, p);
                        if q < v.len() && v[q] == '}' {
                            Some((Message::Raw(string_from_chars(&val)), q + 1))
                        } else {
                            None
                        }
                    },
                }
            } else if chars_eq_str(&key, "HistoryItem") {
                match parse_hist_object_ex(v, n) {
                    None => None,
                    Some((item, p)) => {
                        let q = skip_ws(v, p);
                        if q < v.len() && v[q] == '}' {
                            Some((Message::HistoryItem(item), q + 1))
                        } else {
                            None
                        }
                    },
                }
            } else {
                None
            }
        },
    }
}

/// Read the members of the envelope object: mirror of [`parse_env_fields`].
/// `payload_m` is the wire value that a previously read `payload` denotes.
fn parse_env_fields_ex(
    v: &Vec<char>,
    i: usize,
    domain: Option<String>,
    invocation: Option<String>,
    payload: Option<Message>,
    Ghost(payload_m): Ghost<Option<PayloadModel>>,
) -> (r: Option<(String, String, Message, usize)>)
    requires
        i <= v@.len(),
        match (payload, payload_m) {
            (Some(msg), Some(pm)) => msg@ == message_of_payload(pm),
            (None, None) => true,
            _ => false,
        },
    ensures
        r matches Some((d, iv, msg, j)) ==> {
            &&& parse_env_fields(
                v@,
                i as int,
                domain.deep_view(),
                invocation.deep_view(),
                payload_m,
            ) matches Some((pm, jj)) && jj == j as int && d@ == pm.domain && iv@ == pm.invocation
                && msg@ == message_of_payload(pm.payload)
            &&& i < j <= v@.len()
        },
        r is None ==> parse_env_fields(
            v@,
            i as int,
            domain.deep_view(),
            invocation.deep_view(),
            payload_m,
        ) is None,
    decreases v@.len() - i,
{
    let j = skip_ws(v, i);
    match parse_string_ex(v, j) {
        None => None,
        Some((key, k)) => {
            let m = skip_ws(v, k);
            if m == v.len() || v[m] != ':' {
                return None;
            }
            let n = skip_ws(v, m + 1);
            if chars_eq_str(&key, "Domain") && domain.is_none() {
                match parse_string_ex(v, n) {
                    None => None,
                    Some((val, p)) => {
                        let d2 = Some(string_from_chars(&val));
                        env_sep(v, i, p, d2, invocation, payload, Ghost(payload_m))
                    },
                }
            } else if chars_eq_str(&key, "Invocation") && invocation.is_none() {
                match parse_string_ex(v, n) {
                    None => None,
                    Some((val, p)) => {
                        let i2 = Some(string_from_chars(&val));
                        env_sep(v, i, p, domain, i2, payload, Ghost(payload_m))
                    },
                }
            } else if chars_eq_str(&key, "Payload") && payload.is_none() {
                match parse_payload_ex(v, n) {
                    None => None,
                    Some((msg, p)) => {
                        let ghost pm = (match parse_payload(v@, n as int) {
                            Some((pm, _)) => pm,
                            None => arbitrary(),
                        });
                        env_sep(v, i, p, domain, invocation, Some(msg), Ghost(Some(pm)))
                    },
                }
            } else {
                None
            }
        },
    }
}

/// After one envelope member: a comma continues the object, a closing brace
/// finishes it (all three members must then be present).
fn env_sep(
    v: &Vec<char>,
    i: usize,
    p: usize,
    domain: Option<String>,
    invocation: Option<String>,
    payload: Option<Message>,
    Ghost(payload_m): Ghost<Option<PayloadModel>>,
) -> (r: Option<(String, String, Message, usize)>)
    requires
        i < p <= v@.len(),
        match (payload, payload_m) {
            (Some(msg), Some(pm)) => msg@ == message_of_payload(pm),
            (None, None) => true,
            _ => false,
        },
    ensures
        r matches Some((d, iv, msg, j)) ==> {
            &&& env_tail(
                v@,
                p as int,
                domain.deep_view(),
                invocation.deep_view(),
                payload_m,
            ) matches Some((pm, jj)) && jj == j as int && d@ == pm.domain && iv@ == pm.invocation
                && msg@ == message_of_payload(pm.payload)
            &&& i < j <= v@.len()
        },
        r is None ==> env_tail(
            v@,
            p as int,
            domain.deep_view(),
            invocation.deep_view(),
            payload_m,
        ) is None,
    decreases v@.len() - p,
{
    let q = skip_ws(v, p);
    if q < v.len() && v[q] == ',' {
        parse_env_fields_ex(v, q + 1, domain, invocation, payload, Ghost(payload_m))
    } else if q < v.len() && v[q] == '}' {
        match (domain, invocation, payload) {
            (Some(fd), Some(fi), Some(fp)) => Some((fd, fi, fp, q + 1)),
            _ => None,
        }
    } else {
        None
    }
}

// ---------------------------------------------------------------------------
// The decoder
// ---------------------------------------------------------------------------

/// Decode one framed line into the action it denotes, tagged with the
/// sender it came from.
///
/// Returns `Ok` exactly when [`decode_packet`] gives `raw` a value, and the
/// action then carries exactly the decoded fields; otherwise returns the
/// offending line and sender unchanged, and the caller goes on with the next
/// line.
pub fn parse(raw: String, sender: String) -> (r: Result<Action, DecodeError>)
    ensures
        r matches Ok(a) ==> decode_packet(raw@) matches Some(pm) && a@ == action_of_packet(
            pm,
            sender@,
        ),
        r matches Err(e) ==> decode_packet(raw@) is None && e.line@ == raw@ && e.sender@
            == sender@,
{
    let v = chars_vec(raw.as_str());
    let i = skip_ws(&v, 0);
    if i < v.len() && v[i] == '{' {
        match parse_env_fields_ex(&v, i + 1, None, None, None, Ghost(None)) {
            None => Err(DecodeError { line: raw, sender }),
            Some((d, iv, msg, j)) => {
                let e = skip_ws(&v, j);
                if e == v.len() {
                    let a = Action { domain: d, invocation: iv, message: msg, sender };
                    proof {
                        let pm = (match parse_env_fields(
                            v@,
                            i + 1 as int,
                            Option::<Seq<char>>::None,
                            Option::<Seq<char>>::None,
                            Option::<PayloadModel>::None,
                        ) {
                            Some((pm, _)) => pm,
                            None => arbitrary(),
                        });
                        assert(decode_packet(raw@) == Some(pm));
                        assert(a@ =~= action_of_packet(pm, a.sender@));
                    }
                    Ok(a)
                } else {
                    Err(DecodeError { line: raw, sender })
                }
            },
        }
    } else {
        Err(DecodeError { line: raw, sender })
    }
}

/// One decoding step: if the character `c` was produced at `from` and the
/// body continues at `to`, the accumulated prefix extends by `c`.
proof fn step_bridge(s: Seq<char>, from: int, to: int, c: char, acc_old: Seq<char>)
    requires
        string_tail(s, from) == (match string_tail(s, to) {
            Some((t, j)) => Some::<(Seq<char>, int)>((seq![c] + t, j)),
            None => None::<(Seq<char>, int)>,
        }),
    ensures
        (match string_tail(s, to) {
            Some((t, j)) => (match string_tail(s, from) {
                Some((t0, j0)) => acc_old + t0 == (acc_old.push(c)) + t && j0 == j,
                None => false,
            }),
            None => string_tail(s, from) is None,
        }),
{
    match string_tail(s, to) {
        Some((t, j)) => {
            assert(acc_old + (seq![c] + t) =~= (acc_old.push(c)) + t);
        },
        None => {},
    }
}

} // verus!
