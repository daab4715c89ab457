//! Reading wire messages back from text. `parse_client` and `parse_server`
//! are the mathematical parsers: they say, for every character sequence,
//! which message it denotes, if any. The executable decoders are proved to
//! return exactly what the mathematical parsers say, so a malformed or
//! foreign datagram is refused by contract, not by accident.
use crate::num::{digits_val, is_digit, parse_int};
use crate::types::{name_ok, CarIdentity, CarPhysics, IdentityV};
use crate::wire::{ser_client, ClientMessage, ClientMessageV, ServerMessage, ServerMessageV};
use vstd::prelude::*;

verus! {

/// `Some(end)` when `lit` stands verbatim at `i` in `s`.
pub open spec fn match_lit(s: Seq<char>, i: int, lit: Seq<char>) -> Option<int> {
    if 0 <= i && i + lit.len() <= s.len() && s.subrange(i, i + lit.len() as int) == lit {
        Some(i + lit.len() as int)
    } else {
        None
    }
}

/// Position of the first quote at or after `i`, or the length of `s` when
/// none follows.
pub open spec fn str_end(s: Seq<char>, i: int) -> int
    decreases s.len() - i,
{
    if i < 0 || i >= s.len() {
        s.len() as int
    } else if s[i] == '"' {
        i
    } else {
        str_end(s, i + 1)
    }
}

/// The text up to the next quote, and the position after that quote.
pub open spec fn parse_string(s: Seq<char>, i: int) -> Option<(Seq<char>, int)> {
    let j = str_end(s, i);
    if 0 <= i && j < s.len() {
        Some((s.subrange(i, j), j + 1))
    } else {
        None
    }
}

/// An identity object at `i`: value and the position after its brace.
pub open spec fn parse_ident(s: Seq<char>, i: int) -> Option<(IdentityV, int)> {
    match match_lit(s, i, "{\"number\":"@) {
        None => None,
        Some(a) => match parse_int(s, a) {
            None => None,
            Some((num, b)) => if !(0 <= num <= 255) {
                None
            } else {
                match match_lit(s, b, ",\"driver_name\":\""@) {
                    None => None,
                    Some(c) => match parse_string(s, c) {
                        None => None,
                        Some((driver, d)) => match match_lit(s, d, ",\"team_name\":\""@) {
                            None => None,
                            Some(e) => match parse_string(s, e) {
                                None => None,
                                Some((team, f)) => match match_lit(s, f, "}"@) {
                                    None => None,
                                    Some(g) => Some(
                                        (
                                            IdentityV {
                                                number: num as u8,
                                                driver_name: driver,
                                                team_name: team,
                                            },
                                            g,
                                        ),
                                    ),
                                },
                            },
                        },
                    },
                }
            },
        },
    }
}

/// A physics object at `i`: value and the position after its brace.
pub open spec fn parse_physics(s: Seq<char>, i: int) -> Option<(CarPhysics, int)> {
    match match_lit(s, i, "{\"max_steering_angle\":"@) {
        None => None,
        Some(a) => match parse_int(s, a) {
            None => None,
            Some((angle, b)) => if !(i32::MIN <= angle <= i32::MAX) {
                None
            } else {
                match match_lit(s, b, ",\"max_throttle\":"@) {
                    None => None,
                    Some(c) => match parse_int(s, c) {
                        None => None,
                        Some((thr, d)) => if !(i32::MIN <= thr <= i32::MAX) {
                            None
                        } else {
                            match match_lit(s, d, "}"@) {
                                None => None,
                                Some(e) => Some(
                                    (
                                        CarPhysics {
                                            max_steering_angle: angle as i32,
                                            max_throttle: thr as i32,
                                        },
                                        e,
                                    ),
                                ),
                            }
                        },
                    },
                }
            },
        },
    }
}

/// A success flag at `i`.
pub open spec fn parse_bool(s: Seq<char>, i: int) -> Option<(bool, int)> {
    match match_lit(s, i, "true"@) {
        Some(j) => Some((true, j)),
        None => match match_lit(s, i, "false"@) {
            Some(j) => Some((false, j)),
            None => None,
        },
    }
}

/// A whole-input integer-and-brace tail: the numeral at `i`, bounded, with
/// the closing brace as the last character of `s`.
pub open spec fn parse_int_end(s: Seq<char>, i: int, lo: int, hi: int) -> Option<int> {
    match parse_int(s, i) {
        None => None,
        Some((v, j)) => if lo <= v <= hi && match_lit(s, j, "}"@) == Some(s.len() as int) {
            Some(v)
        } else {
            None
        },
    }
}

/// The message a whole character sequence denotes, if any. The tag chooses
/// the variant; everything else must follow the closed grammar exactly and
/// reach the end of the input.
pub open spec fn parse_client(s: Seq<char>) -> Option<ClientMessageV> {
    match match_lit(s, 0, "{\"type\":\""@) {
        None => None,
        Some(i) => if match_lit(s, i, "ping\",\"timestamp\":"@) is Some {
            let j = match_lit(s, i, "ping\",\"timestamp\":"@)->Some_0;
            match parse_int_end(s, j, i64::MIN as int + 1, i64::MAX as int) {
                Some(v) => Some(ClientMessageV::Ping { timestamp: v as i64 }),
                None => None,
            }
        } else if match_lit(s, i, "identity_request\"}"@) is Some {
            if match_lit(s, i, "identity_request\"}"@) == Some(s.len() as int) {
                Some(ClientMessageV::IdentityRequest)
            } else {
                None
            }
        } else if match_lit(s, i, "physics_request\"}"@) is Some {
            if match_lit(s, i, "physics_request\"}"@) == Some(s.len() as int) {
                Some(ClientMessageV::PhysicsRequest)
            } else {
                None
            }
        } else if match_lit(s, i, "identity_update\",\"identity\":"@) is Some {
            let j = match_lit(s, i, "identity_update\",\"identity\":"@)->Some_0;
            match parse_ident(s, j) {
                None => None,
                Some((identity, k)) => if match_lit(s, k, "}"@) == Some(s.len() as int) {
                    Some(ClientMessageV::IdentityUpdate { identity })
                } else {
                    None
                },
            }
        } else if match_lit(s, i, "physics_update\",\"physics\":"@) is Some {
            let j = match_lit(s, i, "physics_update\",\"physics\":"@)->Some_0;
            match parse_physics(s, j) {
                None => None,
                Some((physics, k)) => if match_lit(s, k, "}"@) == Some(s.len() as int) {
                    Some(ClientMessageV::PhysicsUpdate { physics })
                } else {
                    None
                },
            }
        } else if match_lit(s, i, "control\",\"steering\":"@) is Some {
            let j = match_lit(s, i, "control\",\"steering\":"@)->Some_0;
            match parse_int(s, j) {
                None => None,
                Some((steering, k)) => if !(-100 <= steering <= 100) {
                    None
                } else {
                    match match_lit(s, k, ",\"throttle\":"@) {
                        None => None,
                        Some(e) => match parse_int_end(s, e, -100, 100) {
                            Some(throttle) => Some(
                                ClientMessageV::Control {
                                    steering: steering as i8,
                                    throttle: throttle as i8,
                                },
                            ),
                            None => None,
                        },
                    }
                },
            }
        } else {
            None
        },
    }
}

/// The server message a whole character sequence denotes, if any.
pub open spec fn parse_server(s: Seq<char>) -> Option<ServerMessageV> {
    match match_lit(s, 0, "{\"type\":\""@) {
        None => None,
        Some(i) => if match_lit(s, i, "pong\",\"timestamp\":"@) is Some {
            let j = match_lit(s, i, "pong\",\"timestamp\":"@)->Some_0;
            match parse_int_end(s, j, i64::MIN as int + 1, i64::MAX as int) {
                Some(v) => Some(ServerMessageV::Pong { timestamp: v as i64 }),
                None => None,
            }
        } else if match_lit(s, i, "identity\",\"identity\":"@) is Some {
            let j = match_lit(s, i, "identity\",\"identity\":"@)->Some_0;
            match parse_ident(s, j) {
                None => None,
                Some((identity, k)) => if match_lit(s, k, "}"@) == Some(s.len() as int) {
                    Some(ServerMessageV::Identity { identity })
                } else {
                    None
                },
            }
        } else if match_lit(s, i, "physics\",\"physics\":"@) is Some {
            let j = match_lit(s, i, "physics\",\"physics\":"@)->Some_0;
            match parse_physics(s, j) {
                None => None,
                Some((physics, k)) => if match_lit(s, k, "}"@) == Some(s.len() as int) {
                    Some(ServerMessageV::Physics { physics })
                } else {
                    None
                },
            }
        } else if match_lit(s, i, "identity_updated\",\"success\":"@) is Some {
            let j = match_lit(s, i, "identity_updated\",\"success\":"@)->Some_0;
            match parse_updated_tail(s, j) {
                Some((success, message)) => Some(
                    ServerMessageV::IdentityUpdated { success, message },
                ),
                None => None,
            }
        } else if match_lit(s, i, "physics_updated\",\"success\":"@) is Some {
            let j = match_lit(s, i, "physics_updated\",\"success\":"@)->Some_0;
            match parse_updated_tail(s, j) {
                Some((success, message)) => Some(
                    ServerMessageV::PhysicsUpdated { success, message },
                ),
                None => None,
            }
        } else if match_lit(s, i, "error\",\"message\":\""@) is Some {
            let j = match_lit(s, i, "error\",\"message\":\""@)->Some_0;
            match parse_string(s, j) {
                None => None,
                Some((message, k)) => if match_lit(s, k, "}"@) == Some(s.len() as int) {
                    Some(ServerMessageV::Error { message })
                } else {
                    None
                },
            }
        } else {
            None
        },
    }
}

/// The shared `success`/`message` tail of the two update replies.
pub open spec fn parse_updated_tail(s: Seq<char>, i: int) -> Option<(bool, Seq<char>)> {
    match parse_bool(s, i) {
        None => None,
        Some((success, j)) => match match_lit(s, j, ",\"message\":\""@) {
            None => None,
            Some(k) => match parse_string(s, k) {
                None => None,
                Some((message, e)) => if match_lit(s, e, "}"@) == Some(s.len() as int) {
                    Some((success, message))
                } else {
                    None
                },
            },
        },
    }
}

/// The greedy quote scan stops exactly where the first quote stands.
pub proof fn lemma_str_end_at(s: Seq<char>, i: int, j: int)
    requires
        0 <= i <= j <= s.len(),
        forall|k: int| i <= k < j ==> s[k] != '"',
        j == s.len() || s[j] == '"',
    ensures
        str_end(s, i) == j,
    decreases j - i,
{
    if i < j {
        lemma_str_end_at(s, i + 1, j);
    }
}

/// If `whole` stands at `i` in `s`, each piece of `whole` stands at its
/// offset in `s`.
pub proof fn lemma_piece_at(s: Seq<char>, i: int, whole: Seq<char>, a: int, b: int)
    requires
        0 <= i,
        i + whole.len() <= s.len(),
        s.subrange(i, i + whole.len() as int) == whole,
        0 <= a <= b <= whole.len(),
    ensures
        s.subrange(i + a, i + b) == whole.subrange(a, b),
{
    assert forall|k: int| 0 <= k < b - a implies s.subrange(i + a, i + b)[k] == whole.subrange(
        a,
        b,
    )[k] by {
        assert(s.subrange(i, i + whole.len() as int)[a + k] == s[i + a + k]);
    }
    assert(s.subrange(i + a, i + b) =~= whole.subrange(a, b));
}

/// A quote-free name written at `i` with a quote after it reads back as
/// itself.
pub proof fn lemma_parse_string_at(s: Seq<char>, i: int, name: Seq<char>)
    requires
        0 <= i,
        name_ok(name),
        i + name.len() < s.len(),
        s.subrange(i, i + name.len() as int) == name,
        s[i + name.len()] == '"',
    ensures
        parse_string(s, i) == Some((name, i + name.len() + 1)),
{
    assert forall|k: int| i <= k < i + name.len() implies s[k] != '"' by {
        assert(s.subrange(i, i + name.len() as int)[k - i] == s[k]);
    }
    lemma_str_end_at(s, i, i + name.len() as int);
}

/// An identity object written at `i` reads back as itself.
#[verifier::rlimit(60)]
pub proof fn lemma_parse_ident_of_ser(s: Seq<char>, i: int, id: IdentityV)
    requires
        id.wf(),
        0 <= i,
        i + crate::wire::ser_ident(id).len() <= s.len(),
        s.subrange(i, i + crate::wire::ser_ident(id).len() as int) == crate::wire::ser_ident(id),
    ensures
        parse_ident(s, i) == Some((id, i + crate::wire::ser_ident(id).len() as int)),
{
    let w = crate::wire::ser_ident(id);
    let a_lit = "{\"number\":"@;
    let num = crate::num::dec_nat(id.number as nat);
    let b_lit = ",\"driver_name\":\""@;
    let c_lit = "\",\"team_name\":\""@;
    let d_lit = "\"}"@;
    reveal_strlit("{\"number\":");
    reveal_strlit(",\"driver_name\":\"");
    reveal_strlit("\",\"team_name\":\"");
    reveal_strlit(",\"team_name\":\"");
    reveal_strlit("\"}");
    reveal_strlit("}");
    crate::num::lemma_dec_nat_shape(id.number as nat);
    let p1 = i + a_lit.len() as int;
    let p2 = p1 + num.len() as int;
    let p3 = p2 + b_lit.len() as int;
    let p4 = p3 + id.driver_name.len() as int;
    let p5 = p4 + c_lit.len() as int;
    let p6 = p5 + id.team_name.len() as int;
    let wl = w.len() as int;
    assert(w.subrange(0, p1 - i) =~= a_lit);
    lemma_piece_at(s, i, w, 0, p1 - i);
    assert(w.subrange(p1 - i, p2 - i) =~= num);
    lemma_piece_at(s, i, w, p1 - i, p2 - i);
    assert(w.subrange(p2 - i, p3 - i) =~= b_lit);
    lemma_piece_at(s, i, w, p2 - i, p3 - i);
    assert(w.subrange(p3 - i, p4 - i) =~= id.driver_name);
    lemma_piece_at(s, i, w, p3 - i, p4 - i);
    assert(w.subrange(p4 - i, p5 - i) =~= c_lit);
    lemma_piece_at(s, i, w, p4 - i, p5 - i);
    assert(w.subrange(p5 - i, p6 - i) =~= id.team_name);
    lemma_piece_at(s, i, w, p5 - i, p6 - i);
    assert(w.subrange(p6 - i, wl) =~= d_lit);
    lemma_piece_at(s, i, w, p6 - i, wl);
    // the opening literal
    assert(match_lit(s, i, a_lit) == Some(p1));
    // the number, followed by the comma of the next literal
    assert(s[p2] == ',') by {
        assert(s.subrange(p2, p3)[0] == s[p2]);
    }
    assert(!is_digit(',') && ',' != '-') by {
        assert(',' as u32 == 44);
        assert('-' as u32 == 45);
    }
    assert(crate::num::dec_int(id.number as int) == num);
    crate::num::lemma_parse_int_of_dec(s, p1, id.number as int);
    // the driver name, closed by the quote that opens `c_lit`
    assert(match_lit(s, p2, b_lit) == Some(p3));
    assert(s[p4] == '"') by {
        assert(s.subrange(p4, p5)[0] == s[p4]);
    }
    lemma_parse_string_at(s, p3, id.driver_name);
    // the rest of `c_lit` after the consumed quote
    assert(s.subrange(p4 + 1, p5) == c_lit.subrange(1, c_lit.len() as int)) by {
        lemma_piece_at(s, p4, c_lit, 1, c_lit.len() as int);
    }
    assert(c_lit.subrange(1, c_lit.len() as int) =~= ",\"team_name\":\""@);
    assert(match_lit(s, p4 + 1, ",\"team_name\":\""@) == Some(p5));
    // the team name, closed by the quote that opens `d_lit`
    assert(s[p6] == '"') by {
        assert(s.subrange(p6, wl + i)[0] == s[p6]);
    }
    lemma_parse_string_at(s, p5, id.team_name);
    // the closing brace after the consumed quote
    assert(s.subrange(p6 + 1, i + wl) == d_lit.subrange(1, 2)) by {
        lemma_piece_at(s, p6, d_lit, 1, 2);
    }
    assert(d_lit.subrange(1, 2) =~= "}"@);
    assert(match_lit(s, p6 + 1, "}"@) == Some(i + wl));
    assert((id.number as int) as u8 == id.number);
}

/// A physics object written at `i` reads back as itself.
#[verifier::rlimit(60)]
pub proof fn lemma_parse_physics_of_ser(s: Seq<char>, i: int, p: CarPhysics)
    requires
        0 <= i,
        i + crate::wire::ser_physics(p).len() <= s.len(),
        s.subrange(i, i + crate::wire::ser_physics(p).len() as int) == crate::wire::ser_physics(p),
    ensures
        parse_physics(s, i) == Some((p, i + crate::wire::ser_physics(p).len() as int)),
{
    let w = crate::wire::ser_physics(p);
    let a_lit = "{\"max_steering_angle\":"@;
    let angle = crate::num::dec_int(p.max_steering_angle as int);
    let b_lit = ",\"max_throttle\":"@;
    let thr = crate::num::dec_int(p.max_throttle as int);
    reveal_strlit("{\"max_steering_angle\":");
    reveal_strlit(",\"max_throttle\":");
    reveal_strlit("}");
    let p1 = i + a_lit.len() as int;
    let p2 = p1 + angle.len() as int;
    let p3 = p2 + b_lit.len() as int;
    let p4 = p3 + thr.len() as int;
    let wl = w.len() as int;
    assert(w.subrange(0, p1 - i) =~= a_lit);
    lemma_piece_at(s, i, w, 0, p1 - i);
    assert(w.subrange(p1 - i, p2 - i) =~= angle);
    lemma_piece_at(s, i, w, p1 - i, p2 - i);
    assert(w.subrange(p2 - i, p3 - i) =~= b_lit);
    lemma_piece_at(s, i, w, p2 - i, p3 - i);
    assert(w.subrange(p3 - i, p4 - i) =~= thr);
    lemma_piece_at(s, i, w, p3 - i, p4 - i);
    assert(w.subrange(p4 - i, wl) =~= "}"@);
    lemma_piece_at(s, i, w, p4 - i, wl);
    assert(match_lit(s, i, a_lit) == Some(p1));
    assert(s[p2] == ',') by {
        assert(s.subrange(p2, p3)[0] == s[p2]);
    }
    assert(s[p4] == '}') by {
        assert(s.subrange(p4, i + wl)[0] == s[p4]);
    }
    assert(!is_digit(',') && !is_digit('}')) by {
        assert(',' as u32 == 44);
        assert('}' as u32 == 125);
    }
    crate::num::lemma_parse_int_of_dec(s, p1, p.max_steering_angle as int);
    assert(match_lit(s, p2, b_lit) == Some(p3));
    crate::num::lemma_parse_int_of_dec(s, p3, p.max_throttle as int);
    assert(match_lit(s, p4, "}"@) == Some(i + wl));
    assert((p.max_steering_angle as int) as i32 == p.max_steering_angle);
    assert((p.max_throttle as int) as i32 == p.max_throttle);
}

/// A literal cannot stand at `i` when one of its characters disagrees.
proof fn lemma_no_match(s: Seq<char>, i: int, lit: Seq<char>, d: int, c: char)
    requires
        0 <= i <= s.len(),
        0 <= d < lit.len(),
        i + d < s.len(),
        s[i + d] == c,
        c != lit[d],
    ensures
        match_lit(s, i, lit) is None,
{
    if i + lit.len() <= s.len() {
        assert(s.subrange(i, i + lit.len() as int)[d] == s[i + d]);
    }
}

/// The tag of an encoded client message stands right after the opening
/// literal; shared set-up of the per-variant proofs.
proof fn lemma_client_head(m: ClientMessageV)
    ensures
        match_lit(ser_client(m), 0, "{\"type\":\""@) == Some("{\"type\":\""@.len() as int),
        ser_client(m).subrange(
            "{\"type\":\""@.len() as int,
            "{\"type\":\""@.len() + crate::wire::client_tag(m).len() as int,
        ) == crate::wire::client_tag(m),
{
    let s = ser_client(m);
    let lit1 = "{\"type\":\""@;
    let tag = crate::wire::client_tag(m);
    let l1 = lit1.len() as int;
    assert(s.subrange(0, l1) =~= lit1);
    assert(s.subrange(l1, l1 + tag.len()) =~= tag);
}

#[verifier::rlimit(60)]
proof fn lemma_client_rt_ping(timestamp: i64)
    requires
        timestamp > i64::MIN,
    ensures
        parse_client(ser_client(ClientMessageV::Ping { timestamp })) == Some(
            ClientMessageV::Ping { timestamp },
        ),
{
    let m = ClientMessageV::Ping { timestamp };
    let s = ser_client(m);
    let lit1 = "{\"type\":\""@;
    let wb = "ping\",\"timestamp\":"@;
    let dec = crate::num::dec_int(timestamp as int);
    reveal_strlit("{\"type\":\"");
    reveal_strlit("ping");
    reveal_strlit("\"");
    reveal_strlit(",\"timestamp\":");
    reveal_strlit("ping\",\"timestamp\":");
    reveal_strlit("}");
    lemma_client_head(m);
    let l1 = lit1.len() as int;
    let j = l1 + wb.len() as int;
    let k = j + dec.len() as int;
    assert(s.subrange(l1, j) =~= wb);
    assert(match_lit(s, l1, wb) == Some(j));
    assert(s.subrange(j, k) =~= dec);
    assert(s.subrange(k, k + 1) =~= "}"@);
    assert(s[k] == '}') by {
        assert(s.subrange(k, k + 1)[0] == s[k]);
    }
    assert(!is_digit('}') && '}' != '-') by {
        assert('}' as u32 == 125);
        assert('-' as u32 == 45);
    }
    crate::num::lemma_parse_int_of_dec(s, j, timestamp as int);
    assert(match_lit(s, k, "}"@) == Some(s.len() as int));
    assert((timestamp as int) as i64 == timestamp);
}

#[verifier::rlimit(60)]
proof fn lemma_client_rt_identity_request()
    ensures
        parse_client(ser_client(ClientMessageV::IdentityRequest)) == Some(
            ClientMessageV::IdentityRequest,
        ),
{
    let m = ClientMessageV::IdentityRequest;
    let s = ser_client(m);
    let lit1 = "{\"type\":\""@;
    let wb = "identity_request\"}"@;
    reveal_strlit("{\"type\":\"");
    reveal_strlit("identity_request");
    reveal_strlit("\"");
    reveal_strlit("}");
    reveal_strlit("identity_request\"}");
    reveal_strlit("ping\",\"timestamp\":");
    lemma_client_head(m);
    let l1 = lit1.len() as int;
    assert(s[l1] == 'i') by {
        let tag = crate::wire::client_tag(m);
        assert(s.subrange(l1, l1 + tag.len())[0] == s[l1]);
    }
    lemma_no_match(s, l1, "ping\",\"timestamp\":"@, 0, 'i');
    assert(s.subrange(l1, l1 + wb.len()) =~= wb);
    assert(l1 + wb.len() == s.len());
    assert(match_lit(s, l1, wb) == Some(s.len() as int));
}

#[verifier::rlimit(60)]
proof fn lemma_client_rt_physics_request()
    ensures
        parse_client(ser_client(ClientMessageV::PhysicsRequest)) == Some(
            ClientMessageV::PhysicsRequest,
        ),
{
    let m = ClientMessageV::PhysicsRequest;
    let s = ser_client(m);
    let lit1 = "{\"type\":\""@;
    let wb = "physics_request\"}"@;
    reveal_strlit("{\"type\":\"");
    reveal_strlit("physics_request");
    reveal_strlit("\"");
    reveal_strlit("}");
    reveal_strlit("physics_request\"}");
    reveal_strlit("ping\",\"timestamp\":");
    reveal_strlit("identity_request\"}");
    lemma_client_head(m);
    let l1 = lit1.len() as int;
    let tag = crate::wire::client_tag(m);
    assert(s[l1] == 'p') by {
        assert(s.subrange(l1, l1 + tag.len())[0] == s[l1]);
    }
    assert(s[l1 + 1] == 'h') by {
        assert(s.subrange(l1, l1 + tag.len())[1] == s[l1 + 1]);
    }
    lemma_no_match(s, l1, "ping\",\"timestamp\":"@, 1, 'h');
    lemma_no_match(s, l1, "identity_request\"}"@, 0, 'p');
    assert(s.subrange(l1, l1 + wb.len()) =~= wb);
    assert(l1 + wb.len() == s.len());
    assert(match_lit(s, l1, wb) == Some(s.len() as int));
}

#[verifier::rlimit(60)]
proof fn lemma_client_rt_identity_update(identity: IdentityV)
    requires
        identity.wf(),
    ensures
        parse_client(ser_client(ClientMessageV::IdentityUpdate { identity })) == Some(
            ClientMessageV::IdentityUpdate { identity },
        ),
{
    let m = ClientMessageV::IdentityUpdate { identity };
    let s = ser_client(m);
    let lit1 = "{\"type\":\""@;
    let wb = "identity_update\",\"identity\":"@;
    let idtext = crate::wire::ser_ident(identity);
    reveal_strlit("{\"type\":\"");
    reveal_strlit("identity_update");
    reveal_strlit("\"");
    reveal_strlit("}");
    reveal_strlit(",\"identity\":");
    reveal_strlit("identity_update\",\"identity\":");
    reveal_strlit("ping\",\"timestamp\":");
    reveal_strlit("identity_request\"}");
    reveal_strlit("physics_request\"}");
    lemma_client_head(m);
    let l1 = lit1.len() as int;
    let tag = crate::wire::client_tag(m);
    assert(s[l1] == 'i') by {
        assert(s.subrange(l1, l1 + tag.len())[0] == s[l1]);
    }
    assert(s[l1 + 9] == 'u') by {
        assert(s.subrange(l1, l1 + tag.len())[9] == s[l1 + 9]);
    }
    lemma_no_match(s, l1, "ping\",\"timestamp\":"@, 0, 'i');
    lemma_no_match(s, l1, "identity_request\"}"@, 9, 'u');
    lemma_no_match(s, l1, "physics_request\"}"@, 0, 'i');
    let j = l1 + wb.len() as int;
    let k = j + idtext.len() as int;
    assert(s.subrange(l1, j) =~= wb);
    assert(match_lit(s, l1, wb) == Some(j));
    assert(s.subrange(j, k) =~= idtext);
    lemma_parse_ident_of_ser(s, j, identity);
    assert(s.subrange(k, k + 1) =~= "}"@);
    assert(match_lit(s, k, "}"@) == Some(s.len() as int));
}

#[verifier::rlimit(60)]
proof fn lemma_client_rt_physics_update(physics: CarPhysics)
    ensures
        parse_client(ser_client(ClientMessageV::PhysicsUpdate { physics })) == Some(
            ClientMessageV::PhysicsUpdate { physics },
        ),
{
    let m = ClientMessageV::PhysicsUpdate { physics };
    let s = ser_client(m);
    let lit1 = "{\"type\":\""@;
    let wb = "physics_update\",\"physics\":"@;
    let ptext = crate::wire::ser_physics(physics);
    reveal_strlit("{\"type\":\"");
    reveal_strlit("physics_update");
    reveal_strlit("\"");
    reveal_strlit("}");
    reveal_strlit(",\"physics\":");
    reveal_strlit("physics_update\",\"physics\":");
    reveal_strlit("ping\",\"timestamp\":");
    reveal_strlit("identity_request\"}");
    reveal_strlit("physics_request\"}");
    reveal_strlit("identity_update\",\"identity\":");
    lemma_client_head(m);
    let l1 = lit1.len() as int;
    let tag = crate::wire::client_tag(m);
    assert(s[l1] == 'p') by {
        assert(s.subrange(l1, l1 + tag.len())[0] == s[l1]);
    }
    assert(s[l1 + 1] == 'h') by {
        assert(s.subrange(l1, l1 + tag.len())[1] == s[l1 + 1]);
    }
    assert(s[l1 + 8] == 'u') by {
        assert(s.subrange(l1, l1 + tag.len())[8] == s[l1 + 8]);
    }
    lemma_no_match(s, l1, "ping\",\"timestamp\":"@, 1, 'h');
    lemma_no_match(s, l1, "identity_request\"}"@, 0, 'p');
    lemma_no_match(s, l1, "physics_request\"}"@, 8, 'u');
    lemma_no_match(s, l1, "identity_update\",\"identity\":"@, 0, 'p');
    let j = l1 + wb.len() as int;
    let k = j + ptext.len() as int;
    assert(s.subrange(l1, j) =~= wb);
    assert(match_lit(s, l1, wb) == Some(j));
    assert(s.subrange(j, k) =~= ptext);
    lemma_parse_physics_of_ser(s, j, physics);
    assert(s.subrange(k, k + 1) =~= "}"@);
    assert(match_lit(s, k, "}"@) == Some(s.len() as int));
}

#[verifier::rlimit(60)]
proof fn lemma_client_rt_control(steering: i8, throttle: i8)
    requires
        -100 <= steering <= 100,
        -100 <= throttle <= 100,
    ensures
        parse_client(ser_client(ClientMessageV::Control { steering, throttle })) == Some(
            ClientMessageV::Control { steering, throttle },
        ),
{
    let m = ClientMessageV::Control { steering, throttle };
    let s = ser_client(m);
    let lit1 = "{\"type\":\""@;
    let wb = "control\",\"steering\":"@;
    let sdec = crate::num::dec_int(steering as int);
    let tdec = crate::num::dec_int(throttle as int);
    let tlit = ",\"throttle\":"@;
    reveal_strlit("{\"type\":\"");
    reveal_strlit("control");
    reveal_strlit("\"");
    reveal_strlit("}");
    reveal_strlit(",\"steering\":");
    reveal_strlit(",\"throttle\":");
    reveal_strlit("control\",\"steering\":");
    reveal_strlit("ping\",\"timestamp\":");
    reveal_strlit("identity_request\"}");
    reveal_strlit("physics_request\"}");
    reveal_strlit("identity_update\",\"identity\":");
    reveal_strlit("physics_update\",\"physics\":");
    lemma_client_head(m);
    let l1 = lit1.len() as int;
    let tag = crate::wire::client_tag(m);
    assert(s[l1] == 'c') by {
        assert(s.subrange(l1, l1 + tag.len())[0] == s[l1]);
    }
    lemma_no_match(s, l1, "ping\",\"timestamp\":"@, 0, 'c');
    lemma_no_match(s, l1, "identity_request\"}"@, 0, 'c');
    lemma_no_match(s, l1, "physics_request\"}"@, 0, 'c');
    lemma_no_match(s, l1, "identity_update\",\"identity\":"@, 0, 'c');
    lemma_no_match(s, l1, "physics_update\",\"physics\":"@, 0, 'c');
    let j = l1 + wb.len() as int;
    let k = j + sdec.len() as int;
    let e = k + tlit.len() as int;
    let f = e + tdec.len() as int;
    assert(s.subrange(l1, j) =~= wb);
    assert(match_lit(s, l1, wb) == Some(j));
    assert(s.subrange(j, k) =~= sdec);
    assert(s.subrange(k, e) =~= tlit);
    assert(s.subrange(e, f) =~= tdec);
    assert(s.subrange(f, f + 1) =~= "}"@);
    assert(s[k] == ',') by {
        assert(s.subrange(k, e)[0] == s[k]);
    }
    assert(s[f] == '}') by {
        assert(s.subrange(f, f + 1)[0] == s[f]);
    }
    assert(!is_digit(',') && ',' != '-' && !is_digit('}') && '}' != '-') by {
        assert(',' as u32 == 44);
        assert('-' as u32 == 45);
        assert('}' as u32 == 125);
    }
    crate::num::lemma_parse_int_of_dec(s, j, steering as int);
    assert(match_lit(s, k, tlit) == Some(e));
    crate::num::lemma_parse_int_of_dec(s, e, throttle as int);
    assert(match_lit(s, f, "}"@) == Some(s.len() as int));
    assert((steering as int) as i8 == steering);
    assert((throttle as int) as i8 == throttle);
}

/// Law: every well-formed client message reads back from its own canonical
/// text as exactly itself.
pub proof fn lemma_client_round_trip(m: ClientMessageV)
    requires
        m.wf(),
    ensures
        parse_client(ser_client(m)) == Some(m),
{
    match m {
        ClientMessageV::Ping { timestamp } => lemma_client_rt_ping(timestamp),
        ClientMessageV::IdentityRequest => lemma_client_rt_identity_request(),
        ClientMessageV::PhysicsRequest => lemma_client_rt_physics_request(),
        ClientMessageV::IdentityUpdate { identity } => lemma_client_rt_identity_update(identity),
        ClientMessageV::PhysicsUpdate { physics } => lemma_client_rt_physics_update(physics),
        ClientMessageV::Control { steering, throttle } => lemma_client_rt_control(
            steering,
            throttle,
        ),
    }
}

/// The tag of an encoded server message stands right after the opening
/// literal; shared set-up of the per-variant proofs.
proof fn lemma_server_head(m: ServerMessageV)
    ensures
        match_lit(crate::wire::ser_server(m), 0, "{\"type\":\""@) == Some(
            "{\"type\":\""@.len() as int,
        ),
        crate::wire::ser_server(m).subrange(
            "{\"type\":\""@.len() as int,
            "{\"type\":\""@.len() + crate::wire::server_tag(m).len() as int,
        ) == crate::wire::server_tag(m),
{
    let s = crate::wire::ser_server(m);
    let lit1 = "{\"type\":\""@;
    let tag = crate::wire::server_tag(m);
    let l1 = lit1.len() as int;
    assert(s.subrange(0, l1) =~= lit1);
    assert(s.subrange(l1, l1 + tag.len()) =~= tag);
}

/// A `success`/`message` tail written at `i`, reaching the end of the input,
/// reads back as itself.
#[verifier::rlimit(60)]
proof fn lemma_updated_tail_at(s: Seq<char>, i: int, success: bool, message: Seq<char>)
    requires
        name_ok(message),
        0 <= i,
        i + (crate::wire::ser_bool(success) + ",\"message\":\""@ + message + "\"}"@).len()
            == s.len(),
        s.subrange(i, s.len() as int) == crate::wire::ser_bool(success) + ",\"message\":\""@
            + message + "\"}"@,
    ensures
        parse_updated_tail(s, i) == Some((success, message)),
{
    let w = crate::wire::ser_bool(success) + ",\"message\":\""@ + message + "\"}"@;
    let blit = crate::wire::ser_bool(success);
    let mlit = ",\"message\":\""@;
    reveal_strlit("true");
    reveal_strlit("false");
    reveal_strlit(",\"message\":\"");
    reveal_strlit("\"}");
    reveal_strlit("}");
    let p1 = i + blit.len() as int;
    let p2 = p1 + mlit.len() as int;
    let p3 = p2 + message.len() as int;
    let wl = w.len() as int;
    assert(w.subrange(0, p1 - i) =~= blit);
    lemma_piece_at(s, i, w, 0, p1 - i);
    assert(w.subrange(p1 - i, p2 - i) =~= mlit);
    lemma_piece_at(s, i, w, p1 - i, p2 - i);
    assert(w.subrange(p2 - i, p3 - i) =~= message);
    lemma_piece_at(s, i, w, p2 - i, p3 - i);
    assert(w.subrange(p3 - i, wl) =~= "\"}"@);
    lemma_piece_at(s, i, w, p3 - i, wl);
    if success {
        assert(match_lit(s, i, "true"@) == Some(p1));
    } else {
        assert(s[i] == 'f') by {
            assert(s.subrange(i, p1)[0] == s[i]);
        }
        lemma_no_match(s, i, "true"@, 0, 'f');
        assert(match_lit(s, i, "false"@) == Some(p1));
    }
    assert(match_lit(s, p1, mlit) == Some(p2));
    assert(s[p3] == '"') by {
        assert(s.subrange(p3, i + wl)[0] == s[p3]);
    }
    lemma_parse_string_at(s, p2, message);
    assert(s.subrange(p3 + 1, i + wl) == "\"}"@.subrange(1, 2)) by {
        lemma_piece_at(s, p3, "\"}"@, 1, 2);
    }
    assert("\"}"@.subrange(1, 2) =~= "}"@);
    assert(match_lit(s, p3 + 1, "}"@) == Some(s.len() as int));
}

#[verifier::rlimit(60)]
proof fn lemma_server_rt_pong(timestamp: i64)
    requires
        timestamp > i64::MIN,
    ensures
        parse_server(crate::wire::ser_server(ServerMessageV::Pong { timestamp })) == Some(
            ServerMessageV::Pong { timestamp },
        ),
{
    let m = ServerMessageV::Pong { timestamp };
    let s = crate::wire::ser_server(m);
    let lit1 = "{\"type\":\""@;
    let wb = "pong\",\"timestamp\":"@;
    let dec = crate::num::dec_int(timestamp as int);
    reveal_strlit("{\"type\":\"");
    reveal_strlit("pong");
    reveal_strlit("\"");
    reveal_strlit(",\"timestamp\":");
    reveal_strlit("pong\",\"timestamp\":");
    reveal_strlit("}");
    lemma_server_head(m);
    let l1 = lit1.len() as int;
    let j = l1 + wb.len() as int;
    let k = j + dec.len() as int;
    assert(s.subrange(l1, j) =~= wb);
    assert(match_lit(s, l1, wb) == Some(j));
    assert(s.subrange(j, k) =~= dec);
    assert(s.subrange(k, k + 1) =~= "}"@);
    assert(s[k] == '}') by {
        assert(s.subrange(k, k + 1)[0] == s[k]);
    }
    assert(!is_digit('}') && '}' != '-') by {
        assert('}' as u32 == 125);
        assert('-' as u32 == 45);
    }
    crate::num::lemma_parse_int_of_dec(s, j, timestamp as int);
    assert(match_lit(s, k, "}"@) == Some(s.len() as int));
    assert((timestamp as int) as i64 == timestamp);
}

#[verifier::rlimit(60)]
proof fn lemma_server_rt_identity(identity: IdentityV)
    requires
        identity.wf(),
    ensures
        parse_server(crate::wire::ser_server(ServerMessageV::Identity { identity })) == Some(
            ServerMessageV::Identity { identity },
        ),
{
    let m = ServerMessageV::Identity { identity };
    let s = crate::wire::ser_server(m);
    let lit1 = "{\"type\":\""@;
    let wb = "identity\",\"identity\":"@;
    let idtext = crate::wire::ser_ident(identity);
    reveal_strlit("{\"type\":\"");
    reveal_strlit("identity");
    reveal_strlit("\"");
    reveal_strlit("}");
    reveal_strlit(",\"identity\":");
    reveal_strlit("identity\",\"identity\":");
    reveal_strlit("pong\",\"timestamp\":");
    lemma_server_head(m);
    let l1 = lit1.len() as int;
    let tag = crate::wire::server_tag(m);
    assert(s[l1] == 'i') by {
        assert(s.subrange(l1, l1 + tag.len())[0] == s[l1]);
    }
    lemma_no_match(s, l1, "pong\",\"timestamp\":"@, 0, 'i');
    let j = l1 + wb.len() as int;
    let k = j + idtext.len() as int;
    assert(s.subrange(l1, j) =~= wb);
    assert(match_lit(s, l1, wb) == Some(j));
    assert(s.subrange(j, k) =~= idtext);
    lemma_parse_ident_of_ser(s, j, identity);
    assert(s.subrange(k, k + 1) =~= "}"@);
    assert(match_lit(s, k, "}"@) == Some(s.len() as int));
}

#[verifier::rlimit(60)]
proof fn lemma_server_rt_physics(physics: CarPhysics)
    ensures
        parse_server(crate::wire::ser_server(ServerMessageV::Physics { physics })) == Some(
            ServerMessageV::Physics { physics },
        ),
{
    let m = ServerMessageV::Physics { physics };
    let s = crate::wire::ser_server(m);
    let lit1 = "{\"type\":\""@;
    let wb = "physics\",\"physics\":"@;
    let ptext = crate::wire::ser_physics(physics);
    reveal_strlit("{\"type\":\"");
    reveal_strlit("physics");
    reveal_strlit("\"");
    reveal_strlit("}");
    reveal_strlit(",\"physics\":");
    reveal_strlit("physics\",\"physics\":");
    reveal_strlit("pong\",\"timestamp\":");
    reveal_strlit("identity\",\"identity\":");
    lemma_server_head(m);
    let l1 = lit1.len() as int;
    let tag = crate::wire::server_tag(m);
    assert(s[l1] == 'p') by {
        assert(s.subrange(l1, l1 + tag.len())[0] == s[l1]);
    }
    assert(s[l1 + 1] == 'h') by {
        assert(s.subrange(l1, l1 + tag.len())[1] == s[l1 + 1]);
    }
    lemma_no_match(s, l1, "pong\",\"timestamp\":"@, 1, 'h');
    lemma_no_match(s, l1, "identity\",\"identity\":"@, 0, 'p');
    let j = l1 + wb.len() as int;
    let k = j + ptext.len() as int;
    assert(s.subrange(l1, j) =~= wb);
    assert(match_lit(s, l1, wb) == Some(j));
    assert(s.subrange(j, k) =~= ptext);
    lemma_parse_physics_of_ser(s, j, physics);
    assert(s.subrange(k, k + 1) =~= "}"@);
    assert(match_lit(s, k, "}"@) == Some(s.len() as int));
}

#[verifier::rlimit(60)]
proof fn lemma_server_rt_identity_updated(success: bool, message: Seq<char>)
    requires
        name_ok(message),
    ensures
        parse_server(crate::wire::ser_server(ServerMessageV::IdentityUpdated { success, message }))
            == Some(ServerMessageV::IdentityUpdated { success, message }),
{
    let m = ServerMessageV::IdentityUpdated { success, message };
    let s = crate::wire::ser_server(m);
    let lit1 = "{\"type\":\""@;
    let wb = "identity_updated\",\"success\":"@;
    reveal_strlit("{\"type\":\"");
    reveal_strlit("identity_updated");
    reveal_strlit("\"");
    reveal_strlit(",\"success\":");
    reveal_strlit(",\"message\":\"");
    reveal_strlit("\"}");
    reveal_strlit("identity_updated\",\"success\":");
    reveal_strlit("pong\",\"timestamp\":");
    reveal_strlit("identity\",\"identity\":");
    reveal_strlit("physics\",\"physics\":");
    lemma_server_head(m);
    let l1 = lit1.len() as int;
    let tag = crate::wire::server_tag(m);
    assert(s[l1] == 'i') by {
        assert(s.subrange(l1, l1 + tag.len())[0] == s[l1]);
    }
    assert(s[l1 + 8] == '_') by {
        assert(s.subrange(l1, l1 + tag.len())[8] == s[l1 + 8]);
    }
    lemma_no_match(s, l1, "pong\",\"timestamp\":"@, 0, 'i');
    lemma_no_match(s, l1, "identity\",\"identity\":"@, 8, '_');
    lemma_no_match(s, l1, "physics\",\"physics\":"@, 0, 'i');
    let j = l1 + wb.len() as int;
    assert(s.subrange(l1, j) =~= wb);
    assert(match_lit(s, l1, wb) == Some(j));
    assert(s.subrange(j, s.len() as int) =~= crate::wire::ser_bool(success) + ",\"message\":\""@
        + message + "\"}"@);
    lemma_updated_tail_at(s, j, success, message);
}

#[verifier::rlimit(60)]
proof fn lemma_server_rt_physics_updated(success: bool, message: Seq<char>)
    requires
        name_ok(message),
    ensures
        parse_server(crate::wire::ser_server(ServerMessageV::PhysicsUpdated { success, message }))
            == Some(ServerMessageV::PhysicsUpdated { success, message }),
{
    let m = ServerMessageV::PhysicsUpdated { success, message };
    let s = crate::wire::ser_server(m);
    let lit1 = "{\"type\":\""@;
    let wb = "physics_updated\",\"success\":"@;
    reveal_strlit("{\"type\":\"");
    reveal_strlit("physics_updated");
    reveal_strlit("\"");
    reveal_strlit(",\"success\":");
    reveal_strlit(",\"message\":\"");
    reveal_strlit("\"}");
    reveal_strlit("physics_updated\",\"success\":");
    reveal_strlit("pong\",\"timestamp\":");
    reveal_strlit("identity\",\"identity\":");
    reveal_strlit("physics\",\"physics\":");
    reveal_strlit("identity_updated\",\"success\":");
    lemma_server_head(m);
    let l1 = lit1.len() as int;
    let tag = crate::wire::server_tag(m);
    assert(s[l1] == 'p') by {
        assert(s.subrange(l1, l1 + tag.len())[0] == s[l1]);
    }
    assert(s[l1 + 1] == 'h') by {
        assert(s.subrange(l1, l1 + tag.len())[1] == s[l1 + 1]);
    }
    assert(s[l1 + 7] == '_') by {
        assert(s.subrange(l1, l1 + tag.len())[7] == s[l1 + 7]);
    }
    lemma_no_match(s, l1, "pong\",\"timestamp\":"@, 1, 'h');
    lemma_no_match(s, l1, "identity\",\"identity\":"@, 0, 'p');
    lemma_no_match(s, l1, "physics\",\"physics\":"@, 7, '_');
    lemma_no_match(s, l1, "identity_updated\",\"success\":"@, 0, 'p');
    let j = l1 + wb.len() as int;
    assert(s.subrange(l1, j) =~= wb);
    assert(match_lit(s, l1, wb) == Some(j));
    assert(s.subrange(j, s.len() as int) =~= crate::wire::ser_bool(success) + ",\"message\":\""@
        + message + "\"}"@);
    lemma_updated_tail_at(s, j, success, message);
}

#[verifier::rlimit(60)]
proof fn lemma_server_rt_error(message: Seq<char>)
    requires
        name_ok(message),
    ensures
        parse_server(crate::wire::ser_server(ServerMessageV::Error { message })) == Some(
            ServerMessageV::Error { message },
        ),
{
    let m = ServerMessageV::Error { message };
    let s = crate::wire::ser_server(m);
    let lit1 = "{\"type\":\""@;
    let wb = "error\",\"message\":\""@;
    reveal_strlit("{\"type\":\"");
    reveal_strlit("error");
    reveal_strlit("\"");
    reveal_strlit("}");
    reveal_strlit("\"}");
    reveal_strlit(",\"message\":\"");
    reveal_strlit("error\",\"message\":\"");
    reveal_strlit("pong\",\"timestamp\":");
    reveal_strlit("identity\",\"identity\":");
    reveal_strlit("physics\",\"physics\":");
    reveal_strlit("identity_updated\",\"success\":");
    reveal_strlit("physics_updated\",\"success\":");
    lemma_server_head(m);
    let l1 = lit1.len() as int;
    let tag = crate::wire::server_tag(m);
    assert(s[l1] == 'e') by {
        assert(s.subrange(l1, l1 + tag.len())[0] == s[l1]);
    }
    lemma_no_match(s, l1, "pong\",\"timestamp\":"@, 0, 'e');
    lemma_no_match(s, l1, "identity\",\"identity\":"@, 0, 'e');
    lemma_no_match(s, l1, "physics\",\"physics\":"@, 0, 'e');
    lemma_no_match(s, l1, "identity_updated\",\"success\":"@, 0, 'e');
    lemma_no_match(s, l1, "physics_updated\",\"success\":"@, 0, 'e');
    let j = l1 + wb.len() as int;
    let k = j + message.len() as int;
    assert(s.subrange(l1, j) =~= wb);
    assert(match_lit(s, l1, wb) == Some(j));
    assert(s.subrange(j, k) =~= message);
    assert(s.subrange(k, s.len() as int) =~= "\"}"@);
    assert(s[k] == '"') by {
        assert(s.subrange(k, s.len() as int)[0] == s[k]);
    }
    lemma_parse_string_at(s, j, message);
    assert(s.subrange(k + 1, s.len() as int) == "\"}"@.subrange(1, 2)) by {
        lemma_piece_at(s, k, "\"}"@, 1, 2);
    }
    assert("\"}"@.subrange(1, 2) =~= "}"@);
    assert(match_lit(s, k + 1, "}"@) == Some(s.len() as int));
}

/// Law: every well-formed server message reads back from its own canonical
/// text as exactly itself.
pub proof fn lemma_server_round_trip(m: ServerMessageV)
    requires
        m.wf(),
    ensures
        parse_server(crate::wire::ser_server(m)) == Some(m),
{
    match m {
        ServerMessageV::Pong { timestamp } => lemma_server_rt_pong(timestamp),
        ServerMessageV::Identity { identity } => lemma_server_rt_identity(identity),
        ServerMessageV::Physics { physics } => lemma_server_rt_physics(physics),
        ServerMessageV::IdentityUpdated { success, message } => lemma_server_rt_identity_updated(
            success,
            message,
        ),
        ServerMessageV::PhysicsUpdated { success, message } => lemma_server_rt_physics_updated(
            success,
            message,
        ),
        ServerMessageV::Error { message } => lemma_server_rt_error(message),
    }
}

/// True when a digit stands at `j`; false at or past the end.
fn digit_at(s: &str, j: usize, n: usize) -> (r: bool)
    requires
        n == s@.len(),
    ensures
        r == (j < s@.len() && is_digit(s@[j as int])),
{
    if j < n {
        let c = s.get_char(j);
        let cv = c as u32;
        48 <= cv && cv <= 57
    } else {
        false
    }
}

/// Matches `lit` against `s` at `i`, as `match_lit` says.
pub fn expect_lit(s: &str, i: usize, lit: &str) -> (r: Option<usize>)
    ensures
        match r {
            Some(j) => match_lit(s@, i as int, lit@) == Some(j as int),
            None => match_lit(s@, i as int, lit@) is None,
        },
{
    let n = s.unicode_len();
    let m = lit.unicode_len();
    if m > n || i > n - m {
        return None;
    }
    let mut k: usize = 0;
    while k < m
        invariant
            0 <= k <= m,
            i + m <= n,
            n == s@.len(),
            m == lit@.len(),
            forall|t: int| 0 <= t < k ==> s@[i + t] == lit@[t],
        decreases m - k,
    {
        if s.get_char(i + k) != lit.get_char(k) {
            proof {
                assert(s@.subrange(i as int, i + m as int)[k as int] != lit@[k as int]);
            }
            return None;
        }
        k += 1;
    }
    proof {
        assert(s@.subrange(i as int, i + m as int) =~= lit@);
    }
    Some(i + m)
}

/// Scans the text up to the next quote, as `parse_string` says. A found
/// value carries no quote, so it is fit for re-encoding.
pub fn scan_string(s: &str, i: usize) -> (r: Option<(String, usize)>)
    ensures
        match r {
            Some(p) => {
                &&& parse_string(s@, i as int) == Some((p.0@, p.1 as int))
                &&& name_ok(p.0@)
            },
            None => parse_string(s@, i as int) is None,
        },
{
    let n = s.unicode_len();
    let mut j = i;
    if j > n {
        proof {
            lemma_str_end_at(s@, n as int, n as int);
            assert(str_end(s@, i as int) == s@.len());
        }
        return None;
    }
    while j < n
        invariant
            i <= j <= n,
            n == s@.len(),
            forall|k: int| i <= k < j ==> s@[k] != '"',
        decreases n - j,
    {
        let c = s.get_char(j);
        if c == '"' {
            proof {
                lemma_str_end_at(s@, i as int, j as int);
            }
            let name = s.substring_char(i, j).to_owned();
            return Some((name, j + 1));
        }
        j += 1;
    }
    proof {
        lemma_str_end_at(s@, i as int, n as int);
    }
    None
}

/// Scans an optionally negated numeral at `i` and keeps it only inside
/// `lo..=hi`, exactly as `parse_int` plus that bound says.
pub fn scan_int(s: &str, i: usize, lo: i64, hi: i64) -> (r: Option<(i64, usize)>)
    ensures
        match parse_int(s@, i as int) {
            Some(vj) => {
                &&& (lo <= vj.0 <= hi ==> r is Some && r->Some_0.0 == vj.0 && r->Some_0.1 == vj.1)
                &&& (!(lo <= vj.0 <= hi) ==> r is None)
            },
            None => r is None,
        },
{
    let n = s.unicode_len();
    if i >= n {
        return None;
    }
    let mut j = i;
    let mut neg = false;
    if s.get_char(j) == '-' {
        neg = true;
        j = j + 1;
    }
    let ghost start = j as int;
    let mut mag: u64 = 0;
    let mut overflow = false;
    while digit_at(s, j, n)
        invariant
            i as int <= start <= j <= n,
            n == s@.len(),
            start == if neg {
                i + 1
            } else {
                i as int
            },
            neg ==> s@[i as int] == '-',
            !neg ==> s@[i as int] != '-',
            i < n,
            forall|k: int| start <= k < j ==> is_digit(#[trigger] s@[k]),
            !overflow ==> mag == digits_val(s@.subrange(start, j as int)),
            overflow ==> digits_val(s@.subrange(start, j as int)) > u64::MAX,
        decreases n - j,
    {
        let c = s.get_char(j);
        let d = (c as u32 - 48) as u64;
        proof {
            let pre = s@.subrange(start, j as int);
            let post = s@.subrange(start, j + 1);
            assert(post.drop_last() =~= pre);
            assert(digits_val(post) == digits_val(pre) * 10 + (d as int));
        }
        if !overflow {
            if mag > (u64::MAX - d) / 10 {
                proof {
                    let q = (u64::MAX - d) / 10;
                    assert(u64::MAX - d == 10 * q + (u64::MAX - d) % 10);
                    assert(mag * 10 >= (q + 1) * 10) by (nonlinear_arith)
                        requires
                            mag >= q + 1,
                    ;
                }
                overflow = true;
            } else {
                mag = mag * 10 + d;
            }
        } else {
            proof {
                let pre = s@.subrange(start, j as int);
                assert(digits_val(pre) * 10 > u64::MAX * 10) by (nonlinear_arith)
                    requires
                        digits_val(pre) > u64::MAX,
                ;
            }
        }
        j += 1;
    }
    proof {
        crate::num::lemma_digits_end_at(s@, start, j as int);
    }
    if j == i || (neg && j == i + 1) {
        return None;
    }
    if overflow {
        return None;
    }
    let v: i128 = if neg {
        -(mag as i128)
    } else {
        mag as i128
    };
    if v < lo as i128 || v > hi as i128 {
        return None;
    }
    Some((v as i64, j))
}

/// Reads an identity object, as `parse_ident` says.
pub fn scan_ident(s: &str, i: usize) -> (r: Option<(CarIdentity, usize)>)
    ensures
        match r {
            Some(p) => {
                &&& parse_ident(s@, i as int) == Some((p.0@, p.1 as int))
                &&& p.0@.wf()
            },
            None => parse_ident(s@, i as int) is None,
        },
{
    let a = match expect_lit(s, i, "{\"number\":") {
        Some(a) => a,
        None => {
            return None;
        },
    };
    let (num, b) = match scan_int(s, a, 0, 255) {
        Some(p) => p,
        None => {
            return None;
        },
    };
    let c = match expect_lit(s, b, ",\"driver_name\":\"") {
        Some(c) => c,
        None => {
            return None;
        },
    };
    let (driver, d) = match scan_string(s, c) {
        Some(p) => p,
        None => {
            return None;
        },
    };
    let e = match expect_lit(s, d, ",\"team_name\":\"") {
        Some(e) => e,
        None => {
            return None;
        },
    };
    let (team, f) = match scan_string(s, e) {
        Some(p) => p,
        None => {
            return None;
        },
    };
    let g = match expect_lit(s, f, "}") {
        Some(g) => g,
        None => {
            return None;
        },
    };
    Some((CarIdentity { number: num as u8, driver_name: driver, team_name: team }, g))
}

/// Reads a physics object, as `parse_physics` says.
pub fn scan_physics(s: &str, i: usize) -> (r: Option<(CarPhysics, usize)>)
    ensures
        match r {
            Some(p) => parse_physics(s@, i as int) == Some((p.0, p.1 as int)),
            None => parse_physics(s@, i as int) is None,
        },
{
    let a = match expect_lit(s, i, "{\"max_steering_angle\":") {
        Some(a) => a,
        None => {
            return None;
        },
    };
    let (angle, b) = match scan_int(s, a, i32::MIN as i64, i32::MAX as i64) {
        Some(p) => p,
        None => {
            return None;
        },
    };
    let c = match expect_lit(s, b, ",\"max_throttle\":") {
        Some(c) => c,
        None => {
            return None;
        },
    };
    let (thr, d) = match scan_int(s, c, i32::MIN as i64, i32::MAX as i64) {
        Some(p) => p,
        None => {
            return None;
        },
    };
    let e = match expect_lit(s, d, "}") {
        Some(e) => e,
        None => {
            return None;
        },
    };
    Some((CarPhysics { max_steering_angle: angle as i32, max_throttle: thr as i32 }, e))
}

/// Reads a success flag, as `parse_bool` says.
fn scan_bool(s: &str, i: usize) -> (r: Option<(bool, usize)>)
    ensures
        match r {
            Some(p) => parse_bool(s@, i as int) == Some((p.0, p.1 as int)),
            None => parse_bool(s@, i as int) is None,
        },
{
    match expect_lit(s, i, "true") {
        Some(j) => Some((true, j)),
        None => match expect_lit(s, i, "false") {
            Some(j) => Some((false, j)),
            None => None,
        },
    }
}

/// Reads a bounded numeral followed by the final closing brace, as
/// `parse_int_end` says.
fn scan_int_end(s: &str, i: usize, lo: i64, hi: i64, n: usize) -> (r: Option<i64>)
    requires
        n == s@.len(),
    ensures
        match r {
            Some(v) => parse_int_end(s@, i as int, lo as int, hi as int) == Some(v as int),
            None => parse_int_end(s@, i as int, lo as int, hi as int) is None,
        },
{
    let (v, j) = match scan_int(s, i, lo, hi) {
        Some(p) => p,
        None => {
            return None;
        },
    };
    match expect_lit(s, j, "}") {
        Some(e) => {
            if e == n {
                Some(v)
            } else {
                None
            }
        },
        None => None,
    }
}

/// Decodes a client datagram's text, returning exactly the message that
/// `parse_client` assigns to it, well-formed for re-encoding.
pub fn decode_client(s: &str) -> (r: Option<ClientMessage>)
    ensures
        match r {
            Some(m) => parse_client(s@) == Some(m@) && m@.wf(),
            None => parse_client(s@) is None,
        },
{
    let n = s.unicode_len();
    let i = match expect_lit(s, 0, "{\"type\":\"") {
        Some(i) => i,
        None => {
            return None;
        },
    };
    if let Some(j) = expect_lit(s, i, "ping\",\"timestamp\":") {
        match scan_int_end(s, j, i64::MIN + 1, i64::MAX, n) {
            Some(v) => Some(ClientMessage::Ping { timestamp: v }),
            None => None,
        }
    } else if let Some(j) = expect_lit(s, i, "identity_request\"}") {
        if j == n {
            Some(ClientMessage::IdentityRequest)
        } else {
            None
        }
    } else if let Some(j) = expect_lit(s, i, "physics_request\"}") {
        if j == n {
            Some(ClientMessage::PhysicsRequest)
        } else {
            None
        }
    } else if let Some(j) = expect_lit(s, i, "identity_update\",\"identity\":") {
        let (identity, k) = match scan_ident(s, j) {
            Some(p) => p,
            None => {
                return None;
            },
        };
        match expect_lit(s, k, "}") {
            Some(e) => {
                if e == n {
                    Some(ClientMessage::IdentityUpdate { identity })
                } else {
                    None
                }
            },
            None => None,
        }
    } else if let Some(j) = expect_lit(s, i, "physics_update\",\"physics\":") {
        let (physics, k) = match scan_physics(s, j) {
            Some(p) => p,
            None => {
                return None;
            },
        };
        match expect_lit(s, k, "}") {
            Some(e) => {
                if e == n {
                    Some(ClientMessage::PhysicsUpdate { physics })
                } else {
                    None
                }
            },
            None => None,
        }
    } else if let Some(j) = expect_lit(s, i, "control\",\"steering\":") {
        let (steering, k) = match scan_int(s, j, -100, 100) {
            Some(p) => p,
            None => {
                return None;
            },
        };
        let e = match expect_lit(s, k, ",\"throttle\":") {
            Some(e) => e,
            None => {
                return None;
            },
        };
        match scan_int_end(s, e, -100, 100, n) {
            Some(throttle) => Some(
                ClientMessage::Control { steering: steering as i8, throttle: throttle as i8 },
            ),
            None => None,
        }
    } else {
        None
    }
}

/// Decodes a server datagram's text, returning exactly the message that
/// `parse_server` assigns to it, well-formed for re-encoding.
pub fn decode_server(s: &str) -> (r: Option<ServerMessage>)
    ensures
        match r {
            Some(m) => parse_server(s@) == Some(m@) && m@.wf(),
            None => parse_server(s@) is None,
        },
{
    let n = s.unicode_len();
    let i = match expect_lit(s, 0, "{\"type\":\"") {
        Some(i) => i,
        None => {
            return None;
        },
    };
    if let Some(j) = expect_lit(s, i, "pong\",\"timestamp\":") {
        match scan_int_end(s, j, i64::MIN + 1, i64::MAX, n) {
            Some(v) => Some(ServerMessage::Pong { timestamp: v }),
            None => None,
        }
    } else if let Some(j) = expect_lit(s, i, "identity\",\"identity\":") {
        let (identity, k) = match scan_ident(s, j) {
            Some(p) => p,
            None => {
                return None;
            },
        };
        match expect_lit(s, k, "}") {
            Some(e) => {
                if e == n {
                    Some(ServerMessage::Identity { identity })
                } else {
                    None
                }
            },
            None => None,
        }
    } else if let Some(j) = expect_lit(s, i, "physics\",\"physics\":") {
        let (physics, k) = match scan_physics(s, j) {
            Some(p) => p,
            None => {
                return None;
            },
        };
        match expect_lit(s, k, "}") {
            Some(e) => {
                if e == n {
                    Some(ServerMessage::Physics { physics })
                } else {
                    None
                }
            },
            None => None,
        }
    } else if let Some(j) = expect_lit(s, i, "identity_updated\",\"success\":") {
        match scan_updated_tail(s, j, n) {
            Some((success, message)) => Some(ServerMessage::IdentityUpdated { success, message }),
            None => None,
        }
    } else if let Some(j) = expect_lit(s, i, "physics_updated\",\"success\":") {
        match scan_updated_tail(s, j, n) {
            Some((success, message)) => Some(ServerMessage::PhysicsUpdated { success, message }),
            None => None,
        }
    } else if let Some(j) = expect_lit(s, i, "error\",\"message\":\"") {
        let (message, k) = match scan_string(s, j) {
            Some(p) => p,
            None => {
                return None;
            },
        };
        match expect_lit(s, k, "}") {
            Some(e) => {
                if e == n {
                    Some(ServerMessage::Error { message })
                } else {
                    None
                }
            },
            None => None,
        }
    } else {
        None
    }
}

/// Reads the shared `success`/`message` tail, as `parse_updated_tail` says.
fn scan_updated_tail(s: &str, i: usize, n: usize) -> (r: Option<(bool, String)>)
    requires
        n == s@.len(),
    ensures
        match r {
            Some(p) => parse_updated_tail(s@, i as int) == Some((p.0, p.1@)) && name_ok(p.1@),
            None => parse_updated_tail(s@, i as int) is None,
        },
{
    let (success, j) = match scan_bool(s, i) {
        Some(p) => p,
        None => {
            return None;
        },
    };
    let k = match expect_lit(s, j, ",\"message\":\"") {
        Some(k) => k,
        None => {
            return None;
        },
    };
    let (message, e) = match scan_string(s, k) {
        Some(p) => p,
        None => {
            return None;
        },
    };
    match expect_lit(s, e, "}") {
        Some(f) => {
            if f == n {
                Some((success, message))
            } else {
                None
            }
        },
        None => None,
    }
}

} // verus!
