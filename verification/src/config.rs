//! The persisted vehicle configuration: the identity record as it stands in
//! the config file, the physics limits held in memory, and the file format
//! itself — three lines of key/value text. Loading falls back to the default
//! identity when no file exists; every update hands back the full new file
//! text so the caller can overwrite atomically.
use crate::decode::{expect_lit, match_lit, parse_string, scan_int, scan_string};
use crate::num::{dec_nat, is_digit, parse_int};
use crate::types::{CarIdentity, CarPhysics, IdentityV};
use vstd::prelude::*;

verus! {

/// The file text of an identity record.
pub open spec fn ser_config(id: IdentityV) -> Seq<char> {
    "number = "@ + dec_nat(id.number as nat) + "\ndriver_name = \""@ + id.driver_name
        + "\"\nteam_name = \""@ + id.team_name + "\"\n"@
}

/// The identity a whole file text denotes, if any.
pub open spec fn parse_config(s: Seq<char>) -> Option<IdentityV> {
    match match_lit(s, 0, "number = "@) {
        None => None,
        Some(a) => match parse_int(s, a) {
            None => None,
            Some((num, b)) => if !(0 <= num <= 255) {
                None
            } else {
                match match_lit(s, b, "\ndriver_name = \""@) {
                    None => None,
                    Some(c) => match parse_string(s, c) {
                        None => None,
                        Some((driver, d)) => match match_lit(s, d, "\nteam_name = \""@) {
                            None => None,
                            Some(e) => match parse_string(s, e) {
                                None => None,
                                Some((team, f)) => if match_lit(s, f, "\n"@) == Some(
                                    s.len() as int,
                                ) {
                                    Some(
                                        IdentityV {
                                            number: num as u8,
                                            driver_name: driver,
                                            team_name: team,
                                        },
                                    )
                                } else {
                                    None
                                },
                            },
                        },
                    },
                }
            },
        },
    }
}

/// Writes the file text of an identity.
pub fn encode_config(id: &CarIdentity) -> (out: String)
    ensures
        out@ == ser_config(id@),
{
    let mut out = "number = ".to_owned();
    let num = crate::num::format_u64(id.number as u64);
    out.append(num.as_str());
    out.append("\ndriver_name = \"");
    out.append(id.driver_name.as_str());
    out.append("\"\nteam_name = \"");
    out.append(id.team_name.as_str());
    out.append("\"\n");
    proof {
        assert(out@ =~= ser_config(id@));
    }
    out
}

/// Reads an identity back from file text, exactly as `parse_config` says.
pub fn decode_config(s: &str) -> (r: Option<CarIdentity>)
    ensures
        match r {
            Some(id) => parse_config(s@) == Some(id@) && id@.wf(),
            None => parse_config(s@) is None,
        },
{
    let n = s.unicode_len();
    let a = match expect_lit(s, 0, "number = ") {
        Some(a) => a,
        None => {
            return None;
        },
    };
    let (num, b) = match scan_int(s, a, 0, 255) {
        Some(p) => p,
        None => {
            return None;
        },
    };
    let c = match expect_lit(s, b, "\ndriver_name = \"") {
        Some(c) => c,
        None => {
            return None;
        },
    };
    let (driver, d) = match scan_string(s, c) {
        Some(p) => p,
        None => {
            return None;
        },
    };
    let e = match expect_lit(s, d, "\nteam_name = \"") {
        Some(e) => e,
        None => {
            return None;
        },
    };
    let (team, f) = match scan_string(s, e) {
        Some(p) => p,
        None => {
            return None;
        },
    };
    match expect_lit(s, f, "\n") {
        Some(g) => {
            if g == n {
                Some(CarIdentity { number: num as u8, driver_name: driver, team_name: team })
            } else {
                None
            }
        },
        None => None,
    }
}

/// Law: an identity written as file text reads back as exactly itself.
#[verifier::rlimit(60)]
pub proof fn lemma_config_round_trip(id: IdentityV)
    requires
        id.wf(),
    ensures
        parse_config(ser_config(id)) == Some(id),
{
    let s = ser_config(id);
    let a_lit = "number = "@;
    let num = dec_nat(id.number as nat);
    let b_lit = "\ndriver_name = \""@;
    let c_lit = "\"\nteam_name = \""@;
    let d_lit = "\"\n"@;
    reveal_strlit("number = ");
    reveal_strlit("\ndriver_name = \"");
    reveal_strlit("\"\nteam_name = \"");
    reveal_strlit("\nteam_name = \"");
    reveal_strlit("\"\n");
    reveal_strlit("\n");
    crate::num::lemma_dec_nat_shape(id.number as nat);
    let p1 = a_lit.len() as int;
    let p2 = p1 + num.len() as int;
    let p3 = p2 + b_lit.len() as int;
    let p4 = p3 + id.driver_name.len() as int;
    let p5 = p4 + c_lit.len() as int;
    let p6 = p5 + id.team_name.len() as int;
    let wl = s.len() as int;
    assert(s.subrange(0, p1) =~= a_lit);
    assert(s.subrange(p1, p2) =~= num);
    assert(s.subrange(p2, p3) =~= b_lit);
    assert(s.subrange(p3, p4) =~= id.driver_name);
    assert(s.subrange(p4, p5) =~= c_lit);
    assert(s.subrange(p5, p6) =~= id.team_name);
    assert(s.subrange(p6, wl) =~= d_lit);
    assert(match_lit(s, 0, a_lit) == Some(p1));
    assert(s[p2] == '\n') by {
        assert(s.subrange(p2, p3)[0] == s[p2]);
    }
    assert(!is_digit('\n') && '\n' != '-') by {
        assert('\n' as u32 == 10);
        assert('-' as u32 == 45);
    }
    assert(crate::num::dec_int(id.number as int) == num);
    crate::num::lemma_parse_int_of_dec(s, p1, id.number as int);
    assert(match_lit(s, p2, b_lit) == Some(p3));
    assert(s[p4] == '"') by {
        assert(s.subrange(p4, p5)[0] == s[p4]);
    }
    crate::decode::lemma_parse_string_at(s, p3, id.driver_name);
    assert(s.subrange(p4 + 1, p5) == c_lit.subrange(1, c_lit.len() as int)) by {
        crate::decode::lemma_piece_at(s, p4, c_lit, 1, c_lit.len() as int);
    }
    assert(c_lit.subrange(1, c_lit.len() as int) =~= "\nteam_name = \""@);
    assert(match_lit(s, p4 + 1, "\nteam_name = \""@) == Some(p5));
    assert(s[p6] == '"') by {
        assert(s.subrange(p6, wl)[0] == s[p6]);
    }
    crate::decode::lemma_parse_string_at(s, p5, id.team_name);
    assert(s.subrange(p6 + 1, wl) == d_lit.subrange(1, 2)) by {
        crate::decode::lemma_piece_at(s, p6, d_lit, 1, 2);
    }
    assert(d_lit.subrange(1, 2) =~= "\n"@);
    assert(match_lit(s, p6 + 1, "\n"@) == Some(wl));
    assert((id.number as int) as u8 == id.number);
}

/// The in-memory configuration: the persisted identity and the physics
/// limits, which live only for the process.
pub struct ConfigManager {
    pub identity: CarIdentity,
    pub physics: CarPhysics,
}

impl ConfigManager {
    /// The load-or-default start when no config file exists yet: the default
    /// identity, and the file text to persist for it.
    pub fn new_default() -> (r: (ConfigManager, String))
        ensures
            r.0.identity@.number == 0,
            r.0.identity@.driver_name == "Unknown Driver"@,
            r.0.identity@.team_name == "Unknown Team"@,
            r.0.physics == (CarPhysics { max_steering_angle: 30, max_throttle: 100 }),
            r.1@ == ser_config(r.0.identity@),
    {
        let identity = CarIdentity {
            number: 0,
            driver_name: "Unknown Driver".to_owned(),
            team_name: "Unknown Team".to_owned(),
        };
        let text = encode_config(&identity);
        (
            ConfigManager {
                identity,
                physics: CarPhysics { max_steering_angle: 30, max_throttle: 100 },
            },
            text,
        )
    }

    /// The load path: an existing file's text must parse, else the start-up
    /// fails rather than silently defaulting over a corrupt file.
    pub fn from_text(content: &str) -> (r: Option<ConfigManager>)
        ensures
            match r {
                Some(m) => parse_config(content@) == Some(m.identity@) && m.physics == (CarPhysics {
                    max_steering_angle: 30,
                    max_throttle: 100,
                }),
                None => parse_config(content@) is None,
            },
    {
        match decode_config(content) {
            Some(identity) => Some(
                ConfigManager {
                    identity,
                    physics: CarPhysics { max_steering_angle: 30, max_throttle: 100 },
                },
            ),
            None => None,
        }
    }

    pub fn get_identity(&self) -> (r: &CarIdentity)
        ensures
            r@ == self.identity@,
    {
        &self.identity
    }

    pub fn get_physics(&self) -> (r: &CarPhysics)
        ensures
            *r == self.physics,
    {
        &self.physics
    }

    /// Replaces the identity and hands back the new file text to overwrite
    /// the config file with.
    pub fn update_identity(&mut self, new_identity: CarIdentity) -> (file_text: String)
        ensures
            final(self).identity@ == new_identity@,
            final(self).physics == old(self).physics,
            file_text@ == ser_config(new_identity@),
    {
        let text = encode_config(&new_identity);
        self.identity = new_identity;
        text
    }

    /// Replaces the physics limits; they are not persisted.
    pub fn update_physics(&mut self, new_physics: CarPhysics)
        ensures
            final(self).physics == new_physics,
            final(self).identity@ == old(self).identity@,
    {
        self.physics = new_physics;
    }
}

} // verus!
