use vstd::prelude::*;
use vstd::string::StringSliceAdditionalSpecFns;

use crate::error::Error;
use crate::text::{
    find_byte, spec_all_digits, spec_digits_value, spec_find, spec_lower_seq, spec_trim,
    to_lower_byte, trim_bytes, BYTE_COMMA, BYTE_LPAREN, BYTE_NINE, BYTE_PLUS, BYTE_RPAREN,
    BYTE_ZERO,
};

verus! {

/// The bytes of the keyword `constant`.
pub open spec fn spec_constant_keyword() -> Seq<u8> {
    seq![99u8, 111u8, 110u8, 115u8, 116u8, 97u8, 110u8, 116u8]
}

/// The value an unsigned 16-bit parse of `p` yields: an optional leading
/// plus sign, then at least one decimal digit, with the value fitting in 16
/// bits; anything else is rejected.
pub open spec fn spec_u16_value(p: Seq<u8>) -> Option<u16> {
    if p.len() == 0 {
        None
    } else {
        let d = if p[0] == BYTE_PLUS {
            p.drop_first()
        } else {
            p
        };
        if d.len() == 0 || !spec_all_digits(d) || spec_digits_value(d) > 65535 {
            None
        } else {
            Some(spec_digits_value(d) as u16)
        }
    }
}

/// A parameter as the parser cleans it: trimmed, with one trailing closing
/// parenthesis removed if present.
pub open spec fn spec_clean_param(p: Seq<u8>) -> Seq<u8> {
    let q = spec_trim(p);
    if q.len() > 0 && q.last() == BYTE_RPAREN {
        q.drop_last()
    } else {
        q
    }
}

/// The packet size a distribution string of the form `constant(<n>)`
/// denotes, or nothing when the string is not of that form. The input is
/// trimmed and must end with a closing parenthesis, which is removed; the
/// piece before the first opening parenthesis is the distribution name,
/// compared case-insensitively; the piece between the first opening
/// parenthesis and the next (or the end) must be a single parameter, a
/// 16-bit unsigned number.
pub open spec fn spec_parse_distr(s: Seq<u8>) -> Option<u16> {
    let t = spec_trim(s);
    if t.len() == 0 || t.last() != BYTE_RPAREN {
        None
    } else {
        let u = t.drop_last();
        let i = spec_find(u, BYTE_LPAREN);
        if i < 0 {
            None
        } else {
            let name = spec_lower_seq(u.take(i));
            let rest = u.skip(i + 1);
            let j = spec_find(rest, BYTE_LPAREN);
            let params_str = if j < 0 {
                rest
            } else {
                rest.take(j)
            };
            if name != spec_constant_keyword() {
                None
            } else if spec_find(params_str, BYTE_COMMA) >= 0 {
                None
            } else {
                spec_u16_value(spec_clean_param(params_str))
            }
        }
    }
}

/// The distribution packet sizes are drawn from.
#[derive(Debug, Clone, Copy, PartialEq, Eq, Structural)]
pub enum PktSizeDistr {
    Constant(u16),
}

impl PktSizeDistr {
    /// The size every draw yields.
    pub open spec fn spec_generate(&self) -> u16 {
        match self {
            PktSizeDistr::Constant(size) => *size,
        }
    }

    /// The largest size any draw can yield.
    pub open spec fn spec_max_size(&self) -> u16 {
        self.spec_generate()
    }

    /// Parses a distribution specification string such as `constant(64)`.
    /// Returns `Error::Config` exactly on the strings the grammar rejects.
    pub fn parse(s: &str) -> (r: Result<PktSizeDistr, Error>)
        ensures
            match r {
                Ok(PktSizeDistr::Constant(n)) => spec_parse_distr(s.spec_bytes()) == Some(n),
                Err(e) => spec_parse_distr(s.spec_bytes()) is None && e == Error::Config,
            },
    {
        let bytes = s.as_bytes();
        let t = trim_bytes(bytes);
        let tlen = t.len();
        if tlen == 0 {
            return Err(Error::Config);
        }
        if t[tlen - 1] != BYTE_RPAREN {
            return Err(Error::Config);
        }
        let u = &t[0..tlen - 1];
        proof {
            assert(u@ =~= spec_trim(s.spec_bytes()).drop_last());
        }
        let i = match find_byte(u, BYTE_LPAREN) {
            Some(i) => i,
            None => {
                return Err(Error::Config);
            },
        };
        let name = &u[0..i];
        let rest = &u[i + 1..u.len()];
        proof {
            assert(name@ =~= u@.take(i as int));
            assert(rest@ =~= u@.skip(i + 1));
        }
        let params_str = match find_byte(rest, BYTE_LPAREN) {
            Some(j) => &rest[0..j],
            None => rest,
        };
        if !is_constant_keyword(name) {
            return Err(Error::Config);
        }
        if find_byte(params_str, BYTE_COMMA).is_some() {
            return Err(Error::Config);
        }
        let cleaned_trimmed = trim_bytes(params_str);
        let clen = cleaned_trimmed.len();
        let cleaned = if clen > 0 && cleaned_trimmed[clen - 1] == BYTE_RPAREN {
            &cleaned_trimmed[0..clen - 1]
        } else {
            cleaned_trimmed
        };
        proof {
            assert(cleaned@ =~= spec_clean_param(params_str@));
        }
        match parse_u16_bytes(cleaned) {
            Some(n) => Ok(PktSizeDistr::Constant(n)),
            None => Err(Error::Config),
        }
    }

    /// Draws the next packet size from the distribution.
    pub fn generate(&self) -> (r: u16)
        ensures
            r == self.spec_generate(),
    {
        match self {
            PktSizeDistr::Constant(size) => *size,
        }
    }

    /// The largest packet size the distribution can draw, used to check a
    /// distribution against a region's element size.
    pub fn max_size(&self) -> (r: u16)
        ensures
            r == self.spec_max_size(),
    {
        match self {
            PktSizeDistr::Constant(size) => *size,
        }
    }
}

/// Whether `name` spells the keyword `constant`, case-insensitively.
fn is_constant_keyword(name: &[u8]) -> (r: bool)
    ensures
        r == (spec_lower_seq(name@) == spec_constant_keyword()),
{
    if name.len() != 8 {
        proof {
            assert(spec_lower_seq(name@).len() == name@.len());
        }
        return false;
    }
    let r = to_lower_byte(name[0]) == 99 && to_lower_byte(name[1]) == 111 && to_lower_byte(name[2])
        == 110 && to_lower_byte(name[3]) == 115 && to_lower_byte(name[4]) == 116 && to_lower_byte(
        name[5],
    ) == 97 && to_lower_byte(name[6]) == 110 && to_lower_byte(name[7]) == 116;
    proof {
        if r {
            assert(spec_lower_seq(name@) =~= spec_constant_keyword());
        } else {
            assert(spec_lower_seq(name@) != spec_constant_keyword());
        }
    }
    r
}

/// Parses an unsigned 16-bit decimal number: an optional leading plus sign,
/// then at least one digit, rejecting overflow.
fn parse_u16_bytes(p: &[u8]) -> (r: Option<u16>)
    ensures
        r == spec_u16_value(p@),
{
    if p.len() == 0 {
        return None;
    }
    let d: &[u8] = if p[0] == BYTE_PLUS {
        &p[1..p.len()]
    } else {
        p
    };
    proof {
        if p@[0] == BYTE_PLUS {
            assert(d@ =~= p@.drop_first());
        }
    }
    let dlen = d.len();
    if dlen == 0 {
        return None;
    }
    let mut value: u32 = 0;
    let mut i: usize = 0;
    while i < dlen
        invariant
            0 <= i <= dlen,
            dlen == d@.len(),
            dlen > 0,
            p@.len() > 0,
            d@ == (if p@[0] == BYTE_PLUS {
                p@.drop_first()
            } else {
                p@
            }),
            value == spec_digits_value(d@.take(i as int)),
            value <= 65535,
            forall|k: int| 0 <= k < i ==> BYTE_ZERO <= #[trigger] d@[k] <= BYTE_NINE,
        decreases dlen - i,
    {
        let c = d[i];
        if c < BYTE_ZERO || c > BYTE_NINE {
            proof {
                assert(!(BYTE_ZERO <= d@[i as int] <= BYTE_NINE));
                assert(!spec_all_digits(d@));
            }
            return None;
        }
        let next = value * 10 + (c - BYTE_ZERO) as u32;
        proof {
            assert(d@.take(i as int + 1).drop_last() =~= d@.take(i as int));
        }
        if next > 65535 {
            proof {
                if spec_all_digits(d@) {
                    assert(spec_digits_value(d@.take(i as int + 1)) == value * 10 + (c
                        - BYTE_ZERO));
                    crate::text::lemma_digits_value_grows(d@, i as int + 1);
                    assert(spec_digits_value(d@) > 65535);
                }
                assert(spec_u16_value(p@) is None);
            }
            return None;
        }
        value = next;
        i += 1;
    }
    proof {
        assert(d@.take(dlen as int) =~= d@);
    }
    Some(value as u16)
}

} // verus!
