use vstd::prelude::*;
use vstd::string::StringSliceAdditionalSpecFns;

use crate::error::Error;
use crate::text::{
    lower_bytes, spec_all_digits, spec_digits_value, spec_lower_seq, spec_trim, spec_trim_back,
    trim_bytes, trim_end_bytes, BYTE_NINE, BYTE_PLUS, BYTE_ZERO,
};

verus! {

/// Huge pages of 2 MiB, the smaller of the two sizes the mapper accepts.
pub const PAGE_SIZE_2M: usize = 2 * 1024 * 1024;

/// Huge pages of 1 GiB, the larger of the two sizes the mapper accepts.
pub const PAGE_SIZE_1G: usize = 1024 * 1024 * 1024;

/// Process-wide memory settings, fixed once before any memory region is
/// created and read-only afterwards.
#[derive(Debug, Clone, Copy, PartialEq, Eq, Structural)]
pub struct GlobalConf {
    pub page_size: usize,
    pub huge_enabled: bool,
}

/// The page sizes the engine accepts, from 1 KiB up to 1 GiB.
pub open spec fn spec_supported_page_size(page_size: usize) -> bool {
    ||| page_size == 1024
    ||| page_size == 4096
    ||| page_size == 8192
    ||| page_size == 16384
    ||| page_size == 32768
    ||| page_size == 65536
    ||| page_size == 1048576
    ||| page_size == 2097152
    ||| page_size == 1073741824
}

impl GlobalConf {
    /// A usable configuration carries one of the supported page sizes.
    pub open spec fn wf(&self) -> bool {
        spec_supported_page_size(self.page_size)
    }
}

/// Reports whether `page_size` is one of the supported sizes.
pub fn supported_page_size(page_size: usize) -> (r: bool)
    ensures
        r == spec_supported_page_size(page_size),
{
    match page_size {
        1024 => true,
        4096 => true,
        8192 => true,
        16384 => true,
        32768 => true,
        65536 => true,
        1048576 => true,
        2097152 => true,
        1073741824 => true,
        _ => false,
    }
}

/// Builds the process-wide memory configuration, rejecting unsupported page
/// sizes. The caller stores the result exactly once, before any region is
/// created.
pub fn init(page_size: usize, huge_enabled: bool) -> (r: Result<GlobalConf, Error>)
    ensures
        match r {
            Ok(conf) => {
                &&& spec_supported_page_size(page_size)
                &&& conf.page_size == page_size
                &&& conf.huge_enabled == huge_enabled
                &&& conf.wf()
            },
            Err(e) => !spec_supported_page_size(page_size) && e == Error::Config,
        },
{
    if supported_page_size(page_size) {
        Ok(GlobalConf { page_size, huge_enabled })
    } else {
        Err(Error::Config)
    }
}

/// The value an unsigned pointer-sized decimal parse of `p` yields: an
/// optional leading plus sign, then at least one digit, with the value
/// fitting the machine word; anything else is rejected.
pub open spec fn spec_usize_value(p: Seq<u8>) -> Option<int> {
    if p.len() == 0 {
        None
    } else {
        let d = if p[0] == BYTE_PLUS {
            p.drop_first()
        } else {
            p
        };
        if d.len() == 0 || !spec_all_digits(d) || spec_digits_value(d) > usize::MAX {
            None
        } else {
            Some(spec_digits_value(d))
        }
    }
}

/// The byte count a suffix-stripped size denotes: the decimal value of the
/// remaining text, trailing whitespace ignored, times the suffix's
/// multiplier.
pub open spec fn spec_scaled_size(b: Seq<u8>, mult: int) -> Option<int> {
    match spec_usize_value(spec_trim_back(b)) {
        None => None,
        Some(v) => Some(v * mult),
    }
}

/// The byte count a page size string denotes, or nothing when it parses to
/// none: the string is lower-cased and trimmed, an optional suffix picks
/// the unit, kilobytes, megabytes, gigabytes or plain bytes, and the rest
/// is an unsigned decimal number.
pub open spec fn spec_parse_page_size(s: Seq<u8>) -> Option<int> {
    let t = spec_trim(spec_lower_seq(s));
    let n = t.len() as int;
    if n >= 1 && t.last() == 107 {
        spec_scaled_size(t.drop_last(), 1024)
    } else if n >= 2 && t[n - 2] == 107 && t.last() == 98 {
        spec_scaled_size(t.take(n - 2), 1024)
    } else if n >= 1 && t.last() == 109 {
        spec_scaled_size(t.drop_last(), 1048576)
    } else if n >= 2 && t[n - 2] == 109 && t.last() == 98 {
        spec_scaled_size(t.take(n - 2), 1048576)
    } else if n >= 1 && t.last() == 103 {
        spec_scaled_size(t.drop_last(), 1073741824)
    } else if n >= 2 && t[n - 2] == 103 && t.last() == 98 {
        spec_scaled_size(t.take(n - 2), 1073741824)
    } else if n >= 1 && t.last() == 98 {
        spec_scaled_size(t.drop_last(), 1)
    } else {
        spec_scaled_size(t, 1)
    }
}

/// Parses a page size string such as `2M`, `64kb` or `4096`: an unsigned
/// number with an optional unit suffix, case-insensitively. Returns
/// `Error::Config` exactly when the text parses to nothing or the byte
/// count does not fit the machine word.
pub fn parse_page_size_str(s: &str) -> (r: Result<usize, Error>)
    ensures
        match r {
            Ok(n) => spec_parse_page_size(s.spec_bytes()) == Some(n as int),
            Err(e) => e == Error::Config && (match spec_parse_page_size(s.spec_bytes()) {
                None => true,
                Some(v) => v > usize::MAX,
            }),
        },
{
    let bytes = s.as_bytes();
    let lowered = lower_bytes(bytes);
    let t = trim_bytes(lowered.as_slice());
    let n = t.len();
    proof {
        assert(t@ == spec_trim(spec_lower_seq(s.spec_bytes())));
    }
    if n >= 1 && t[n - 1] == 107 {
        let base = &t[0..n - 1];
        proof {
            assert(base@ =~= t@.drop_last());
        }
        scaled_size(base, 1024)
    } else if n >= 2 && t[n - 2] == 107 && t[n - 1] == 98 {
        let base = &t[0..n - 2];
        proof {
            assert(base@ =~= t@.take(n as int - 2));
        }
        scaled_size(base, 1024)
    } else if n >= 1 && t[n - 1] == 109 {
        let base = &t[0..n - 1];
        proof {
            assert(base@ =~= t@.drop_last());
        }
        scaled_size(base, 1048576)
    } else if n >= 2 && t[n - 2] == 109 && t[n - 1] == 98 {
        let base = &t[0..n - 2];
        proof {
            assert(base@ =~= t@.take(n as int - 2));
        }
        scaled_size(base, 1048576)
    } else if n >= 1 && t[n - 1] == 103 {
        let base = &t[0..n - 1];
        proof {
            assert(base@ =~= t@.drop_last());
        }
        scaled_size(base, 1073741824)
    } else if n >= 2 && t[n - 2] == 103 && t[n - 1] == 98 {
        let base = &t[0..n - 2];
        proof {
            assert(base@ =~= t@.take(n as int - 2));
        }
        scaled_size(base, 1073741824)
    } else if n >= 1 && t[n - 1] == 98 {
        let base = &t[0..n - 1];
        proof {
            assert(base@ =~= t@.drop_last());
        }
        scaled_size(base, 1)
    } else {
        scaled_size(t, 1)
    }
}

/// Applies the unit multiplier to the number before the suffix.
fn scaled_size(base: &[u8], mult: usize) -> (r: Result<usize, Error>)
    requires
        1 <= mult,
    ensures
        match r {
            Ok(n) => spec_scaled_size(base@, mult as int) == Some(n as int),
            Err(e) => e == Error::Config && (match spec_scaled_size(base@, mult as int) {
                None => true,
                Some(v) => v > usize::MAX,
            }),
        },
{
    let trimmed = trim_end_bytes(base);
    let value = match parse_usize_bytes(trimmed) {
        Some(v) => v,
        None => {
            return Err(Error::Config);
        },
    };
    match value.checked_mul(mult) {
        Some(n) => Ok(n),
        None => Err(Error::Config),
    }
}

/// Parses an unsigned pointer-sized decimal number: an optional leading
/// plus sign, then at least one digit, rejecting overflow.
fn parse_usize_bytes(p: &[u8]) -> (r: Option<usize>)
    ensures
        match r {
            Some(n) => spec_usize_value(p@) == Some(n as int),
            None => spec_usize_value(p@) is None,
        },
{
    if p.len() == 0 {
        return None;
    }
    let d: &[u8] = if p[0] == BYTE_PLUS {
        &p[1..p.len()]
    } else {
        p
    };
    proof {
        if p@[0] == BYTE_PLUS {
            assert(d@ =~= p@.drop_first());
        }
    }
    let dlen = d.len();
    if dlen == 0 {
        return None;
    }
    let mut value: usize = 0;
    let mut i: usize = 0;
    while i < dlen
        invariant
            0 <= i <= dlen,
            dlen == d@.len(),
            dlen > 0,
            p@.len() > 0,
            d@ == (if p@[0] == BYTE_PLUS {
                p@.drop_first()
            } else {
                p@
            }),
            value == spec_digits_value(d@.take(i as int)),
            forall|k: int| 0 <= k < i ==> BYTE_ZERO <= #[trigger] d@[k] <= BYTE_NINE,
        decreases dlen - i,
    {
        let c = d[i];
        if c < BYTE_ZERO || c > BYTE_NINE {
            proof {
                assert(!(BYTE_ZERO <= d@[i as int] <= BYTE_NINE));
                assert(!spec_all_digits(d@));
            }
            return None;
        }
        proof {
            assert(d@.take(i as int + 1).drop_last() =~= d@.take(i as int));
        }
        let digit = (c - BYTE_ZERO) as usize;
        let next = match value.checked_mul(10) {
            Some(x) => {
                match x.checked_add(digit) {
                    Some(y) => y,
                    None => {
                        proof {
                            if spec_all_digits(d@) {
                                crate::text::lemma_digits_value_grows(d@, i as int + 1);
                            }
                            assert(spec_usize_value(p@) is None);
                        }
                        return None;
                    },
                }
            },
            None => {
                proof {
                    if spec_all_digits(d@) {
                        crate::text::lemma_digits_value_grows(d@, i as int + 1);
                    }
                    assert(spec_usize_value(p@) is None);
                }
                return None;
            },
        };
        value = next;
        i += 1;
    }
    proof {
        assert(d@.take(dlen as int) =~= d@);
    }
    Some(value)
}

/// `value` rounded up to the next multiple of `page_size`.
pub open spec fn spec_align_up(value: int, page_size: int) -> int
    recommends
        page_size > 0,
{
    if value % page_size == 0 {
        value
    } else {
        value + page_size - value % page_size
    }
}

/// Rounds a byte count up to a whole number of pages of the configured size.
pub fn align_with_page_size(conf: &GlobalConf, value: usize) -> (r: usize)
    requires
        conf.wf(),
        value + conf.page_size <= usize::MAX,
    ensures
        r == spec_align_up(value as int, conf.page_size as int),
        r % conf.page_size == 0,
        value <= r < value + conf.page_size,
{
    let page_size = conf.page_size;
    let rem = value % page_size;
    if rem == 0 {
        value
    } else {
        value + (page_size - rem)
    }
}

} // verus!
