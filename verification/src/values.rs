use crate::kw::{
    kw_default, kw_disk, kw_dx12, kw_false, kw_gl, kw_high, kw_low, kw_memory, kw_metal,
    kw_single_file, kw_true, kw_vulkan, kw_with_timestamp, kwe_default, kwe_disk, kwe_dx12,
    kwe_false, kwe_gl, kwe_high, kwe_low, kwe_memory, kwe_metal, kwe_single_file, kwe_true,
    kwe_vulkan, kwe_with_timestamp,
};
use crate::textutil::{bytes_eq, copy_range, find_from, first_occ};
use crate::types::{FilenamePattern, GraphicsBackend, PowerPreference, StorageBackend, FULL_VOLUME};
use vstd::prelude::*;

verus! {

/// A quoted value: opening and closing quote with no quote in between.
pub open spec fn is_quoted(v: Seq<u8>) -> bool {
    &&& v.len() >= 2
    &&& v[0] == 34
    &&& v[v.len() - 1] == 34
    &&& forall|k: int| 1 <= k < v.len() - 1 ==> v[k] != 34
}

/// The text inside a quoted value.
pub open spec fn unquote(v: Seq<u8>) -> Seq<u8> {
    v.subrange(1, v.len() - 1)
}

/// A string wrapped in quotes.
pub open spec fn quote(c: Seq<u8>) -> Seq<u8> {
    seq![34u8] + c + seq![34u8]
}

/// Quoting and unquoting are inverse for strings without a quote.
pub proof fn lemma_unquote_quote(c: Seq<u8>)
    requires
        forall|k: int| 0 <= k < c.len() ==> c[k] != 34,
    ensures
        is_quoted(quote(c)),
        unquote(quote(c)) == c,
{
    let q = quote(c);
    assert(q[0] == 34);
    assert(q[q.len() - 1] == 34);
    assert(forall|k: int| 1 <= k < q.len() - 1 ==> q[k] == c[k - 1]);
    assert(unquote(q) =~= c);
}

pub fn parse_quoted(v: &Vec<u8>) -> (r: Option<Vec<u8>>)
    ensures
        match r {
            Some(c) => is_quoted(v@) && c@ == unquote(v@),
            None => !is_quoted(v@),
        },
{
    let n = v.len();
    if n < 2 {
        return None;
    }
    if v[0] != 34 || v[n - 1] != 34 {
        return None;
    }
    let mut i: usize = 1;
    while i < n - 1
        invariant
            1 <= i <= n - 1,
            n == v@.len(),
            n >= 2,
            forall|k: int| 1 <= k < i ==> v@[k] != 34,
        decreases n - i,
    {
        if v[i] == 34 {
            return None;
        }
        i += 1;
    }
    Some(copy_range(v, 1, n - 1))
}

/// The serialized form of a boolean.
pub open spec fn bool_str(b: bool) -> Seq<u8> {
    if b {
        kw_true()
    } else {
        kw_false()
    }
}

/// A bare boolean value.
pub open spec fn parse_bool_spec(v: Seq<u8>) -> Option<bool> {
    if v == kw_true() {
        Some(true)
    } else if v == kw_false() {
        Some(false)
    } else {
        None
    }
}

pub fn parse_bool(v: &Vec<u8>) -> (r: Option<bool>)
    ensures
        r == parse_bool_spec(v@),
{
    if bytes_eq(v, &kwe_true()) {
        Some(true)
    } else if bytes_eq(v, &kwe_false()) {
        Some(false)
    } else {
        None
    }
}

/// The serialized name of each graphics backend.
pub open spec fn gb_str(g: GraphicsBackend) -> Seq<u8> {
    match g {
        GraphicsBackend::Auto => kw_default(),
        GraphicsBackend::Vulkan => kw_vulkan(),
        GraphicsBackend::Metal => kw_metal(),
        GraphicsBackend::Dx12 => kw_dx12(),
        GraphicsBackend::Gl => kw_gl(),
    }
}

/// A quoted graphics-backend name.
pub open spec fn parse_gb_spec(v: Seq<u8>) -> Option<GraphicsBackend> {
    if !is_quoted(v) {
        None
    } else {
        let c = unquote(v);
        if c == kw_default() {
            Some(GraphicsBackend::Auto)
        } else if c == kw_vulkan() {
            Some(GraphicsBackend::Vulkan)
        } else if c == kw_metal() {
            Some(GraphicsBackend::Metal)
        } else if c == kw_dx12() {
            Some(GraphicsBackend::Dx12)
        } else if c == kw_gl() {
            Some(GraphicsBackend::Gl)
        } else {
            None
        }
    }
}

pub fn parse_gb(v: &Vec<u8>) -> (r: Option<GraphicsBackend>)
    ensures
        r == parse_gb_spec(v@),
{
    match parse_quoted(v) {
        None => None,
        Some(c) => {
            if bytes_eq(&c, &kwe_default()) {
                Some(GraphicsBackend::Auto)
            } else if bytes_eq(&c, &kwe_vulkan()) {
                Some(GraphicsBackend::Vulkan)
            } else if bytes_eq(&c, &kwe_metal()) {
                Some(GraphicsBackend::Metal)
            } else if bytes_eq(&c, &kwe_dx12()) {
                Some(GraphicsBackend::Dx12)
            } else if bytes_eq(&c, &kwe_gl()) {
                Some(GraphicsBackend::Gl)
            } else {
                None
            }
        },
    }
}

/// The serialized name of each power preference.
pub open spec fn pp_str(p: PowerPreference) -> Seq<u8> {
    match p {
        PowerPreference::Low => kw_low(),
        PowerPreference::High => kw_high(),
    }
}

/// A quoted power-preference name.
pub open spec fn parse_pp_spec(v: Seq<u8>) -> Option<PowerPreference> {
    if !is_quoted(v) {
        None
    } else {
        let c = unquote(v);
        if c == kw_low() {
            Some(PowerPreference::Low)
        } else if c == kw_high() {
            Some(PowerPreference::High)
        } else {
            None
        }
    }
}

pub fn parse_pp(v: &Vec<u8>) -> (r: Option<PowerPreference>)
    ensures
        r == parse_pp_spec(v@),
{
    match parse_quoted(v) {
        None => None,
        Some(c) => {
            if bytes_eq(&c, &kwe_low()) {
                Some(PowerPreference::Low)
            } else if bytes_eq(&c, &kwe_high()) {
                Some(PowerPreference::High)
            } else {
                None
            }
        },
    }
}

/// The serialized name of each storage backend.
pub open spec fn sb_str(s: StorageBackend) -> Seq<u8> {
    match s {
        StorageBackend::Disk => kw_disk(),
        StorageBackend::Memory => kw_memory(),
    }
}

/// A quoted storage-backend name.
pub open spec fn parse_sb_spec(v: Seq<u8>) -> Option<StorageBackend> {
    if !is_quoted(v) {
        None
    } else {
        let c = unquote(v);
        if c == kw_disk() {
            Some(StorageBackend::Disk)
        } else if c == kw_memory() {
            Some(StorageBackend::Memory)
        } else {
            None
        }
    }
}

pub fn parse_sb(v: &Vec<u8>) -> (r: Option<StorageBackend>)
    ensures
        r == parse_sb_spec(v@),
{
    match parse_quoted(v) {
        None => None,
        Some(c) => {
            if bytes_eq(&c, &kwe_disk()) {
                Some(StorageBackend::Disk)
            } else if bytes_eq(&c, &kwe_memory()) {
                Some(StorageBackend::Memory)
            } else {
                None
            }
        },
    }
}

/// The serialized name of each log filename pattern.
pub open spec fn fp_str(f: FilenamePattern) -> Seq<u8> {
    match f {
        FilenamePattern::SingleFile => kw_single_file(),
        FilenamePattern::WithTimestamp => kw_with_timestamp(),
    }
}

/// A quoted filename-pattern name.
pub open spec fn parse_fp_spec(v: Seq<u8>) -> Option<FilenamePattern> {
    if !is_quoted(v) {
        None
    } else {
        let c = unquote(v);
        if c == kw_single_file() {
            Some(FilenamePattern::SingleFile)
        } else if c == kw_with_timestamp() {
            Some(FilenamePattern::WithTimestamp)
        } else {
            None
        }
    }
}

pub fn parse_fp(v: &Vec<u8>) -> (r: Option<FilenamePattern>)
    ensures
        r == parse_fp_spec(v@),
{
    match parse_quoted(v) {
        None => None,
        Some(c) => {
            if bytes_eq(&c, &kwe_single_file()) {
                Some(FilenamePattern::SingleFile)
            } else if bytes_eq(&c, &kwe_with_timestamp()) {
                Some(FilenamePattern::WithTimestamp)
            } else {
                None
            }
        },
    }
}

/// A non-empty run of decimal digits.
pub open spec fn all_digits(v: Seq<u8>) -> bool {
    v.len() > 0 && forall|k: int| 0 <= k < v.len() ==> 48 <= #[trigger] v[k] <= 57
}

/// The number the digits denote, most significant first.
pub open spec fn digits_val(v: Seq<u8>) -> int
    decreases v.len(),
{
    if v.len() == 0 {
        0
    } else {
        digits_val(v.drop_last()) * 10 + (v[v.len() - 1] - 48)
    }
}

pub proof fn lemma_digits_val_bounds(v: Seq<u8>)
    requires
        forall|k: int| 0 <= k < v.len() ==> 48 <= #[trigger] v[k] <= 57,
    ensures
        0 <= digits_val(v),
        v.len() <= 1 ==> digits_val(v) <= 9,
        v.len() <= 2 ==> digits_val(v) <= 99,
        v.len() <= 3 ==> digits_val(v) <= 999,
    decreases v.len(),
{
    if v.len() > 0 {
        lemma_digits_val_bounds(v.drop_last());
    }
}

/// A well-formed volume literal: digits, optionally followed by a point and
/// one to three fractional digits.
pub open spec fn number_wf(v: Seq<u8>) -> bool {
    let d = first_occ(v, 46) as int;
    if d >= v.len() {
        all_digits(v)
    } else {
        &&& all_digits(v.subrange(0, d))
        &&& all_digits(v.subrange(d + 1, v.len() as int))
        &&& 1 <= v.len() - d - 1 <= 3
    }
}

/// The denoted value in thousandths of full volume.
pub open spec fn number_val(v: Seq<u8>) -> int {
    let d = first_occ(v, 46) as int;
    if d >= v.len() {
        digits_val(v) * 1000
    } else {
        let f = v.subrange(d + 1, v.len() as int);
        let scale: int = if f.len() == 1 {
            100
        } else if f.len() == 2 {
            10
        } else {
            1
        };
        digits_val(v.subrange(0, d)) * 1000 + digits_val(f) * scale
    }
}

pub proof fn lemma_number_val_nonneg(v: Seq<u8>)
    requires
        number_wf(v),
    ensures
        number_val(v) >= 0,
{
    let d = first_occ(v, 46) as int;
    if d >= v.len() {
        lemma_digits_val_bounds(v);
    } else {
        lemma_digits_val_bounds(v.subrange(0, d));
        lemma_digits_val_bounds(v.subrange(d + 1, v.len() as int));
    }
}

/// The outcome of reading a volume literal.
#[derive(Clone, Copy, Debug, PartialEq, Eq, Structural)]
pub enum VolumeParse {
    Malformed,
    OutOfRange,
    Value(u32),
}

/// A volume literal is malformed when it is not a decimal number; a negative
/// number or one above full volume is out of range; anything else is its
/// value in thousandths.
pub open spec fn parse_volume_spec(v: Seq<u8>) -> VolumeParse {
    if v.len() > 0 && v[0] == 45 {
        if number_wf(v.drop_first()) {
            VolumeParse::OutOfRange
        } else {
            VolumeParse::Malformed
        }
    } else if number_wf(v) {
        if number_val(v) > FULL_VOLUME {
            VolumeParse::OutOfRange
        } else {
            VolumeParse::Value(number_val(v) as u32)
        }
    } else {
        VolumeParse::Malformed
    }
}

/// Reads the digits `v[lo..hi]`, capping the result at 2000; the cap is
/// reached exactly when the denoted number exceeds it.
fn digits_capped(v: &Vec<u8>, lo: usize, hi: usize) -> (r: Option<u32>)
    requires
        lo <= hi <= v@.len(),
    ensures
        match r {
            Some(x) => {
                &&& all_digits(v@.subrange(lo as int, hi as int))
                &&& x <= 2000
                &&& (x < 2000 ==> x == digits_val(v@.subrange(lo as int, hi as int)))
                &&& (x == 2000 ==> digits_val(v@.subrange(lo as int, hi as int)) >= 2000)
            },
            None => !all_digits(v@.subrange(lo as int, hi as int)),
        },
{
    if lo == hi {
        proof {
            assert(v@.subrange(lo as int, hi as int).len() == 0);
        }
        return None;
    }
    let mut acc: u32 = 0;
    let mut i: usize = lo;
    proof {
        assert(v@.subrange(lo as int, lo as int).len() == 0);
    }
    while i < hi
        invariant
            lo <= i <= hi <= v@.len(),
            acc <= 2000,
            forall|k: int| lo <= k < i ==> 48 <= #[trigger] v@[k] <= 57,
            acc < 2000 ==> acc == digits_val(v@.subrange(lo as int, i as int)),
            acc == 2000 ==> digits_val(v@.subrange(lo as int, i as int)) >= 2000,
        decreases hi - i,
    {
        let b = v[i];
        if b < 48 || b > 57 {
            proof {
                assert(v@.subrange(lo as int, hi as int)[i - lo] == v@[i as int]);
            }
            return None;
        }
        proof {
            let pref = v@.subrange(lo as int, i as int);
            let next = v@.subrange(lo as int, i + 1);
            assert(next.drop_last() =~= pref);
            assert(next[next.len() - 1] == v@[i as int]);
            assert(digits_val(next) == digits_val(pref) * 10 + (v@[i as int] - 48));
            lemma_digits_val_bounds(pref);
        }
        let d32: u32 = (b - 48) as u32;
        if acc >= 201 {
            proof {
                let pref = v@.subrange(lo as int, i as int);
                let next = v@.subrange(lo as int, i + 1);
                assert(digits_val(pref) >= 201);
                assert(digits_val(next) >= 2010);
            }
            acc = 2000;
        } else {
            let cand: u32 = acc * 10 + d32;
            if cand > 2000 {
                acc = 2000;
            } else {
                acc = cand;
            }
        }
        i += 1;
    }
    proof {
        assert(all_digits(v@.subrange(lo as int, hi as int)));
    }
    Some(acc)
}

/// Reads a volume literal.
pub fn parse_volume(v: &Vec<u8>) -> (r: VolumeParse)
    ensures
        r == parse_volume_spec(v@),
{
    let n = v.len();
    let neg = n > 0 && v[0] == 45;
    let lo: usize = if neg {
        1
    } else {
        0
    };
    let ghost body = v@.subrange(lo as int, n as int);
    let d = find_from(v, lo, 46);
    proof {
        assert(first_occ(body, 46) == d - lo);
    }
    let int_ok = digits_capped(v, lo, d);
    let wf: bool;
    let mut val: u32 = 0;
    match int_ok {
        None => {
            wf = false;
            proof {
                assert(body.subrange(0, d - lo) =~= v@.subrange(lo as int, d as int));
                assert(!number_wf(body));
            }
        },
        Some(ip) => {
            if d == n {
                wf = true;
                let ipart: u32 = if ip >= 2000 {
                    2000
                } else {
                    ip
                };
                val = ipart * 1000;
                proof {
                    assert(body =~= v@.subrange(lo as int, d as int));
                    assert(number_wf(body));
                    assert(number_val(body) == digits_val(body) * 1000);
                    if ip < 2000 {
                        assert(val == number_val(body));
                    } else {
                        assert(digits_val(body) >= 2000);
                        assert(number_val(body) >= 2000 * 1000);
                        assert(val >= 2000 * 1000);
                    }
                }
            } else {
                let flen = n - d - 1;
                if flen < 1 || flen > 3 {
                    wf = false;
                    proof {
                        assert(!number_wf(body));
                    }
                } else {
                    let frac = digits_capped(v, d + 1, n);
                    match frac {
                        None => {
                            wf = false;
                            proof {
                                assert(body.subrange(d - lo + 1, body.len() as int) =~= v@.subrange(
                                    d + 1,
                                    n as int,
                                ));
                                assert(!number_wf(body));
                            }
                        },
                        Some(fv) => {
                            proof {
                                let f = v@.subrange(d + 1, n as int);
                                lemma_digits_val_bounds(f);
                                assert(f.len() <= 3);
                                assert(digits_val(f) <= 999);
                                assert(fv == digits_val(f));
                                assert(body.subrange(d - lo + 1, body.len() as int) =~= f);
                                assert(body.subrange(0, d - lo) =~= v@.subrange(
                                    lo as int,
                                    d as int,
                                ));
                                assert(number_wf(body));
                            }
                            wf = true;
                            let scale: u32 = if flen == 1 {
                                100
                            } else if flen == 2 {
                                10
                            } else {
                                1
                            };
                            let ipart: u32 = if ip >= 2000 {
                                2000
                            } else {
                                ip
                            };
                            val = ipart * 1000 + fv * scale;
                            proof {
                                let f = v@.subrange(d + 1, n as int);
                                let ipv = digits_val(v@.subrange(lo as int, d as int));
                                let sc: int = if f.len() == 1 {
                                    100
                                } else if f.len() == 2 {
                                    10
                                } else {
                                    1
                                };
                                assert(number_val(body) == ipv * 1000 + digits_val(f) * sc);
                                if ip < 2000 {
                                    assert(val == number_val(body));
                                } else {
                                    assert(ipv >= 2000);
                                    assert(ipv * 1000 >= 2000 * 1000);
                                    assert(number_val(body) >= 2000 * 1000);
                                    assert(val >= 2000 * 1000);
                                }
                            }
                        },
                    }
                }
            }
        },
    }
    if neg {
        proof {
            assert(v@.drop_first() =~= body);
        }
        if wf {
            VolumeParse::OutOfRange
        } else {
            VolumeParse::Malformed
        }
    } else {
        proof {
            assert(body =~= v@);
        }
        if !wf {
            VolumeParse::Malformed
        } else if val > FULL_VOLUME {
            proof {
                assert(number_val(v@) > FULL_VOLUME);
            }
            VolumeParse::OutOfRange
        } else {
            proof {
                assert(val == number_val(v@));
            }
            VolumeParse::Value(val)
        }
    }
}

} // verus!
