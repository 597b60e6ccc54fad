use vstd::prelude::*;

verus! {

use vstd::utf8::encode_utf8;

/// A protocol version the engine or the agent supports, as announced in the
/// HELLO handshake: `MAJOR.MINOR` with an optional `.PATCH`, the patch
/// defaulting to zero.
#[derive(Clone, Copy, PartialEq, Eq, Structural, Debug)]
pub struct SupportVersion {
    pub major: u64,
    pub minor: u64,
    pub patch: u64,
}

/// Whether a byte is an ASCII decimal digit.
pub open spec fn is_digit(b: u8) -> bool {
    0x30 <= b <= 0x39
}

/// Whether `b` is one or more ASCII decimal digits.
pub open spec fn is_digits(b: Seq<u8>) -> bool {
    b.len() > 0 && forall|i: int| 0 <= i < b.len() ==> is_digit(#[trigger] b[i])
}

/// The value of a run of ASCII decimal digits.
pub open spec fn dec_val(b: Seq<u8>) -> nat
    decreases b.len(),
{
    if b.len() == 0 {
        0
    } else {
        (dec_val(b.drop_last()) * 10 + (b.last() - 0x30)) as nat
    }
}

/// `b` without leading or trailing ASCII spaces.
pub open spec fn trim_spaces(b: Seq<u8>) -> Seq<u8>
    decreases b.len(),
{
    if b.len() == 0 {
        b
    } else if b[0] == 0x20 {
        trim_spaces(b.skip(1))
    } else if b.last() == 0x20 {
        trim_spaces(b.drop_last())
    } else {
        b
    }
}

/// The index of the first `c` in `b`, or `b.len()` if there is none.
pub open spec fn find_byte(b: Seq<u8>, c: u8) -> int
    decreases b.len(),
{
    if b.len() == 0 {
        0
    } else if b[0] == c {
        0
    } else {
        1 + find_byte(b.skip(1), c)
    }
}

/// A numeric component of a version: one or more digits whose value fits in
/// 64 bits.
pub open spec fn version_component(b: Seq<u8>) -> Option<u64> {
    if is_digits(b) && dec_val(b) <= u64::MAX {
        Some(dec_val(b) as u64)
    } else {
        None
    }
}

/// Parses `MAJOR.MINOR` or `MAJOR.MINOR.PATCH` from the trimmed bytes of a
/// version string; the patch defaults to zero when absent.
pub open spec fn version_parse(b: Seq<u8>) -> Option<(u64, u64, u64)> {
    let t = trim_spaces(b);
    let d1 = find_byte(t, 0x2E);
    if d1 >= t.len() {
        None
    } else {
        let major_part = t.take(d1);
        let rest = t.skip(d1 + 1);
        let d2 = find_byte(rest, 0x2E);
        let minor_part = if d2 >= rest.len() {
            rest
        } else {
            rest.take(d2)
        };
        let patch_part = if d2 >= rest.len() {
            Seq::<u8>::empty()
        } else {
            rest.skip(d2 + 1)
        };
        match (version_component(major_part), version_component(minor_part)) {
            (Some(major), Some(minor)) => {
                if d2 >= rest.len() {
                    Some((major, minor, 0))
                } else if find_byte(patch_part, 0x2E) < patch_part.len() {
                    None
                } else {
                    match version_component(patch_part) {
                        Some(patch) => Some((major, minor, patch)),
                        None => None,
                    }
                }
            },
            _ => None,
        }
    }
}

/// Stripping `k` leading non-matching bytes shifts the first match by `k`.
proof fn lemma_find_byte_skip(b: Seq<u8>, c: u8, k: int)
    requires
        0 <= k <= b.len(),
        forall|j: int| 0 <= j < k ==> b[j] != c,
    ensures
        find_byte(b, c) == k + find_byte(b.skip(k), c),
    decreases k,
{
    if k > 0 {
        lemma_find_byte_skip(b.skip(1), c, k - 1);
        assert(b.skip(1).skip(k - 1) =~= b.skip(k));
    } else {
        assert(b.skip(0) =~= b);
    }
}

/// The first match lies within the sequence, and is a match where one
/// exists.
pub proof fn lemma_find_byte_in_range(b: Seq<u8>, c: u8)
    ensures
        0 <= find_byte(b, c) <= b.len(),
        find_byte(b, c) < b.len() ==> b[find_byte(b, c)] == c,
        forall|j: int| 0 <= j < find_byte(b, c) ==> b[j] != c,
    decreases b.len(),
{
    if b.len() > 0 && b[0] != c {
        lemma_find_byte_in_range(b.skip(1), c);
        assert forall|j: int| 0 <= j < find_byte(b, c) implies b[j] != c by {
            if j > 0 {
                assert(b.skip(1)[j - 1] == b[j]);
            }
        }
        if find_byte(b, c) < b.len() {
            assert(b.skip(1)[find_byte(b.skip(1), c)] == b[find_byte(b, c)]);
        }
    }
}

/// A digit run's value only grows as the run extends.
proof fn lemma_dec_val_mono(b: Seq<u8>, i: int)
    requires
        0 <= i <= b.len(),
        forall|j: int| 0 <= j < b.len() ==> is_digit(#[trigger] b[j]),
    ensures
        dec_val(b.take(i)) <= dec_val(b),
    decreases b.len() - i,
{
    if i < b.len() {
        lemma_dec_val_mono(b, i + 1);
        assert(b.take(i + 1).drop_last() =~= b.take(i));
        assert(b.take(i + 1).last() == b[i]);
        assert(is_digit(b[i]));
        assert(dec_val(b.take(i)) * 10 >= dec_val(b.take(i)) * 1) by (nonlinear_arith);
        assert(dec_val(b.take(i + 1)) >= dec_val(b.take(i)));
    } else {
        assert(b.take(i) =~= b);
    }
}

/// The trimmed form of `b` is the subrange that drops exactly the leading
/// and trailing spaces.
proof fn lemma_trim_spaces(b: Seq<u8>, lo: int, hi: int)
    requires
        0 <= lo <= hi <= b.len(),
        forall|i: int| 0 <= i < lo ==> b[i] == 0x20,
        forall|i: int| hi <= i < b.len() ==> b[i] == 0x20,
        lo < hi ==> b[lo] != 0x20 && b[hi - 1] != 0x20,
        lo == hi ==> lo == 0 || hi == b.len(),
    ensures
        trim_spaces(b) == b.subrange(lo, hi),
    decreases b.len(),
{
    if b.len() == 0 {
        assert(b.subrange(lo, hi) =~= b);
    } else if b[0] == 0x20 {
        assert(lo >= 1 || lo == hi) by {
            if lo == 0 && lo < hi {
                assert(b[lo] != 0x20);
            }
        }
        if lo == hi && lo == 0 {
            lemma_trim_spaces(b.skip(1), 0, 0);
            assert(b.subrange(0, 0) =~= b.skip(1).subrange(0, 0));
        } else {
            lemma_trim_spaces(b.skip(1), lo - 1, hi - 1);
            assert(b.skip(1).subrange(lo - 1, hi - 1) =~= b.subrange(lo, hi));
        }
    } else if b.last() == 0x20 {
        assert(hi < b.len() || lo == hi) by {
            if hi == b.len() && lo < hi {
                assert(b[hi - 1] != 0x20);
            }
        }
        if lo == hi && hi == b.len() {
            assert(lo >= 1);
            assert(b[0] == 0x20);
        } else {
            lemma_trim_spaces(b.drop_last(), lo, hi);
            assert(b.drop_last().subrange(lo, hi) =~= b.subrange(lo, hi));
        }
    } else {
        assert(lo == 0) by {
            if lo > 0 {
                assert(b[0] == 0x20);
            }
        }
        assert(hi == b.len()) by {
            if hi < b.len() {
                assert(b[b.len() - 1] == 0x20);
            }
        }
        assert(b.subrange(0, b.len() as int) =~= b);
    }
}

/// The index of the first `c` in `b`, or `b.len()` if there is none, as
/// executable code.
pub fn find_byte_exec(b: &[u8], c: u8) -> (r: usize)
    ensures
        r == find_byte(b@, c),
        r <= b@.len(),
        r < b@.len() ==> b@[r as int] == c,
{
    proof {
        lemma_find_byte_in_range(b@, c);
    }
    let n = b.len();
    let mut i: usize = 0;
    while i < n
        invariant
            0 <= i <= n,
            n == b@.len(),
            forall|j: int| 0 <= j < i ==> b@[j] != c,
        decreases n - i,
    {
        if b[i] == c {
            proof {
                lemma_find_byte_skip(b@, c, i as int);
            }
            return i;
        }
        i = i + 1;
    }
    proof {
        lemma_find_byte_skip(b@, c, n as int);
        assert(b@.skip(n as int) =~= Seq::<u8>::empty());
    }
    n
}

/// `b` without leading or trailing ASCII spaces, as executable code.
pub fn trim_slice<'a>(b: &'a [u8]) -> (r: &'a [u8])
    ensures
        r@ == trim_spaces(b@),
{
    let n = b.len();
    let mut lo: usize = 0;
    while lo < n && b[lo] == 0x20
        invariant
            0 <= lo <= n,
            n == b@.len(),
            forall|i: int| 0 <= i < lo ==> b@[i] == 0x20,
        decreases n - lo,
    {
        lo = lo + 1;
    }
    let mut hi: usize = n;
    while hi > lo && b[hi - 1] == 0x20
        invariant
            lo <= hi <= n,
            n == b@.len(),
            forall|i: int| hi <= i < n ==> b@[i] == 0x20,
        decreases hi,
    {
        hi = hi - 1;
    }
    proof {
        lemma_trim_spaces(b@, lo as int, hi as int);
    }
    vstd::slice::slice_subrange(b, lo, hi)
}

/// Parses one numeric version component: one or more digits whose value
/// fits 64 bits.
fn parse_component(b: &[u8]) -> (r: Option<u64>)
    ensures
        r == version_component(b@),
{
    let n = b.len();
    if n == 0 {
        return None;
    }
    let mut acc: u64 = 0;
    let mut i: usize = 0;
    proof {
        assert(b@.take(0) =~= Seq::<u8>::empty());
    }
    while i < n
        invariant
            0 <= i <= n,
            n == b@.len(),
            forall|j: int| 0 <= j < i ==> is_digit(#[trigger] b@[j]),
            acc == dec_val(b@.take(i as int)),
        decreases n - i,
    {
        let d = b[i];
        if d < 0x30 || d > 0x39 {
            return None;
        }
        proof {
            assert(b@.take(i + 1).drop_last() =~= b@.take(i as int));
            assert(b@.take(i + 1).last() == b@[i as int]);
        }
        let step = match acc.checked_mul(10) {
            Some(x) => x.checked_add((d - 0x30) as u64),
            None => None,
        };
        acc = match step {
            Some(x) => x,
            None => {
                proof {
                    if is_digits(b@) {
                        lemma_dec_val_mono(b@, i + 1);
                    }
                }
                return None;
            },
        };
        i = i + 1;
    }
    proof {
        assert(b@.take(n as int) =~= b@);
    }
    Some(acc)
}

impl SupportVersion {
    pub fn new(major: u64, minor: u64, patch: u64) -> (r: Self)
        ensures
            r == (SupportVersion { major, minor, patch }),
    {
        Self { major, minor, patch }
    }

    /// Parses a version string, trimming spaces and defaulting the patch
    /// component to zero.
    pub fn parse(s: &str) -> (r: Option<SupportVersion>)
        ensures
            match version_parse(encode_utf8(s@)) {
                Some((major, minor, patch)) => r == Some(SupportVersion { major, minor, patch }),
                None => r is None,
            },
    {
        Self::parse_bytes(s.as_bytes())
    }

    /// Parses a version from raw string bytes.
    pub fn parse_bytes(b: &[u8]) -> (r: Option<SupportVersion>)
        ensures
            match version_parse(b@) {
                Some((major, minor, patch)) => r == Some(SupportVersion { major, minor, patch }),
                None => r is None,
            },
    {
        let t = trim_slice(b);
        let ghost tv = trim_spaces(b@);
        let d1 = find_byte_exec(t, 0x2E);
        if d1 >= t.len() {
            return None;
        }
        let major_part = vstd::slice::slice_subrange(t, 0, d1);
        assert(major_part@ =~= tv.take(d1 as int));
        let rest = vstd::slice::slice_subrange(t, d1 + 1, t.len());
        assert(rest@ =~= tv.skip(d1 + 1));
        let d2 = find_byte_exec(rest, 0x2E);
        let major = match parse_component(major_part) {
            Some(v) => v,
            None => {
                return None;
            },
        };
        if d2 >= rest.len() {
            let minor = match parse_component(rest) {
                Some(v) => v,
                None => {
                    return None;
                },
            };
            Some(SupportVersion { major, minor, patch: 0 })
        } else {
            let minor_part = vstd::slice::slice_subrange(rest, 0, d2);
            assert(minor_part@ =~= rest@.take(d2 as int));
            let minor = match parse_component(minor_part) {
                Some(v) => v,
                None => {
                    return None;
                },
            };
            let patch_part = vstd::slice::slice_subrange(rest, d2 + 1, rest.len());
            assert(patch_part@ =~= rest@.skip(d2 + 1));
            let d3 = find_byte_exec(patch_part, 0x2E);
            if d3 < patch_part.len() {
                return None;
            }
            let patch = match parse_component(patch_part) {
                Some(v) => v,
                None => {
                    return None;
                },
            };
            Some(SupportVersion { major, minor, patch })
        }
    }

    /// Renders the version as `MAJOR.MINOR`, the form the agent announces in
    /// its own HELLO.
    pub fn to_string(&self) -> (r: String)
        ensures
            r@ == version_chars(self.major, self.minor),
    {
        let mut out = u64_dec_string(self.major);
        proof {
            reveal_strlit(".");
        }
        out.append(".");
        let minor = u64_dec_string(self.minor);
        out.append(minor.as_str());
        out
    }
}

/// The decimal digit character for a value below ten.
pub open spec fn digit_char(d: nat) -> char {
    ((0x30 + d) as u32) as char
}

/// The decimal rendering of a number, most significant digit first.
pub open spec fn dec_chars(v: nat) -> Seq<char>
    decreases v,
{
    if v < 10 {
        seq![digit_char(v)]
    } else {
        dec_chars(v / 10).push(digit_char(v % 10))
    }
}

/// The characters of `MAJOR.MINOR`.
pub open spec fn version_chars(major: u64, minor: u64) -> Seq<char> {
    dec_chars(major as nat) + seq!['.'] + dec_chars(minor as nat)
}

/// The one-character string for a decimal digit.
fn digit_str(d: u64) -> (r: &'static str)
    requires
        d < 10,
    ensures
        r@ == seq![digit_char(d as nat)],
{
    proof {
        reveal_strlit("0");
        reveal_strlit("1");
        reveal_strlit("2");
        reveal_strlit("3");
        reveal_strlit("4");
        reveal_strlit("5");
        reveal_strlit("6");
        reveal_strlit("7");
        reveal_strlit("8");
        reveal_strlit("9");
    }
    if d == 0 {
        "0"
    } else if d == 1 {
        "1"
    } else if d == 2 {
        "2"
    } else if d == 3 {
        "3"
    } else if d == 4 {
        "4"
    } else if d == 5 {
        "5"
    } else if d == 6 {
        "6"
    } else if d == 7 {
        "7"
    } else if d == 8 {
        "8"
    } else {
        "9"
    }
}

/// Renders a number in decimal.
fn u64_dec_string(v: u64) -> (r: String)
    ensures
        r@ == dec_chars(v as nat),
    decreases v,
{
    if v < 10 {
        digit_str(v).to_owned()
    } else {
        let mut out = u64_dec_string(v / 10);
        out.append(digit_str(v % 10));
        assert(out@ =~= dec_chars(v as nat));
        out
    }
}

} // verus!
