//! PostgreSQL versions: the ordered `(major, minor)` pair, its textual
//! `"MAJOR.MINOR"` form, and the catalogue of releases the tool offers.

use vstd::prelude::*;
use vstd::string::StrSliceExecFns;
use vstd::string::StringExecFns;

verus! {

/// A PostgreSQL release, ordered by major number and then by minor number.
#[derive(Clone, Copy, Debug, PartialEq, Eq, Structural)]
pub struct PostgresVersion {
    pub major: u32,
    pub minor: u32,
}

/// True when `c` is a decimal digit.
pub open spec fn is_digit_char(c: char) -> bool {
    c == '0' || c == '1' || c == '2' || c == '3' || c == '4' || c == '5' || c == '6' || c == '7'
        || c == '8' || c == '9'
}

/// The numeric value of a decimal digit (unspecified digits map to 9).
pub open spec fn digit_val(c: char) -> int {
    if c == '0' {
        0
    } else if c == '1' {
        1
    } else if c == '2' {
        2
    } else if c == '3' {
        3
    } else if c == '4' {
        4
    } else if c == '5' {
        5
    } else if c == '6' {
        6
    } else if c == '7' {
        7
    } else if c == '8' {
        8
    } else {
        9
    }
}

/// The decimal digit for a value below ten (larger values map to '9').
pub open spec fn digit_char(d: int) -> char {
    if d == 0 {
        '0'
    } else if d == 1 {
        '1'
    } else if d == 2 {
        '2'
    } else if d == 3 {
        '3'
    } else if d == 4 {
        '4'
    } else if d == 5 {
        '5'
    } else if d == 6 {
        '6'
    } else if d == 7 {
        '7'
    } else if d == 8 {
        '8'
    } else {
        '9'
    }
}

/// True when every character of `s` is a decimal digit.
pub open spec fn all_digits(s: Seq<char>) -> bool {
    forall|i: int| 0 <= i < s.len() ==> is_digit_char(#[trigger] s[i])
}

/// The value of `s` read as a decimal numeral.
pub open spec fn dec_value(s: Seq<char>) -> int
    decreases s.len(),
{
    if s.len() == 0 {
        0
    } else {
        10 * dec_value(s.drop_last()) + digit_val(s.last())
    }
}

/// The shortest decimal numeral for `n`.
pub open spec fn dec_digits(n: nat) -> Seq<char>
    decreases n,
{
    if n < 10 {
        seq![digit_char(n as int)]
    } else {
        dec_digits(n / 10) + seq![digit_char((n % 10) as int)]
    }
}

/// The index of the first `'.'` in `s`, or `s.len()` when there is none.
pub open spec fn first_dot(s: Seq<char>) -> int
    decreases s.len(),
{
    if s.len() == 0 {
        0
    } else if s[0] == '.' {
        0
    } else {
        1 + first_dot(s.drop_first())
    }
}

/// True when `t` is a non-empty digit string whose value fits in a `u32`.
pub open spec fn is_u32_digits(t: Seq<char>) -> bool {
    t.len() > 0 && all_digits(t) && dec_value(t) <= u32::MAX
}

/// True when `s` has the form `"MAJOR.MINOR"`: a digit string, the first dot,
/// and another digit string, both values fitting in a `u32`.
pub open spec fn is_version_string(s: Seq<char>) -> bool {
    let d = first_dot(s);
    &&& d < s.len()
    &&& is_u32_digits(s.subrange(0, d))
    &&& is_u32_digits(s.subrange(d + 1, s.len() as int))
}

/// The version a well-formed `"MAJOR.MINOR"` string denotes.
pub open spec fn spec_parsed(s: Seq<char>) -> PostgresVersion {
    let d = first_dot(s);
    PostgresVersion {
        major: dec_value(s.subrange(0, d)) as u32,
        minor: dec_value(s.subrange(d + 1, s.len() as int)) as u32,
    }
}

/// The textual `"MAJOR.MINOR"` form of a version.
pub open spec fn spec_render(v: PostgresVersion) -> Seq<char> {
    dec_digits(v.major as nat) + "."@ + dec_digits(v.minor as nat)
}

pub proof fn lemma_dec_value_nonneg(s: Seq<char>)
    ensures
        dec_value(s) >= 0,
    decreases s.len(),
{
    if s.len() > 0 {
        lemma_dec_value_nonneg(s.drop_last());
    }
}

/// A decimal numeral is worth at least any of its prefixes.
pub proof fn lemma_dec_value_prefix_le(s: Seq<char>, k: int)
    requires
        0 <= k <= s.len(),
    ensures
        dec_value(s.subrange(0, k)) <= dec_value(s),
    decreases s.len() - k,
{
    if k == s.len() {
        assert(s.subrange(0, k) =~= s);
    } else {
        lemma_dec_value_prefix_le(s, k + 1);
        let p = s.subrange(0, k + 1);
        assert(p.drop_last() =~= s.subrange(0, k));
        lemma_dec_value_nonneg(s.subrange(0, k));
    }
}

pub proof fn lemma_first_dot_props(s: Seq<char>)
    ensures
        0 <= first_dot(s) <= s.len(),
        first_dot(s) < s.len() ==> s[first_dot(s)] == '.',
        forall|j: int| 0 <= j < first_dot(s) ==> s[j] != '.',
    decreases s.len(),
{
    if s.len() == 0 {
    } else if s[0] == '.' {
    } else {
        lemma_first_dot_props(s.drop_first());
        assert forall|j: int| 0 <= j < first_dot(s) implies s[j] != '.' by {
            if j > 0 {
                assert(s.drop_first()[j - 1] == s[j]);
            }
        }
    }
}

impl PostgresVersion {
    /// True when `self` names a strictly earlier release than `other`.
    pub open spec fn spec_lt(self, other: PostgresVersion) -> bool {
        self.major < other.major || (self.major == other.major && self.minor < other.minor)
    }

    /// Strict comparison by major number, then minor number.
    pub fn lt(&self, other: &PostgresVersion) -> (r: bool)
        ensures
            r == self.spec_lt(*other),
    {
        self.major < other.major || (self.major == other.major && self.minor < other.minor)
    }

    /// Reads a `"MAJOR.MINOR"` string; rejects anything else.
    pub fn parse(s: &str) -> (r: Option<PostgresVersion>)
        ensures
            match r {
                Some(v) => is_version_string(s@) && v == spec_parsed(s@),
                None => !is_version_string(s@),
            },
    {
        proof {
            lemma_first_dot_props(s@);
        }
        match find_first_dot(s) {
            None => None,
            Some(d) => {
                let len = s.unicode_len();
                let major = parse_u32_region(s, 0, d);
                let minor = parse_u32_region(s, d + 1, len);
                match (major, minor) {
                    (Some(ma), Some(mi)) => Some(PostgresVersion { major: ma, minor: mi }),
                    _ => None,
                }
            },
        }
    }

    /// Writes the `"MAJOR.MINOR"` form.
    pub fn render(&self) -> (r: String)
        ensures
            r@ == spec_render(*self),
    {
        let mut s = decimal_string(self.major);
        s.append(".");
        let minor = decimal_string(self.minor);
        s.append(minor.as_str());
        s
    }
}

/// The numeric value of one digit character.
fn digit_of(c: char) -> (r: Option<u32>)
    ensures
        match r {
            Some(d) => is_digit_char(c) && d == digit_val(c),
            None => !is_digit_char(c),
        },
{
    match c {
        '0' => Some(0),
        '1' => Some(1),
        '2' => Some(2),
        '3' => Some(3),
        '4' => Some(4),
        '5' => Some(5),
        '6' => Some(6),
        '7' => Some(7),
        '8' => Some(8),
        '9' => Some(9),
        _ => None,
    }
}

/// The one-character string for a digit value.
fn digit_str(d: u32) -> (r: &'static str)
    requires
        d < 10,
    ensures
        r@ =~= seq![digit_char(d as int)],
{
    proof {
        reveal_strlit("0");
        reveal_strlit("1");
        reveal_strlit("2");
        reveal_strlit("3");
        reveal_strlit("4");
        reveal_strlit("5");
        reveal_strlit("6");
        reveal_strlit("7");
        reveal_strlit("8");
        reveal_strlit("9");
    }
    if d == 0 {
        "0"
    } else if d == 1 {
        "1"
    } else if d == 2 {
        "2"
    } else if d == 3 {
        "3"
    } else if d == 4 {
        "4"
    } else if d == 5 {
        "5"
    } else if d == 6 {
        "6"
    } else if d == 7 {
        "7"
    } else if d == 8 {
        "8"
    } else {
        "9"
    }
}

/// The shortest decimal numeral for `n`.
pub fn decimal_string(n: u32) -> (r: String)
    ensures
        r@ == dec_digits(n as nat),
    decreases n,
{
    if n < 10 {
        String::from_str(digit_str(n))
    } else {
        proof {
            assert((n as nat) / 10 < n as nat) by (nonlinear_arith)
                requires
                    n >= 10,
            ;
        }
        let mut s = decimal_string(n / 10);
        s.append(digit_str(n % 10));
        s
    }
}

/// The index of the first `'.'` in `s`, if any.
fn find_first_dot(s: &str) -> (r: Option<usize>)
    ensures
        match r {
            Some(i) => i < s@.len() && first_dot(s@) == i,
            None => first_dot(s@) == s@.len(),
        },
{
    let len = s.unicode_len();
    let mut i: usize = 0;
    while i < len
        invariant
            i <= len,
            len == s@.len(),
            forall|j: int| 0 <= j < i ==> s@[j] != '.',
        decreases len - i,
    {
        if s.get_char(i) == '.' {
            proof {
                // the scan saw no earlier dot, so this one is the first
                lemma_first_dot_props(s@);
                assert(first_dot(s@) >= i);
                assert(first_dot(s@) <= i);
            }
            return Some(i);
        }
        i += 1;
    }
    proof {
        lemma_first_dot_props(s@);
    }
    None
}

/// Reads `s[from..to]` as a decimal `u32`; rejects an empty region, a
/// non-digit, and a value above `u32::MAX`.
fn parse_u32_region(s: &str, from: usize, to: usize) -> (r: Option<u32>)
    requires
        from <= to <= s@.len(),
    ensures
        match r {
            Some(v) => is_u32_digits(s@.subrange(from as int, to as int)) && v == dec_value(
                s@.subrange(from as int, to as int),
            ),
            None => !is_u32_digits(s@.subrange(from as int, to as int)),
        },
{
    let ghost region = s@.subrange(from as int, to as int);
    if from == to {
        return None;
    }
    let mut acc: u64 = 0;
    let mut i = from;
    while i < to
        invariant
            from <= i <= to <= s@.len(),
            region == s@.subrange(from as int, to as int),
            all_digits(s@.subrange(from as int, i as int)),
            acc == dec_value(s@.subrange(from as int, i as int)),
            acc <= u32::MAX,
        decreases to - i,
    {
        let c = s.get_char(i);
        match digit_of(c) {
            None => {
                proof {
                    assert(region[i - from] == c);
                }
                return None;
            },
            Some(d) => {
                acc = acc * 10 + d as u64;
                proof {
                    let prev = s@.subrange(from as int, i as int);
                    let cur = s@.subrange(from as int, i + 1);
                    assert(cur.drop_last() =~= prev);
                    assert(cur.last() == c);
                }
                if acc > u32::MAX as u64 {
                    proof {
                        if all_digits(region) && dec_value(region) <= u32::MAX {
                            let cur = s@.subrange(from as int, i + 1);
                            assert(region.subrange(0, i + 1 - from) =~= cur);
                            lemma_dec_value_prefix_le(region, i + 1 - from);
                        }
                    }
                    return None;
                }
                i += 1;
            },
        }
    }
    proof {
        assert(s@.subrange(from as int, i as int) =~= region);
    }
    Some(acc as u32)
}

/// The image tag published for a release, `"postgres:MAJOR.MINOR"`.
pub fn format_image(ver: &PostgresVersion) -> (r: String)
    ensures
        r@ == "postgres:"@ + spec_render(*ver),
{
    let mut s = String::from_str("postgres:");
    let body = ver.render();
    s.append(body.as_str());
    s
}

/// Compares two owned strings by content.
fn string_eq(a: &String, b: &String) -> (r: bool)
    ensures
        r == (a@ == b@),
{
    a.eq(b)
}

/// True when one of the repo tags names the image of the desired release.
pub fn image_present(tags: &Vec<String>, ver: &PostgresVersion) -> (r: bool)
    ensures
        r == (exists|i: int|
            0 <= i < tags@.len() && (#[trigger] tags@[i])@ == "postgres:"@ + spec_render(*ver)),
{
    let image = format_image(ver);
    let n = tags.len();
    let mut i: usize = 0;
    while i < n
        invariant
            i <= n,
            n == tags@.len(),
            image@ == "postgres:"@ + spec_render(*ver),
            forall|j: int| 0 <= j < i ==> (#[trigger] tags@[j])@ != image@,
        decreases n - i,
    {
        if string_eq(&tags[i], &image) {
            return true;
        }
        i += 1;
    }
    false
}

/// The releases the tool can provision, newest first.
pub fn available_versions() -> (r: Vec<PostgresVersion>)
    ensures
        r@ =~= seq![
            (PostgresVersion { major: 18, minor: 1 }),
            (PostgresVersion { major: 17, minor: 7 }),
            (PostgresVersion { major: 16, minor: 11 }),
            (PostgresVersion { major: 15, minor: 15 }),
            (PostgresVersion { major: 14, minor: 20 }),
        ],
{
    let mut v: Vec<PostgresVersion> = Vec::new();
    v.push(PostgresVersion { major: 18, minor: 1 });
    v.push(PostgresVersion { major: 17, minor: 7 });
    v.push(PostgresVersion { major: 16, minor: 11 });
    v.push(PostgresVersion { major: 15, minor: 15 });
    v.push(PostgresVersion { major: 14, minor: 20 });
    v
}

/// The newest release among `versions`: an element no other element exceeds.
pub fn latest_version(versions: &Vec<PostgresVersion>) -> (r: Option<PostgresVersion>)
    ensures
        match r {
            Some(m) => versions@.contains(m) && forall|i: int|
                0 <= i < versions@.len() ==> !m.spec_lt(#[trigger] versions@[i]),
            None => versions@.len() == 0,
        },
{
    if versions.len() == 0 {
        return None;
    }
    let mut best = versions[0];
    let mut i: usize = 1;
    while i < versions.len()
        invariant
            1 <= i <= versions@.len(),
            versions@.contains(best),
            forall|j: int| 0 <= j < i ==> !best.spec_lt(#[trigger] versions@[j]),
        decreases versions@.len() - i,
    {
        if best.lt(&versions[i]) {
            best = versions[i];
            proof {
                assert forall|j: int| 0 <= j < i + 1 implies !best.spec_lt(#[trigger] versions@[j]) by {}
            }
        }
        i += 1;
    }
    Some(best)
}

/// Version order is a strict total order: any two versions are related in
/// exactly one of three ways.
pub proof fn lemma_version_order_trichotomy(a: PostgresVersion, b: PostgresVersion)
    ensures
        a.spec_lt(b) || b.spec_lt(a) || a == b,
        a.spec_lt(b) ==> !b.spec_lt(a) && a != b,
        a == b ==> !a.spec_lt(b) && !b.spec_lt(a),
{
}

/// Version order is transitive.
pub proof fn lemma_version_order_transitive(a: PostgresVersion, b: PostgresVersion, c: PostgresVersion)
    requires
        a.spec_lt(b),
        b.spec_lt(c),
    ensures
        a.spec_lt(c),
{
}

} // verus!
