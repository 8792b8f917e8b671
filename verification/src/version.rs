use vstd::prelude::*;
use vstd::string::{StrSliceExecFns, StringExecFns};

verus! {

/// A concrete interpreter version: `major.minor.patch`.
#[derive(Clone, Copy, PartialEq, Eq, Structural, Debug, Hash)]
pub struct RubyVersion {
    pub major: u64,
    pub minor: u64,
    pub patch: u64,
}

/// A parsed version specifier: `latest`, a prefix (`3` or `3.4`),
/// or an exact version (`3.4.5`).
#[derive(Clone, Copy, PartialEq, Eq, Structural, Debug)]
pub enum RubyRequest {
    Latest,
    Major(u64),
    MajorMinor(u64, u64),
    Exact(RubyVersion),
}

/// Lexicographic order on (major, minor, patch).
pub open spec fn version_lt(a: RubyVersion, b: RubyVersion) -> bool {
    a.major < b.major
        || (a.major == b.major && a.minor < b.minor)
        || (a.major == b.major && a.minor == b.minor && a.patch < b.patch)
}

pub open spec fn version_le(a: RubyVersion, b: RubyVersion) -> bool {
    version_lt(a, b) || a == b
}

/// Which concrete versions satisfy a request.
pub open spec fn request_matches(req: RubyRequest, v: RubyVersion) -> bool {
    match req {
        RubyRequest::Latest => true,
        RubyRequest::Major(a) => v.major == a,
        RubyRequest::MajorMinor(a, b) => v.major == a && v.minor == b,
        RubyRequest::Exact(w) => v == w,
    }
}

pub open spec fn is_digit(c: char) -> bool {
    '0' <= c && c <= '9'
}

pub open spec fn all_digits(s: Seq<char>) -> bool {
    forall|i: int| 0 <= i < s.len() ==> is_digit(#[trigger] s[i])
}

pub open spec fn digit_val(c: char) -> nat {
    ((c as int) - ('0' as int)) as nat
}

/// The character for a value below sixteen (decimal rendering uses the
/// first ten, hexadecimal rendering all sixteen).
pub open spec fn digit_char(n: u8) -> char {
    if n == 0 { '0' } else if n == 1 { '1' } else if n == 2 { '2' } else if n == 3 { '3' }
    else if n == 4 { '4' } else if n == 5 { '5' } else if n == 6 { '6' } else if n == 7 { '7' }
    else if n == 8 { '8' } else if n == 9 { '9' } else if n == 10 { 'a' } else if n == 11 { 'b' }
    else if n == 12 { 'c' } else if n == 13 { 'd' } else if n == 14 { 'e' } else { 'f' }
}

/// The decimal rendering of a number, most significant digit first,
/// with no leading zeros.
pub open spec fn dec_of(n: nat) -> Seq<char>
    decreases n,
{
    if n < 10 {
        seq![digit_char(n as u8)]
    } else {
        dec_of(n / 10) + seq![digit_char((n % 10) as u8)]
    }
}

/// The numeric value of a digit string, read in decimal.
pub open spec fn num_val(s: Seq<char>) -> nat
    decreases s.len(),
{
    if s.len() == 0 {
        0
    } else {
        num_val(s.drop_last()) * 10 + digit_val(s.last())
    }
}

/// A digit string that is the canonical decimal rendering of some `u64`:
/// nonempty, all digits, no leading zero, and small enough to fit.
pub open spec fn wf_num(s: Seq<char>) -> bool {
    s.len() >= 1 && all_digits(s) && (s.len() > 1 ==> s[0] != '0') && num_val(s) <= u64::MAX
}

/// The canonical text of a request: `latest`, or dot-separated decimal
/// components without leading zeros.
pub open spec fn request_str(req: RubyRequest) -> Seq<char> {
    match req {
        RubyRequest::Latest => "latest"@,
        RubyRequest::Major(a) => dec_of(a as nat),
        RubyRequest::MajorMinor(a, b) => dec_of(a as nat) + seq!['.'] + dec_of(b as nat),
        RubyRequest::Exact(v) => version_str(v),
    }
}

/// The canonical text of a version, `major.minor.patch`.
pub open spec fn version_str(v: RubyVersion) -> Seq<char> {
    dec_of(v.major as nat) + seq!['.'] + dec_of(v.minor as nat) + seq!['.'] + dec_of(
        v.patch as nat,
    )
}

pub proof fn lemma_dec_of_digits(n: nat)
    ensures
        dec_of(n).len() >= 1,
        all_digits(dec_of(n)),
        dec_of(n).len() > 1 ==> dec_of(n)[0] != '0',
        num_val(dec_of(n)) == n,
    decreases n,
{
    if n < 10 {
        let s = dec_of(n);
        assert(s =~= seq![digit_char(n as u8)]);
        assert(s.drop_last() =~= Seq::<char>::empty());
        assert(num_val(Seq::<char>::empty()) == 0);
        assert(digit_val(digit_char(n as u8)) == n);
        assert(num_val(s) == num_val(s.drop_last()) * 10 + digit_val(s.last()));
        assert(is_digit(digit_char(n as u8)));
    } else {
        lemma_dec_of_digits(n / 10);
        let p = dec_of(n / 10);
        let s = dec_of(n);
        assert(s == p + seq![digit_char((n % 10) as u8)]);
        assert(s.drop_last() =~= p);
        assert(s.last() == digit_char((n % 10) as u8));
        assert(digit_val(digit_char((n % 10) as u8)) == n % 10);
        assert(is_digit(digit_char((n % 10) as u8)));
        assert(num_val(s) == (n / 10) * 10 + (n % 10));
        assert((n / 10) * 10 + (n % 10) == n) by (nonlinear_arith);
        assert(all_digits(s)) by {
            assert(forall|i: int| 0 <= i < p.len() ==> s[i] == p[i]);
            assert(is_digit(s[s.len() - 1]));
        }
        assert(n / 10 >= 1);
        assert(s[0] == p[0]);
        if s[0] == '0' {
            if p.len() == 1 {
                assert(p.drop_last() =~= Seq::<char>::empty());
                assert(num_val(Seq::<char>::empty()) == 0);
                assert(num_val(p) == num_val(p.drop_last()) * 10 + digit_val(p.last()));
                assert(digit_val('0') == 0);
                assert(false);
            } else {
                assert(false);
            }
        }
    }
}

/// A nonempty digit string without a leading zero is the canonical
/// rendering of its own value.
pub proof fn lemma_num_val_canonical(s: Seq<char>)
    requires
        s.len() >= 1,
        all_digits(s),
        s.len() > 1 ==> s[0] != '0',
    ensures
        dec_of(num_val(s)) == s,
        s[0] == '0' ==> num_val(s) == 0,
        s[0] != '0' ==> num_val(s) >= 1,
    decreases s.len(),
{
    let d = digit_val(s.last());
    assert(is_digit(s.last()));
    assert(d < 10);
    if s.len() == 1 {
        assert(s.drop_last() =~= Seq::<char>::empty());
        assert(num_val(Seq::<char>::empty()) == 0);
        assert(num_val(s) == num_val(s.drop_last()) * 10 + digit_val(s.last()));
        assert(num_val(s) == d);
        assert(digit_char(d as u8) == s.last());
        assert(dec_of(num_val(s)) =~= seq![s[0]]);
        assert(dec_of(num_val(s)) =~= s);
    } else {
        let p = s.drop_last();
        lemma_num_val_canonical(p);
        assert(num_val(p) >= 1);
        let n = num_val(s);
        assert(n == num_val(p) * 10 + d);
        assert(n >= 10) by (nonlinear_arith)
            requires
                n == num_val(p) * 10 + d,
                num_val(p) >= 1,
        ;
        assert(n / 10 == num_val(p) && n % 10 == d) by (nonlinear_arith)
            requires
                n == num_val(p) * 10 + d,
                d < 10,
        ;
        assert(digit_char(d as u8) == s.last());
        assert(dec_of(n) =~= dec_of(num_val(p)) + seq![s.last()]);
        assert(dec_of(n) =~= p + seq![s.last()]);
        assert(dec_of(n) =~= s);
    }
}

/// Extending a digit string on the right never lowers its value.
pub proof fn lemma_num_val_take_le(s: Seq<char>, i: int)
    requires
        0 <= i <= s.len(),
        all_digits(s),
    ensures
        num_val(s.take(i)) <= num_val(s),
    decreases s.len() - i,
{
    if i < s.len() {
        lemma_num_val_take_le(s, i + 1);
        assert(s.take(i + 1).drop_last() =~= s.take(i));
        assert(num_val(s.take(i + 1)) == num_val(s.take(i)) * 10 + digit_val(s[i]));
        assert(num_val(s.take(i)) <= num_val(s.take(i)) * 10) by (nonlinear_arith);
    } else {
        assert(s.take(i) =~= s);
    }
}

impl RubyVersion {
    pub fn new(major: u64, minor: u64, patch: u64) -> (v: RubyVersion)
        ensures
            v == (RubyVersion { major, minor, patch }),
    {
        RubyVersion { major, minor, patch }
    }

    /// `true` iff `self` is strictly newer than `other`.
    pub fn is_newer_than(&self, other: &RubyVersion) -> (r: bool)
        ensures
            r == version_lt(*other, *self),
    {
        if self.major != other.major {
            self.major > other.major
        } else if self.minor != other.minor {
            self.minor > other.minor
        } else {
            self.patch > other.patch
        }
    }
}

/// The character for a value below sixteen, as a one-character string.
pub fn digit_str(n: u8) -> (r: &'static str)
    requires
        n < 16,
    ensures
        r@ == seq![digit_char(n)],
{
    let r: &'static str = match n {
        0 => "0",
        1 => "1",
        2 => "2",
        3 => "3",
        4 => "4",
        5 => "5",
        6 => "6",
        7 => "7",
        8 => "8",
        9 => "9",
        10 => "a",
        11 => "b",
        12 => "c",
        13 => "d",
        14 => "e",
        _ => "f",
    };
    proof {
        reveal_strlit("0");
        reveal_strlit("1");
        reveal_strlit("2");
        reveal_strlit("3");
        reveal_strlit("4");
        reveal_strlit("5");
        reveal_strlit("6");
        reveal_strlit("7");
        reveal_strlit("8");
        reveal_strlit("9");
        reveal_strlit("a");
        reveal_strlit("b");
        reveal_strlit("c");
        reveal_strlit("d");
        reveal_strlit("e");
        reveal_strlit("f");
        assert(r@ =~= seq![digit_char(n)]);
    }
    r
}

/// The canonical decimal rendering of a number.
pub fn u64_to_string(n: u64) -> (s: String)
    ensures
        s@ == dec_of(n as nat),
    decreases n,
{
    if n < 10 {
        let d = digit_str(n as u8);
        d.to_owned()
    } else {
        proof {
            assert(n / 10 < n) by (nonlinear_arith)
                requires
                    n >= 10,
            ;
        }
        let mut s = u64_to_string(n / 10);
        s.append(digit_str((n % 10) as u8));
        proof {
            assert(s@ =~= dec_of((n / 10) as nat) + seq![digit_char((n % 10) as u8)]);
        }
        s
    }
}

/// Parses `s[lo..hi]` as a canonical decimal number: nonempty, digits
/// only, no leading zero, and within `u64` range.
pub fn parse_num(s: &str, lo: usize, hi: usize) -> (r: Option<u64>)
    requires
        lo <= hi <= s@.len(),
    ensures
        match r {
            Some(v) => wf_num(s@.subrange(lo as int, hi as int)) && v as nat == num_val(
                s@.subrange(lo as int, hi as int),
            ),
            None => !wf_num(s@.subrange(lo as int, hi as int)),
        },
{
    let ghost sub = s@.subrange(lo as int, hi as int);
    if lo == hi {
        return None;
    }
    let c0 = s.get_char(lo);
    if c0 == '0' && hi - lo > 1 {
        proof {
            assert(sub[0] == '0');
        }
        return None;
    }
    let mut acc: u64 = 0;
    let mut i: usize = lo;
    while i < hi
        invariant
            lo <= i <= hi <= s@.len(),
            sub == s@.subrange(lo as int, hi as int),
            all_digits(sub.take(i - lo)),
            acc as nat == num_val(sub.take(i - lo)),
        decreases hi - i,
    {
        let c = s.get_char(i);
        if !('0' <= c && c <= '9') {
            proof {
                assert(!is_digit(sub[i - lo]));
            }
            return None;
        }
        let d: u64 = (c as u32 as u64) - 48;
        proof {
            assert(d == digit_val(c));
        }
        if acc > (u64::MAX - d) / 10 {
            proof {
                let k = i - lo;
                assert(acc * 10 + d > u64::MAX) by (nonlinear_arith)
                    requires
                        acc > (u64::MAX - d) / 10,
                        d <= 9,
                ;
                assert(sub.take(k + 1).drop_last() =~= sub.take(k as int));
                assert(sub.take(k + 1).last() == c);
                assert(num_val(sub.take(k + 1)) == acc * 10 + d);
                if all_digits(sub) {
                    lemma_num_val_take_le(sub, k + 1);
                    assert(num_val(sub) > u64::MAX);
                }
            }
            return None;
        }
        proof {
            let k = i - lo;
            assert(sub.take(k + 1).drop_last() =~= sub.take(k as int));
            assert(sub.take(k + 1).last() == c);
            assert(forall|j: int| 0 <= j < k ==> sub.take(k + 1)[j] == sub.take(k as int)[j]);
            assert(acc * 10 + d <= u64::MAX) by (nonlinear_arith)
                requires
                    acc <= (u64::MAX - d) / 10,
                    d <= 9,
            ;
        }
        acc = acc * 10 + d;
        i += 1;
    }
    proof {
        assert(sub.take(hi - lo) =~= sub);
        assert(sub[0] == c0);
    }
    Some(acc)
}

/// Character-for-character string equality.
pub fn str_eq(a: &str, b: &str) -> (r: bool)
    ensures
        r == (a@ == b@),
{
    let n = a.unicode_len();
    if n != b.unicode_len() {
        return false;
    }
    let mut i: usize = 0;
    while i < n
        invariant
            0 <= i <= n,
            n == a@.len() == b@.len(),
            forall|j: int| 0 <= j < i ==> a@[j] == b@[j],
        decreases n - i,
    {
        if a.get_char(i) != b.get_char(i) {
            return false;
        }
        i += 1;
    }
    proof {
        assert(a@ =~= b@);
    }
    true
}

/// `true` iff the string reads `latest`.
pub fn is_latest_str(s: &str) -> (r: bool)
    ensures
        r == (s@ == "latest"@),
{
    proof {
        reveal_strlit("latest");
    }
    let n = s.unicode_len();
    if n != 6 {
        return false;
    }
    let r = s.get_char(0) == 'l' && s.get_char(1) == 'a' && s.get_char(2) == 't' && s.get_char(3)
        == 'e' && s.get_char(4) == 's' && s.get_char(5) == 't';
    proof {
        if r {
            assert(s@ =~= "latest"@);
        }
    }
    r
}

/// Parses a version request: `latest`, or one to three dot-separated
/// canonical decimal components. Returns `Some` exactly on the canonical
/// text of some request, and then on the request it renders.
#[verifier::rlimit(80)]
pub fn parse_request(s: &str) -> (r: Option<RubyRequest>)
    ensures
        match r {
            Some(req) => s@ == request_str(req),
            None => forall|req: RubyRequest| s@ != request_str(req),
        },
{
    if is_latest_str(s) {
        return Some(RubyRequest::Latest);
    }
    let n = s.unicode_len();
    let mut dots: Vec<usize> = Vec::new();
    let mut i: usize = 0;
    while i < n
        invariant
            0 <= i <= n == s@.len(),
            forall|k: int|
                0 <= k < i ==> ((s@[k] == '.') <==> (exists|m: int|
                    0 <= m < dots@.len() && #[trigger] dots@[m] == k)),
            forall|m: int| 0 <= m < dots@.len() ==> #[trigger] dots@[m] < i,
            forall|m1: int, m2: int|
                0 <= m1 < m2 < dots@.len() ==> #[trigger] dots@[m1] < #[trigger] dots@[m2],
        decreases n - i,
    {
        let c = s.get_char(i);
        let ghost prev = dots@;
        if c == '.' {
            dots.push(i);
            proof {
                assert(dots@ == prev.push(i));
                assert forall|k: int|
                    0 <= k < i + 1 implies ((s@[k] == '.') <==> (exists|m: int|
                    0 <= m < dots@.len() && #[trigger] dots@[m] == k)) by {
                    if k < i {
                        if s@[k] == '.' {
                            let m = choose|m: int| 0 <= m < prev.len() && #[trigger] prev[m] == k;
                            assert(dots@[m] == k);
                        } else {
                            assert forall|m: int|
                                0 <= m < dots@.len() implies #[trigger] dots@[m] != k by {
                                if m < dots@.len() - 1 {
                                    assert(dots@[m] == prev[m]);
                                } else {
                                    assert(dots@[m] == i);
                                }
                            }
                        }
                    } else {
                        assert(dots@[dots@.len() - 1] == i);
                    }
                }
            }
        } else {
            proof {
                assert forall|k: int|
                    0 <= k < i + 1 implies ((s@[k] == '.') <==> (exists|m: int|
                    0 <= m < dots@.len() && #[trigger] dots@[m] == k)) by {
                    if k == i {
                        assert(s@[i as int] != '.');
                        assert(forall|m: int| 0 <= m < dots@.len() ==> #[trigger] dots@[m] < i);
                    }
                }
            }
        }
        i += 1;
    }
    proof {
        lemma_request_shapes(s@, dots@);
    }
    if dots.len() == 0 {
        match parse_num(s, 0, n) {
            Some(a) => {
                proof {
                    let sub = s@.subrange(0, n as int);
                    assert(sub =~= s@);
                    lemma_num_val_canonical(sub);
                }
                Some(RubyRequest::Major(a))
            },
            None => {
                proof {
                    assert(s@.subrange(0, n as int) =~= s@);
                    assert forall|req: RubyRequest| s@ != request_str(req) by {
                        if s@ == request_str(req) {
                            match req {
                                RubyRequest::Latest => {},
                                RubyRequest::Major(x) => {
                                    lemma_dec_of_digits(x as nat);
                                    assert(wf_num(s@));
                                },
                                RubyRequest::MajorMinor(x, y) => {
                                    assert(s@ == mm_str(x, y));
                                },
                                RubyRequest::Exact(v) => {},
                            }
                        }
                    }
                }
                None
            },
        }
    } else if dots.len() == 1 {
        let d0 = dots[0];
        let a = parse_num(s, 0, d0);
        let b = parse_num(s, d0 + 1, n);
        if a.is_some() && b.is_some() {
            let av = a.unwrap();
            let bv = b.unwrap();
            proof {
                let s1 = s@.subrange(0, d0 as int);
                let s2 = s@.subrange(d0 + 1, n as int);
                lemma_num_val_canonical(s1);
                lemma_num_val_canonical(s2);
                assert(s@ =~= s1 + seq!['.'] + s2);
            }
            Some(RubyRequest::MajorMinor(av, bv))
        } else {
            proof {
                assert forall|req: RubyRequest| s@ != request_str(req) by {
                    if s@ == request_str(req) {
                        match req {
                            RubyRequest::Latest => {},
                            RubyRequest::Major(x) => {
                                lemma_dec_of_digits(x as nat);
                            },
                            RubyRequest::MajorMinor(x, y) => {
                                assert(s@ == mm_str(x, y));
                                lemma_dec_of_digits(x as nat);
                                lemma_dec_of_digits(y as nat);
                                let lx = dec_of(x as nat).len() as int;
                                assert(s@.subrange(0, d0 as int) =~= dec_of(x as nat));
                                assert(s@.subrange(d0 + 1, n as int) =~= dec_of(y as nat));
                                assert(wf_num(s@.subrange(0, d0 as int)));
                                assert(wf_num(s@.subrange(d0 + 1, n as int)));
                            },
                            RubyRequest::Exact(v) => {},
                        }
                    }
                }
            }
            None
        }
    } else if dots.len() == 2 {
        let d0 = dots[0];
        let d1 = dots[1];
        let a = parse_num(s, 0, d0);
        let b = parse_num(s, d0 + 1, d1);
        let c = parse_num(s, d1 + 1, n);
        if a.is_some() && b.is_some() && c.is_some() {
            let av = a.unwrap();
            let bv = b.unwrap();
            let cv = c.unwrap();
            proof {
                let s1 = s@.subrange(0, d0 as int);
                let s2 = s@.subrange(d0 + 1, d1 as int);
                let s3 = s@.subrange(d1 + 1, n as int);
                lemma_num_val_canonical(s1);
                lemma_num_val_canonical(s2);
                lemma_num_val_canonical(s3);
                assert(s@ =~= s1 + seq!['.'] + s2 + seq!['.'] + s3);
            }
            Some(RubyRequest::Exact(RubyVersion { major: av, minor: bv, patch: cv }))
        } else {
            proof {
                assert forall|req: RubyRequest| s@ != request_str(req) by {
                    if s@ == request_str(req) {
                        match req {
                            RubyRequest::Latest => {},
                            RubyRequest::Major(x) => {
                                lemma_dec_of_digits(x as nat);
                            },
                            RubyRequest::MajorMinor(x, y) => {
                                assert(s@ == mm_str(x, y));
                            },
                            RubyRequest::Exact(v) => {
                                lemma_dec_of_digits(v.major as nat);
                                lemma_dec_of_digits(v.minor as nat);
                                lemma_dec_of_digits(v.patch as nat);
                                let lx = dec_of(v.major as nat).len() as int;
                                let ly = dec_of(v.minor as nat).len() as int;
                                assert(s@.subrange(0, d0 as int) =~= dec_of(v.major as nat));
                                assert(s@.subrange(d0 + 1, d1 as int) =~= dec_of(v.minor as nat));
                                assert(s@.subrange(d1 + 1, n as int) =~= dec_of(v.patch as nat));
                                assert(wf_num(s@.subrange(0, d0 as int)));
                                assert(wf_num(s@.subrange(d0 + 1, d1 as int)));
                                assert(wf_num(s@.subrange(d1 + 1, n as int)));
                            },
                        }
                    }
                }
            }
            None
        }
    } else {
        proof {
            assert forall|req: RubyRequest| s@ != request_str(req) by {
                if s@ == request_str(req) {
                    match req {
                        RubyRequest::Latest => {},
                        RubyRequest::Major(x) => {
                            lemma_dec_of_digits(x as nat);
                        },
                        RubyRequest::MajorMinor(x, y) => {
                            assert(s@ == mm_str(x, y));
                        },
                        RubyRequest::Exact(v) => {},
                    }
                }
            }
        }
        None
    }
}

/// How the dot positions of a string constrain which requests it can
/// render: each canonical request text has a fixed dot layout, so a
/// recorded list of all dot positions decides the split.
proof fn lemma_request_shapes(s: Seq<char>, dots: Seq<usize>)
    requires
        forall|k: int|
            0 <= k < s.len() ==> ((s[k] == '.') <==> (exists|m: int|
                0 <= m < dots.len() && #[trigger] dots[m] == k)),
        forall|m: int| 0 <= m < dots.len() ==> #[trigger] dots[m] < s.len(),
        forall|m1: int, m2: int|
            0 <= m1 < m2 < dots.len() ==> #[trigger] dots[m1] < #[trigger] dots[m2],
    ensures
        forall|a: u64| s == dec_of(a as nat) ==> dots.len() == 0,
        forall|a: u64, b: u64|
            s == #[trigger] mm_str(a, b) ==> dots.len() == 1 && dots[0] == dec_of(a as nat).len(),
        forall|v: RubyVersion|
            s == version_str(v) ==> dots.len() == 2 && dots[0] == dec_of(v.major as nat).len()
                && dots[1] == dec_of(v.major as nat).len() + 1 + dec_of(v.minor as nat).len(),
{
    assert(!is_digit('.'));
    assert forall|a: u64| s == dec_of(a as nat) implies dots.len() == 0 by {
        lemma_dec_of_digits(a as nat);
        if dots.len() > 0 {
            assert(s[dots[0] as int] == '.');
            assert(is_digit(s[dots[0] as int]));
        }
    }
    assert forall|a: u64, b: u64| s == mm_str(a, b) implies dots.len() == 1 && dots[0] == dec_of(
        a as nat,
    ).len() by {
        lemma_dec_of_digits(a as nat);
        lemma_dec_of_digits(b as nat);
        let la = dec_of(a as nat).len() as int;
        assert(s[la] == '.');
        assert forall|k: int| 0 <= k < s.len() && k != la implies s[k] != '.' by {
            if k < la {
                assert(s[k] == dec_of(a as nat)[k]);
                assert(is_digit(s[k]));
            } else if k > la {
                assert(s[k] == dec_of(b as nat)[k - la - 1]);
                assert(is_digit(s[k]));
            }
        }
        assert(exists|m: int| 0 <= m < dots.len() && #[trigger] dots[m] == la);
        if dots.len() >= 2 {
            let p0 = dots[0] as int;
            let p1 = dots[1] as int;
            assert(dots[0] == p0 && dots[1] == p1);
            assert(s[p0] == '.');
            assert(s[p1] == '.');
            assert(p0 == la && p1 == la);
            assert(false);
        }
    }
    assert forall|v: RubyVersion| s == version_str(v) implies dots.len() == 2 && dots[0] == dec_of(
        v.major as nat,
    ).len() && dots[1] == dec_of(v.major as nat).len() + 1 + dec_of(v.minor as nat).len() by {
        lemma_dec_of_digits(v.major as nat);
        lemma_dec_of_digits(v.minor as nat);
        lemma_dec_of_digits(v.patch as nat);
        let la = dec_of(v.major as nat).len() as int;
        let lb = dec_of(v.minor as nat).len() as int;
        assert(s[la] == '.');
        assert(s[la + 1 + lb] == '.');
        assert forall|k: int| 0 <= k < s.len() && k != la && k != la + 1 + lb implies s[k]
            != '.' by {
            if k < la {
                assert(s[k] == dec_of(v.major as nat)[k]);
                assert(is_digit(s[k]));
            } else if la < k < la + 1 + lb {
                assert(s[k] == dec_of(v.minor as nat)[k - la - 1]);
                assert(is_digit(s[k]));
            } else if k > la + 1 + lb {
                assert(s[k] == dec_of(v.patch as nat)[k - la - 1 - lb - 1]);
                assert(is_digit(s[k]));
            }
        }
        assert(exists|m: int| 0 <= m < dots.len() && #[trigger] dots[m] == la);
        assert(exists|m: int| 0 <= m < dots.len() && #[trigger] dots[m] == la + 1 + lb);
        let ma = choose|m: int| 0 <= m < dots.len() && #[trigger] dots[m] == la;
        let mb = choose|m: int| 0 <= m < dots.len() && #[trigger] dots[m] == la + 1 + lb;
        assert(ma != mb);
        assert(dots.len() >= 2);
        if dots.len() >= 3 {
            let p0 = dots[0] as int;
            let p1 = dots[1] as int;
            let p2 = dots[2] as int;
            assert(dots[0] == p0 && dots[1] == p1 && dots[2] == p2);
            assert(s[p0] == '.' && s[p1] == '.' && s[p2] == '.');
            assert(p0 < p1 < p2);
            assert(false);
        }
        assert(dots.len() == 2);
        assert(ma == 0 || ma == 1);
        assert(mb == 0 || mb == 1);
        assert(la < la + 1 + lb);
        if ma == 1 && mb == 0 {
            assert(dots[0] < dots[1]);
            assert(false);
        }
        assert(dots[0] == la && dots[1] == la + 1 + lb);
    }
}

/// The canonical text of a two-component request.
pub open spec fn mm_str(a: u64, b: u64) -> Seq<char> {
    dec_of(a as nat) + seq!['.'] + dec_of(b as nat)
}

impl RubyRequest {
    /// `true` iff the concrete version satisfies this request.
    pub fn matches_version(&self, v: &RubyVersion) -> (r: bool)
        ensures
            r == request_matches(*self, *v),
    {
        match self {
            RubyRequest::Latest => true,
            RubyRequest::Major(a) => v.major == *a,
            RubyRequest::MajorMinor(a, b) => v.major == *a && v.minor == *b,
            RubyRequest::Exact(w) => v.major == w.major && v.minor == w.minor && v.patch
                == w.patch,
        }
    }

    /// The canonical text of this request.
    pub fn render(&self) -> (s: String)
        ensures
            s@ == request_str(*self),
    {
        match self {
            RubyRequest::Latest => {
                proof {
                    reveal_strlit("latest");
                }
                String::from_str("latest")
            },
            RubyRequest::Major(a) => u64_to_string(*a),
            RubyRequest::MajorMinor(a, b) => {
                let mut s = u64_to_string(*a);
                s.append(".");
                s.append(u64_to_string(*b).as_str());
                proof {
                    reveal_strlit(".");
                    assert(s@ =~= mm_str(*a, *b));
                }
                s
            },
            RubyRequest::Exact(v) => v.render(),
        }
    }
}

impl RubyVersion {
    /// The canonical text of this version, `major.minor.patch`.
    pub fn render(&self) -> (s: String)
        ensures
            s@ == version_str(*self),
    {
        let mut s = u64_to_string(self.major);
        s.append(".");
        s.append(u64_to_string(self.minor).as_str());
        s.append(".");
        s.append(u64_to_string(self.patch).as_str());
        proof {
            reveal_strlit(".");
            assert(s@ =~= version_str(*self));
        }
        s
    }
}

} // verus!
