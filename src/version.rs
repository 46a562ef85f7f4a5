//! Version strings of the package feed: a dotted numeric core of one to four
//! parts and an optional prerelease tag after the first `-`.

use core::cmp::Ordering;
use vstd::prelude::*;
use crate::text::{chars_of, opt_view, parse_u64, parse_u64_spec, split_on, split_ranges, views};

verus! {

/// What a version string says, as far as ordering is concerned, with the string itself.
pub struct VersionSpec {
    pub major: u64,
    pub minor: u64,
    pub patch: u64,
    pub revision: u64,
    pub prerelease: Option<Seq<char>>,
    pub raw: Seq<char>,
}

/// `i` is the first position of `c` in `s`.
pub open spec fn is_first(s: Seq<char>, c: char, i: int) -> bool {
    0 <= i < s.len() && s[i] == c && forall|j: int| 0 <= j < i ==> s[j] != c
}

pub open spec fn has_char(s: Seq<char>, c: char) -> bool {
    exists|i: int| is_first(s, c, i)
}

pub open spec fn first_index(s: Seq<char>, c: char) -> int {
    choose|i: int| is_first(s, c, i)
}

/// The numeric core: everything before the first `-`.
pub open spec fn core_of(s: Seq<char>) -> Seq<char> {
    if has_char(s, '-') {
        s.take(first_index(s, '-'))
    } else {
        s
    }
}

/// The prerelease tag: everything after the first `-`, if there is one.
pub open spec fn prerelease_of(s: Seq<char>) -> Option<Seq<char>> {
    if has_char(s, '-') {
        Some(s.skip(first_index(s, '-') + 1))
    } else {
        None
    }
}

/// The `k`-th numeric part, zero where the core has fewer parts.
pub open spec fn part_value(parts: Seq<Seq<char>>, k: int) -> u64 {
    if k < parts.len() {
        parse_u64_spec(parts[k])->0
    } else {
        0
    }
}

pub open spec fn parts_valid(parts: Seq<Seq<char>>) -> bool {
    parts.len() <= 4 && forall|k: int| 0 <= k < parts.len() ==> (#[trigger] parse_u64_spec(parts[k])) is Some
}

/// The version that `s` spells, if it spells one.
pub open spec fn parse_spec(s: Seq<char>) -> Option<VersionSpec> {
    let parts = split_on(core_of(s), '.');
    if parts_valid(parts) {
        Some(
            VersionSpec {
                major: part_value(parts, 0),
                minor: part_value(parts, 1),
                patch: part_value(parts, 2),
                revision: part_value(parts, 3),
                prerelease: prerelease_of(s),
                raw: s,
            },
        )
    } else {
        None
    }
}

pub open spec fn cmp_int(a: int, b: int) -> Ordering {
    if a < b {
        Ordering::Less
    } else if a > b {
        Ordering::Greater
    } else {
        Ordering::Equal
    }
}

pub open spec fn reverse(o: Ordering) -> Ordering {
    match o {
        Ordering::Less => Ordering::Greater,
        Ordering::Greater => Ordering::Less,
        Ordering::Equal => Ordering::Equal,
    }
}

/// The code of `c` once ASCII capitals are made small.
pub open spec fn folded(c: char) -> int {
    if 'A' <= c && c <= 'Z' {
        c as int + 32
    } else {
        c as int
    }
}

/// Case-insensitive (ASCII) lexicographic order by code point.
pub open spec fn cmp_folded(a: Seq<char>, b: Seq<char>) -> Ordering
    decreases a.len(),
{
    if a.len() == 0 && b.len() == 0 {
        Ordering::Equal
    } else if a.len() == 0 {
        Ordering::Less
    } else if b.len() == 0 {
        Ordering::Greater
    } else if folded(a[0]) != folded(b[0]) {
        cmp_int(folded(a[0]), folded(b[0]))
    } else {
        cmp_folded(a.drop_first(), b.drop_first())
    }
}

/// Order of two prerelease tokens: numbers by value, below any other token;
/// other tokens case-insensitively.
pub open spec fn cmp_token(a: Seq<char>, b: Seq<char>) -> Ordering {
    match (parse_u64_spec(a), parse_u64_spec(b)) {
        (Some(x), Some(y)) => cmp_int(x as int, y as int),
        (Some(_), None) => Ordering::Less,
        (None, Some(_)) => Ordering::Greater,
        (None, None) => cmp_folded(a, b),
    }
}

/// Token-wise order of two token sequences; a strict prefix is smaller.
pub open spec fn cmp_tokens(a: Seq<Seq<char>>, b: Seq<Seq<char>>) -> Ordering
    decreases a.len(),
{
    if a.len() == 0 && b.len() == 0 {
        Ordering::Equal
    } else if a.len() == 0 {
        Ordering::Less
    } else if b.len() == 0 {
        Ordering::Greater
    } else if cmp_token(a[0], b[0]) != Ordering::Equal {
        cmp_token(a[0], b[0])
    } else {
        cmp_tokens(a.drop_first(), b.drop_first())
    }
}

/// A release is above every prerelease of the same numbers.
pub open spec fn cmp_prerelease(a: Option<Seq<char>>, b: Option<Seq<char>>) -> Ordering {
    match (a, b) {
        (None, None) => Ordering::Equal,
        (None, Some(_)) => Ordering::Greater,
        (Some(_), None) => Ordering::Less,
        (Some(x), Some(y)) => cmp_tokens(split_on(x, '.'), split_on(y, '.')),
    }
}

/// The order of versions: the four numbers in turn, then the prerelease tags.
#[verifier::opaque]
pub open spec fn compare_spec(a: VersionSpec, b: VersionSpec) -> Ordering {
    if a.major != b.major {
        cmp_int(a.major as int, b.major as int)
    } else if a.minor != b.minor {
        cmp_int(a.minor as int, b.minor as int)
    } else if a.patch != b.patch {
        cmp_int(a.patch as int, b.patch as int)
    } else if a.revision != b.revision {
        cmp_int(a.revision as int, b.revision as int)
    } else {
        cmp_prerelease(a.prerelease, b.prerelease)
    }
}

/// `o` is `Less` or `Equal`.
pub open spec fn not_greater(o: Ordering) -> bool {
    o != Ordering::Greater
}

/// The three facts that make `cmp` transitive on `a`, `b`, `c`.
pub open spec fn transitive_at(ab: Ordering, bc: Ordering, ac: Ordering) -> bool {
    &&& (not_greater(ab) && not_greater(bc) ==> not_greater(ac))
    &&& (ab == Ordering::Less && not_greater(bc) ==> ac == Ordering::Less)
    &&& (not_greater(ab) && bc == Ordering::Less ==> ac == Ordering::Less)
}

proof fn lemma_cmp_folded_laws(a: Seq<char>, b: Seq<char>, c: Seq<char>)
    ensures
        cmp_folded(a, a) == Ordering::Equal,
        cmp_folded(b, a) == reverse(cmp_folded(a, b)),
        transitive_at(cmp_folded(a, b), cmp_folded(b, c), cmp_folded(a, c)),
    decreases a.len(),
{
    if a.len() > 0 && b.len() > 0 && c.len() > 0 {
        lemma_cmp_folded_laws(a.drop_first(), b.drop_first(), c.drop_first());
    } else if a.len() > 0 {
        lemma_cmp_folded_laws(a.drop_first(), a.drop_first(), a.drop_first());
        if b.len() > 0 {
            lemma_cmp_folded_laws(a.drop_first(), b.drop_first(), b.drop_first());
        }
    }
}

proof fn lemma_cmp_token_laws(a: Seq<char>, b: Seq<char>, c: Seq<char>)
    ensures
        cmp_token(a, a) == Ordering::Equal,
        cmp_token(b, a) == reverse(cmp_token(a, b)),
        transitive_at(cmp_token(a, b), cmp_token(b, c), cmp_token(a, c)),
{
    lemma_cmp_folded_laws(a, b, c);
}

proof fn lemma_cmp_tokens_laws(a: Seq<Seq<char>>, b: Seq<Seq<char>>, c: Seq<Seq<char>>)
    ensures
        cmp_tokens(a, a) == Ordering::Equal,
        cmp_tokens(b, a) == reverse(cmp_tokens(a, b)),
        transitive_at(cmp_tokens(a, b), cmp_tokens(b, c), cmp_tokens(a, c)),
    decreases a.len(),
{
    if a.len() > 0 {
        lemma_cmp_token_laws(a[0], a[0], a[0]);
        lemma_cmp_tokens_laws(a.drop_first(), a.drop_first(), a.drop_first());
        if b.len() > 0 {
            lemma_cmp_token_laws(a[0], b[0], b[0]);
            lemma_cmp_tokens_laws(a.drop_first(), b.drop_first(), b.drop_first());
            if c.len() > 0 {
                lemma_cmp_token_laws(a[0], b[0], c[0]);
                lemma_cmp_token_laws(c[0], b[0], a[0]);
                lemma_cmp_token_laws(b[0], c[0], a[0]);
                lemma_cmp_tokens_laws(a.drop_first(), b.drop_first(), c.drop_first());
            }
        }
    }
}

/// The order of versions is a total preorder: every version equals itself,
/// swapping the arguments reverses the result, and `<=` and `<` chain.
pub proof fn lemma_compare_total_order(a: VersionSpec, b: VersionSpec, c: VersionSpec)
    ensures
        compare_spec(a, a) == Ordering::Equal,
        compare_spec(b, a) == reverse(compare_spec(a, b)),
        transitive_at(compare_spec(a, b), compare_spec(b, c), compare_spec(a, c)),
        compare_spec(a, b) == Ordering::Equal && compare_spec(b, c) == Ordering::Equal
            ==> compare_spec(a, c) == Ordering::Equal,
{
    reveal(compare_spec);
    match (a.prerelease, b.prerelease, c.prerelease) {
        (Some(x), Some(y), Some(z)) => {
            lemma_cmp_tokens_laws(split_on(x, '.'), split_on(y, '.'), split_on(z, '.'));
            lemma_cmp_tokens_laws(split_on(z, '.'), split_on(y, '.'), split_on(x, '.'));
        },
        (Some(x), Some(y), None) => {
            lemma_cmp_tokens_laws(split_on(x, '.'), split_on(y, '.'), split_on(y, '.'));
        },
        (Some(x), None, Some(z)) => {
            lemma_cmp_tokens_laws(split_on(x, '.'), split_on(z, '.'), split_on(z, '.'));
        },
        (None, Some(y), Some(z)) => {
            lemma_cmp_tokens_laws(split_on(y, '.'), split_on(z, '.'), split_on(z, '.'));
        },
        (Some(x), None, None) => {
            lemma_cmp_tokens_laws(split_on(x, '.'), split_on(x, '.'), split_on(x, '.'));
        },
        (None, Some(y), None) => {
            lemma_cmp_tokens_laws(split_on(y, '.'), split_on(y, '.'), split_on(y, '.'));
        },
        (None, None, Some(z)) => {
            lemma_cmp_tokens_laws(split_on(z, '.'), split_on(z, '.'), split_on(z, '.'));
        },
        (None, None, None) => {},
    }
    lemma_compare_total_order_equal(a, b, c);
}

proof fn lemma_compare_total_order_equal(a: VersionSpec, b: VersionSpec, c: VersionSpec)
    ensures
        compare_spec(a, b) == Ordering::Equal && compare_spec(b, c) == Ordering::Equal
            ==> compare_spec(a, c) == Ordering::Equal,
{
    reveal(compare_spec);
    if let (Some(x), Some(y), Some(z)) = (a.prerelease, b.prerelease, c.prerelease) {
        lemma_cmp_tokens_laws(split_on(x, '.'), split_on(y, '.'), split_on(z, '.'));
        lemma_cmp_tokens_laws(split_on(z, '.'), split_on(y, '.'), split_on(x, '.'));
        lemma_cmp_tokens_laws(split_on(x, '.'), split_on(z, '.'), split_on(y, '.'));
    }
}

/// A parsed version string of the package feed.
#[derive(Debug, Clone)]
pub struct NuGetVersion {
    pub major: u64,
    pub minor: u64,
    pub patch: u64,
    pub revision: u64,
    pub prerelease: Option<String>,
    pub raw: String,
}

impl View for NuGetVersion {
    type V = VersionSpec;

    open spec fn view(&self) -> VersionSpec {
        VersionSpec {
            major: self.major,
            minor: self.minor,
            patch: self.patch,
            revision: self.revision,
            prerelease: opt_view(self.prerelease),
            raw: self.raw@,
        }
    }
}

/// The first position of `c` in `cs`, or `cs.len()` where there is none.
fn find_char(cs: &Vec<char>, c: char) -> (r: usize)
    ensures
        r <= cs@.len(),
        r < cs@.len() ==> is_first(cs@, c, r as int),
        r == cs@.len() ==> !has_char(cs@, c),
        has_char(cs@, c) ==> r == first_index(cs@, c),
{
    let mut i: usize = 0;
    while i < cs.len()
        invariant
            i <= cs@.len(),
            forall|j: int| 0 <= j < i ==> cs@[j] != c,
        decreases cs@.len() - i,
    {
        if cs[i] == c {
            proof {
                assert(is_first(cs@, c, i as int));
                let k = first_index(cs@, c);
                assert(is_first(cs@, c, k));
                if k < i {
                    assert(cs@[k] != c);
                } else if k > i {
                    assert(cs@[i as int] != c);
                }
            }
            return i;
        }
        i = i + 1;
    }
    proof {
        if has_char(cs@, c) {
            let k = choose|k: int| is_first(cs@, c, k);
            assert(cs@[k] != c);
        }
    }
    i
}

impl NuGetVersion {
    /// Reads a version string; `None` where it spells no version.
    pub fn parse(input: &str) -> (r: Option<NuGetVersion>)
        ensures
            r is Some <==> parse_spec(input@) is Some,
            r is Some ==> r->0@ == parse_spec(input@)->0,
    {
        let cs = chars_of(input);
        let n = cs.len();
        let dash = find_char(&cs, '-');
        let ghost s = input@;
        assert(core_of(s) =~= cs@.subrange(0, dash as int));
        let ranges = split_ranges(&cs, 0, dash, '.');
        let ghost parts = split_on(core_of(s), '.');
        proof {
            crate::text::lemma_split_on_nonempty(core_of(s), '.');
        }
        if ranges.len() > 4 {
            assert(!parts_valid(parts));
            return None;
        }
        let mut vals: Vec<u64> = Vec::new();
        let mut k: usize = 0;
        while k < ranges.len()
            invariant
                k <= ranges@.len() <= 4,
                ranges@.len() == parts.len(),
                dash <= cs@.len(),
                parts == split_on(core_of(s), '.'),
                s == input@,
                forall|m: int|
                    0 <= m < ranges@.len() ==> 0 <= (#[trigger] ranges@[m]).0 <= ranges@[m].1
                        <= dash && cs@.subrange(ranges@[m].0 as int, ranges@[m].1 as int)
                        == parts[m],
                vals@.len() == k,
                forall|m: int|
                    0 <= m < k ==> parse_u64_spec(parts[m]) == Some(#[trigger] vals@[m]),
            decreases ranges@.len() - k,
        {
            let (lo, hi) = ranges[k];
            match parse_u64(&cs, lo, hi) {
                Some(v) => {
                    vals.push(v);
                },
                None => {
                    assert(parse_u64_spec(parts[k as int]) is None);
                    assert(!parts_valid(parts));
                    return None;
                },
            }
            k = k + 1;
        }
        assert forall|m: int| 0 <= m < parts.len() implies (#[trigger] parse_u64_spec(
            parts[m],
        )) is Some by {
            assert(parse_u64_spec(parts[m]) == Some(vals@[m]));
        }
        assert(parts_valid(parts));
        let prerelease = if dash < n {
            let tail = input.substring_char(dash + 1, n);
            assert(tail@ =~= s.skip(dash + 1));
            Some(String::from_str(tail))
        } else {
            None
        };
        let major = vals[0];
        let minor = if vals.len() > 1 {
            vals[1]
        } else {
            0
        };
        let patch = if vals.len() > 2 {
            vals[2]
        } else {
            0
        };
        let revision = if vals.len() > 3 {
            vals[3]
        } else {
            0
        };
        Some(
            NuGetVersion {
                major,
                minor,
                patch,
                revision,
                prerelease,
                raw: String::from_str(input),
            },
        )
    }

    /// The order of versions: numbers first, then a release above its prereleases,
    /// then the prerelease tags token by token.
    pub fn cmp(&self, other: &NuGetVersion) -> (r: Ordering)
        ensures
            r == compare_spec(self@, other@),
    {
        proof {
            reveal(compare_spec);
        }
        if self.major != other.major {
            return cmp_u64(self.major, other.major);
        }
        if self.minor != other.minor {
            return cmp_u64(self.minor, other.minor);
        }
        if self.patch != other.patch {
            return cmp_u64(self.patch, other.patch);
        }
        if self.revision != other.revision {
            return cmp_u64(self.revision, other.revision);
        }
        match (&self.prerelease, &other.prerelease) {
            (None, None) => Ordering::Equal,
            (None, Some(_)) => Ordering::Greater,
            (Some(_), None) => Ordering::Less,
            (Some(a), Some(b)) => cmp_prerelease_tags(a.as_str(), b.as_str()),
        }
    }
}

/// Versions are equal where they order as equal: `1.2` equals `1.2.0.0`.
impl PartialEq for NuGetVersion {
    fn eq(&self, other: &NuGetVersion) -> bool {
        match self.cmp(other) {
            Ordering::Equal => true,
            _ => false,
        }
    }
}

impl vstd::std_specs::cmp::PartialEqSpecImpl for NuGetVersion {
    open spec fn obeys_eq_spec() -> bool {
        true
    }

    open spec fn eq_spec(&self, other: &NuGetVersion) -> bool {
        compare_spec(self@, other@) == Ordering::Equal
    }
}

impl Eq for NuGetVersion {
}

impl PartialOrd for NuGetVersion {
    fn partial_cmp(&self, other: &NuGetVersion) -> Option<Ordering> {
        Some(self.cmp(other))
    }
}

impl vstd::std_specs::cmp::PartialOrdSpecImpl for NuGetVersion {
    open spec fn obeys_partial_cmp_spec() -> bool {
        true
    }

    open spec fn partial_cmp_spec(&self, other: &NuGetVersion) -> Option<Ordering> {
        Some(compare_spec(self@, other@))
    }
}

fn cmp_u64(a: u64, b: u64) -> (r: Ordering)
    ensures
        r == cmp_int(a as int, b as int),
{
    if a < b {
        Ordering::Less
    } else if a > b {
        Ordering::Greater
    } else {
        Ordering::Equal
    }
}

fn fold_char(c: char) -> (r: u32)
    ensures
        r as int == folded(c),
{
    let v = c as u32;
    if 'A' <= c && c <= 'Z' {
        v + 32
    } else {
        v
    }
}

/// Compares `a[alo..ahi]` and `b[blo..bhi]` case-insensitively.
fn cmp_folded_range(a: &Vec<char>, alo: usize, ahi: usize, b: &Vec<char>, blo: usize, bhi: usize) -> (r: Ordering)
    requires
        alo <= ahi <= a@.len(),
        blo <= bhi <= b@.len(),
    ensures
        r == cmp_folded(a@.subrange(alo as int, ahi as int), b@.subrange(blo as int, bhi as int)),
{
    let mut i: usize = alo;
    let mut j: usize = blo;
    while i < ahi && j < bhi
        invariant
            alo <= i <= ahi <= a@.len(),
            blo <= j <= bhi <= b@.len(),
            i - alo == j - blo,
            cmp_folded(a@.subrange(alo as int, ahi as int), b@.subrange(blo as int, bhi as int))
                == cmp_folded(a@.subrange(i as int, ahi as int), b@.subrange(j as int, bhi as int)),
        decreases ahi - i,
    {
        let x = fold_char(a[i]);
        let y = fold_char(b[j]);
        assert(a@.subrange(i as int, ahi as int).drop_first() =~= a@.subrange(i + 1, ahi as int));
        assert(b@.subrange(j as int, bhi as int).drop_first() =~= b@.subrange(j + 1, bhi as int));
        if x != y {
            return cmp_u64(x as u64, y as u64);
        }
        i = i + 1;
        j = j + 1;
    }
    if i < ahi {
        Ordering::Greater
    } else if j < bhi {
        Ordering::Less
    } else {
        Ordering::Equal
    }
}

/// Compares the prerelease tokens `a[alo..ahi]` and `b[blo..bhi]`.
fn cmp_token_range(a: &Vec<char>, alo: usize, ahi: usize, b: &Vec<char>, blo: usize, bhi: usize) -> (r: Ordering)
    requires
        alo <= ahi <= a@.len(),
        blo <= bhi <= b@.len(),
    ensures
        r == cmp_token(a@.subrange(alo as int, ahi as int), b@.subrange(blo as int, bhi as int)),
{
    match (parse_u64(a, alo, ahi), parse_u64(b, blo, bhi)) {
        (Some(x), Some(y)) => cmp_u64(x, y),
        (Some(_), None) => Ordering::Less,
        (None, Some(_)) => Ordering::Greater,
        (None, None) => cmp_folded_range(a, alo, ahi, b, blo, bhi),
    }
}

/// Order of two prerelease tokens: numbers by value and below any other token,
/// other tokens by their ASCII lower-case forms.
pub fn cmp_prerelease_token(a: &str, b: &str) -> (r: Ordering)
    ensures
        r == cmp_token(a@, b@),
{
    let ac = chars_of(a);
    let bc = chars_of(b);
    assert(ac@.subrange(0, ac@.len() as int) =~= a@);
    assert(bc@.subrange(0, bc@.len() as int) =~= b@);
    cmp_token_range(&ac, 0, ac.len(), &bc, 0, bc.len())
}

/// Compares two prerelease tags as dot-separated token sequences.
fn cmp_prerelease_tags(a: &str, b: &str) -> (r: Ordering)
    ensures
        r == cmp_tokens(split_on(a@, '.'), split_on(b@, '.')),
{
    let ac = chars_of(a);
    let bc = chars_of(b);
    assert(ac@.subrange(0, ac@.len() as int) =~= a@);
    assert(bc@.subrange(0, bc@.len() as int) =~= b@);
    let ra = split_ranges(&ac, 0, ac.len(), '.');
    let rb = split_ranges(&bc, 0, bc.len(), '.');
    let ghost ta = split_on(a@, '.');
    let ghost tb = split_on(b@, '.');
    assert(ta.skip(0) =~= ta);
    assert(tb.skip(0) =~= tb);
    let mut t: usize = 0;
    while t < ra.len() && t < rb.len()
        invariant
            ta == split_on(a@, '.'),
            tb == split_on(b@, '.'),
            t <= ra@.len() == ta.len(),
            t <= rb@.len() == tb.len(),
            forall|k: int|
                0 <= k < ra@.len() ==> (#[trigger] ra@[k]).0 <= ra@[k].1 <= ac@.len()
                    && ac@.subrange(ra@[k].0 as int, ra@[k].1 as int) == ta[k],
            forall|k: int|
                0 <= k < rb@.len() ==> (#[trigger] rb@[k]).0 <= rb@[k].1 <= bc@.len()
                    && bc@.subrange(rb@[k].0 as int, rb@[k].1 as int) == tb[k],
            cmp_tokens(ta, tb) == cmp_tokens(ta.skip(t as int), tb.skip(t as int)),
        decreases ra@.len() - t,
    {
        let (alo, ahi) = ra[t];
        let (blo, bhi) = rb[t];
        let o = cmp_token_range(&ac, alo, ahi, &bc, blo, bhi);
        assert(ac@.subrange(alo as int, ahi as int) == ta[t as int]);
        assert(bc@.subrange(blo as int, bhi as int) == tb[t as int]);
        assert(ta.skip(t as int)[0] == ta[t as int]);
        assert(tb.skip(t as int)[0] == tb[t as int]);
        assert(ta.skip(t as int).drop_first() =~= ta.skip(t + 1));
        assert(tb.skip(t as int).drop_first() =~= tb.skip(t + 1));
        match o {
            Ordering::Equal => {},
            _ => {
                assert(cmp_tokens(ta.skip(t as int), tb.skip(t as int)) == o);
                return o;
            },
        }
        t = t + 1;
    }
    if t < ra.len() {
        Ordering::Greater
    } else if t < rb.len() {
        Ordering::Less
    } else {
        Ordering::Equal
    }
}

/// Among the first `n` strings of `vs`, `vs[b]` parses and is the last of the
/// greatest versions.
pub open spec fn max_upto(vs: Seq<Seq<char>>, n: int, b: int) -> bool {
    &&& 0 <= b < n <= vs.len()
    &&& parse_spec(vs[b]) is Some
    &&& forall|j: int|
        0 <= j < n && (#[trigger] parse_spec(vs[j])) is Some ==> not_greater(
            compare_spec(parse_spec(vs[j])->0, parse_spec(vs[b])->0),
        )
    &&& forall|j: int|
        b < j < n && (#[trigger] parse_spec(vs[j])) is Some ==> compare_spec(
            parse_spec(vs[j])->0,
            parse_spec(vs[b])->0,
        ) == Ordering::Less
}

/// `vs[i]` parses and is the last of the greatest versions in `vs`.
pub open spec fn is_last_max(vs: Seq<Seq<char>>, i: int) -> bool {
    max_upto(vs, vs.len() as int, i)
}

#[verifier::spinoff_prover]
proof fn lemma_max_first(vs: Seq<Seq<char>>, i: int)
    requires
        0 <= i < vs.len(),
        forall|j: int| 0 <= j < i ==> (#[trigger] parse_spec(vs[j])) is None,
        parse_spec(vs[i]) is Some,
    ensures
        max_upto(vs, i + 1, i),
{
    let p = parse_spec(vs[i])->0;
    lemma_compare_total_order(p, p, p);
}

#[verifier::spinoff_prover]
proof fn lemma_max_take(vs: Seq<Seq<char>>, i: int, b: int)
    requires
        max_upto(vs, i, b),
        i < vs.len(),
        parse_spec(vs[i]) is Some,
        compare_spec(parse_spec(vs[i])->0, parse_spec(vs[b])->0) != Ordering::Less,
    ensures
        max_upto(vs, i + 1, i),
{
    let pb = parse_spec(vs[b])->0;
    let pi = parse_spec(vs[i])->0;
    assert forall|j: int| 0 <= j < i + 1 && (#[trigger] parse_spec(vs[j])) is Some implies not_greater(
        compare_spec(parse_spec(vs[j])->0, pi),
    ) by {
        lemma_compare_total_order(parse_spec(vs[j])->0, pb, pi);
        lemma_compare_total_order(pi, pb, pi);
    }
}

#[verifier::spinoff_prover]
proof fn lemma_max_keep(vs: Seq<Seq<char>>, i: int, b: int)
    requires
        max_upto(vs, i, b),
        i < vs.len(),
        parse_spec(vs[i]) is Some ==> compare_spec(parse_spec(vs[i])->0, parse_spec(vs[b])->0)
            == Ordering::Less,
    ensures
        max_upto(vs, i + 1, b),
{
    let pb = parse_spec(vs[b])->0;
    assert forall|j: int| 0 <= j < i + 1 && (#[trigger] parse_spec(vs[j])) is Some implies not_greater(
        compare_spec(parse_spec(vs[j])->0, pb),
    ) by {
        if j < i {
            assert(max_upto(vs, i, b));
        }
    }
    assert forall|j: int| b < j < i + 1 && (#[trigger] parse_spec(vs[j])) is Some implies compare_spec(
        parse_spec(vs[j])->0,
        pb,
    ) == Ordering::Less by {
        if j < i {
            assert(max_upto(vs, i, b));
        }
    }
}

/// The greatest version among `versions`, as written there; strings that spell no
/// version are passed over. Of equal greatest versions the last one is taken.
#[verifier::spinoff_prover]
pub fn select_max(versions: &Vec<String>) -> (r: Option<String>)
    ensures
        r is None <==> forall|j: int|
            0 <= j < versions@.len() ==> (#[trigger] parse_spec(versions@[j]@)) is None,
        r is Some ==> exists|i: int|
            is_last_max(views(versions@), i) && r->0@ == versions@[i]@,
{
    let ghost vs = views(versions@);
    let mut best: Option<(usize, NuGetVersion)> = None;
    let mut i: usize = 0;
    while i < versions.len()
        invariant
            i <= versions@.len() == vs.len(),
            vs == views(versions@),
            best is None ==> forall|j: int| 0 <= j < i ==> (#[trigger] parse_spec(vs[j])) is None,
            best is Some ==> max_upto(vs, i as int, (best->0).0 as int) && parse_spec(
                vs[(best->0).0 as int],
            ) == Some((best->0).1@),
        decreases versions@.len() - i,
    {
        assert(vs[i as int] == versions@[i as int]@);
        match NuGetVersion::parse(versions[i].as_str()) {
            Some(v) => {
                let take = match &best {
                    None => true,
                    Some((_, bv)) => match v.cmp(bv) {
                        Ordering::Less => false,
                        _ => true,
                    },
                };
                proof {
                    if take {
                        if best is Some {
                            lemma_max_take(vs, i as int, (best->0).0 as int);
                        } else {
                            lemma_max_first(vs, i as int);
                        }
                    } else {
                        lemma_max_keep(vs, i as int, (best->0).0 as int);
                    }
                }
                if take {
                    best = Some((i, v));
                }
            },
            None => {
                proof {
                    if best is Some {
                        lemma_max_keep(vs, i as int, (best->0).0 as int);
                    }
                }
            },
        }
        i = i + 1;
    }
    assert forall|j: int| 0 <= j < versions@.len() implies vs[j] == versions@[j]@ by {}
    match best {
        None => {
            assert forall|j: int| 0 <= j < versions@.len() implies (#[trigger] parse_spec(
                versions@[j]@,
            )) is None by {
                assert(vs[j] == versions@[j]@);
                assert(parse_spec(vs[j]) is None);
            }
            None
        },
        Some((bi, bv)) => {
            assert(is_last_max(vs, bi as int));
            assert(parse_spec(versions@[bi as int]@) is Some);
            Some(bv.raw.clone())
        },
    }
}

} // verus!
