//! Metadata version discovery: the version hint, and the listing fallback.

use vstd::prelude::*;

use crate::error::TableError;

verus! {

/// The largest magnitude a negative `i32` can have.
pub const NEG_LIMIT: i64 = 2147483648;

/// The largest `i32`.
pub const POS_LIMIT: i64 = 2147483647;

pub open spec fn is_ascii_digit(b: u8) -> bool {
    48 <= b <= 57
}

pub open spec fn all_ascii_digits(s: Seq<u8>) -> bool {
    forall|i: int| 0 <= i < s.len() ==> is_ascii_digit(#[trigger] s[i])
}

/// The value of a string of decimal digits, most significant first.
pub open spec fn digits_value(s: Seq<u8>) -> int
    decreases s.len(),
{
    if s.len() == 0 {
        0
    } else {
        digits_value(s.drop_last()) * 10 + (s.last() - 48)
    }
}

/// A non-empty run of digits whose value is at most `limit`, as a number.
pub open spec fn bounded_digits(s: Seq<u8>, limit: int) -> Option<int> {
    if s.len() > 0 && all_ascii_digits(s) && digits_value(s) <= limit {
        Some(digits_value(s))
    } else {
        None
    }
}

/// The `i32` that a version hint holds: an optional `+` or `-`, then one or
/// more decimal digits, within the range of `i32`, and nothing else.
pub open spec fn spec_parse_version_hint(s: Seq<u8>) -> Option<int> {
    if s.len() > 0 && s[0] == 45 {
        match bounded_digits(s.drop_first(), NEG_LIMIT as int) {
            Some(v) => Some(-v),
            None => None,
        }
    } else if s.len() > 0 && s[0] == 43 {
        bounded_digits(s.drop_first(), POS_LIMIT as int)
    } else {
        bounded_digits(s, POS_LIMIT as int)
    }
}

proof fn lemma_digits_value_push(s: Seq<u8>, b: u8)
    ensures
        digits_value(s.push(b)) == digits_value(s) * 10 + (b - 48),
{
    assert(s.push(b).drop_last() =~= s);
}

proof fn lemma_digits_value_nonneg(s: Seq<u8>)
    requires
        all_ascii_digits(s),
    ensures
        digits_value(s) >= 0,
    decreases s.len(),
{
    if s.len() > 0 {
        assert(all_ascii_digits(s.drop_last())) by {
            assert forall|i: int| 0 <= i < s.drop_last().len() implies is_ascii_digit(
                #[trigger] s.drop_last()[i],
            ) by {
                assert(s.drop_last()[i] == s[i]);
            }
        }
        lemma_digits_value_nonneg(s.drop_last());
    }
}

/// Reads the digits of `content` from `start` on; the result is their value
/// when they are all digits, at least one, and at most `limit`.
fn parse_digits(content: &[u8], start: usize, limit: i64) -> (r: Option<i64>)
    requires
        start <= content@.len(),
        0 <= limit <= NEG_LIMIT,
    ensures
        r matches Some(v) ==> bounded_digits(content@.subrange(start as int, content@.len() as int), limit as int) == Some(v as int),
        r is None ==> bounded_digits(content@.subrange(start as int, content@.len() as int), limit as int) is None,
        r matches Some(v) ==> 0 <= v <= limit,
{
    let ghost digits = content@.subrange(start as int, content@.len() as int);
    let len = content.len();
    if start == len {
        return None;
    }
    let mut acc: i64 = 0;
    let mut over = false;
    let mut i: usize = start;
    while i < len
        invariant
            len == content@.len(),
            start <= i <= len,
            0 <= limit <= NEG_LIMIT,
            digits == content@.subrange(start as int, len as int),
            all_ascii_digits(content@.subrange(start as int, i as int)),
            !over ==> acc == digits_value(content@.subrange(start as int, i as int)),
            !over ==> 0 <= acc <= limit,
            over ==> digits_value(content@.subrange(start as int, i as int)) > limit,
        decreases len - i,
    {
        let b = content[i];
        let ghost prefix = content@.subrange(start as int, i as int);
        assert(content@.subrange(start as int, i + 1) =~= prefix.push(b));
        proof {
            lemma_digits_value_push(prefix, b);
        }
        if b < 48 || b > 57 {
            assert(!all_ascii_digits(digits)) by {
                assert(digits[i - start] == b);
            }
            return None;
        }
        assert(all_ascii_digits(content@.subrange(start as int, i + 1))) by {
            assert forall|j: int| 0 <= j < i + 1 - start implies is_ascii_digit(
                #[trigger] content@.subrange(start as int, i + 1)[j],
            ) by {
                if j < i - start {
                    assert(content@.subrange(start as int, i + 1)[j] == prefix[j]);
                }
            }
        }
        if !over {
            let next = acc * 10 + (b - 48) as i64;
            if next > limit {
                over = true;
            } else {
                acc = next;
            }
        } else {
            proof {
                lemma_digits_value_nonneg(prefix);
            }
        }
        i = i + 1;
    }
    assert(content@.subrange(start as int, i as int) =~= digits);
    if over {
        None
    } else {
        Some(acc)
    }
}

/// Parses the content of the version hint as an `i32`.
pub fn parse_version_hint(content: &[u8]) -> (r: Result<i32, TableError>)
    ensures
        match spec_parse_version_hint(content@) {
            Some(v) => r is Ok && r->Ok_0 as int == v,
            None => r == Err::<i32, TableError>(TableError::MalformedVersionHint),
        },
{
    let len = content.len();
    if len > 0 && content[0] == 45 {
        assert(content@.subrange(1, len as int) =~= content@.drop_first());
        match parse_digits(content, 1, NEG_LIMIT) {
            Some(v) => Ok((-v) as i32),
            None => Err(TableError::MalformedVersionHint),
        }
    } else if len > 0 && content[0] == 43 {
        assert(content@.subrange(1, len as int) =~= content@.drop_first());
        match parse_digits(content, 1, POS_LIMIT) {
            Some(v) => Ok(v as i32),
            None => Err(TableError::MalformedVersionHint),
        }
    } else {
        assert(content@.subrange(0, len as int) =~= content@);
        match parse_digits(content, 0, POS_LIMIT) {
            Some(v) => Ok(v as i32),
            None => Err(TableError::MalformedVersionHint),
        }
    }
}

/// The decimal digits of `n`, most significant first, without leading zeros.
pub open spec fn decimal_digits(n: nat) -> Seq<char>
    decreases n,
{
    if n < 10 {
        seq![digit_char(n)]
    } else {
        decimal_digits(n / 10) + seq![digit_char(n % 10)]
    }
}

pub open spec fn digit_char(d: nat) -> char {
    if d < 10 {
        (48 + d) as char
    } else {
        ' '
    }
}

/// The decimal text of `v`, with a leading `-` when it is negative.
pub open spec fn decimal_text(v: int) -> Seq<char> {
    if v < 0 {
        seq!['-'] + decimal_digits((-v) as nat)
    } else {
        decimal_digits(v as nat)
    }
}

/// The canonical metadata path of version `v`.
pub open spec fn spec_metadata_path(v: int) -> Seq<char> {
    "metadata/v"@ + decimal_text(v) + ".metadata.json"@
}

fn digit_str(d: u32) -> (r: &'static str)
    requires
        d < 10,
    ensures
        r@ == seq![digit_char(d as nat)],
{
    proof {
        reveal_strlit("0");
        reveal_strlit("1");
        reveal_strlit("2");
        reveal_strlit("3");
        reveal_strlit("4");
        reveal_strlit("5");
        reveal_strlit("6");
        reveal_strlit("7");
        reveal_strlit("8");
        reveal_strlit("9");
    }
    let r = if d == 0 {
        "0"
    } else if d == 1 {
        "1"
    } else if d == 2 {
        "2"
    } else if d == 3 {
        "3"
    } else if d == 4 {
        "4"
    } else if d == 5 {
        "5"
    } else if d == 6 {
        "6"
    } else if d == 7 {
        "7"
    } else if d == 8 {
        "8"
    } else {
        "9"
    };
    assert(r@ =~= seq![digit_char(d as nat)]);
    r
}

fn push_decimal(out: &mut String, n: u32)
    ensures
        final(out)@ == old(out)@ + decimal_digits(n as nat),
    decreases n,
{
    if n >= 10 {
        push_decimal(out, n / 10);
    }
    out.append(digit_str(n % 10));
    assert(final(out)@ =~= old(out)@ + decimal_digits(n as nat));
}

/// The canonical metadata path of version `v`: `metadata/v{v}.metadata.json`.
pub fn metadata_path_for_version(v: i32) -> (r: String)
    ensures
        r@ == spec_metadata_path(v as int),
{
    let mut out = String::from_str("metadata/v");
    if v < 0 {
        out.append("-");
        push_decimal(&mut out, (-(v as i64)) as u32);
    } else {
        push_decimal(&mut out, v as u32);
    }
    out.append(".metadata.json");
    proof {
        reveal_strlit("-");
    }
    assert(out@ =~= spec_metadata_path(v as int));
    out
}

/// Whether `name` ends with `.metadata.json`.
pub open spec fn is_metadata_name(name: Seq<char>) -> bool {
    ".metadata.json"@.is_suffix_of(name)
}

/// Strict lexicographic order on text, character by character, by code point;
/// on valid UTF-8 this is the byte order that `String`'s `Ord` uses.
pub open spec fn lex_lt(a: Seq<char>, b: Seq<char>) -> bool
    decreases a.len(),
{
    if b.len() == 0 {
        false
    } else if a.len() == 0 {
        true
    } else if a[0] != b[0] {
        (a[0] as int) < (b[0] as int)
    } else {
        lex_lt(a.drop_first(), b.drop_first())
    }
}

proof fn lemma_lex_lt_irreflexive(a: Seq<char>)
    ensures
        !lex_lt(a, a),
    decreases a.len(),
{
    if a.len() > 0 {
        lemma_lex_lt_irreflexive(a.drop_first());
    }
}

proof fn lemma_lex_lt_transitive(a: Seq<char>, b: Seq<char>, c: Seq<char>)
    requires
        lex_lt(a, b),
        lex_lt(b, c),
    ensures
        lex_lt(a, c),
    decreases a.len(),
{
    if a.len() > 0 && a[0] == b[0] && b[0] == c[0] {
        lemma_lex_lt_transitive(a.drop_first(), b.drop_first(), c.drop_first());
    }
}

/// The greatest metadata name among `names`, when there is one: a metadata
/// name of the listing that no other metadata name of it exceeds.
pub open spec fn is_latest_metadata(best: Seq<char>, names: Seq<Seq<char>>) -> bool {
    &&& is_metadata_name(best)
    &&& exists|i: int| 0 <= i < names.len() && names[i] == best
    &&& forall|i: int|
        0 <= i < names.len() && is_metadata_name(#[trigger] names[i]) ==> !lex_lt(best, names[i])
}

proof fn lemma_lex_lt_total(a: Seq<char>, b: Seq<char>)
    requires
        !lex_lt(a, b),
        !lex_lt(b, a),
    ensures
        a == b,
    decreases a.len(),
{
    if a.len() > 0 && b.len() > 0 {
        lemma_lex_lt_total(a.drop_first(), b.drop_first());
        assert(a =~= seq![a[0]] + a.drop_first());
        assert(b =~= seq![b[0]] + b.drop_first());
    } else {
        assert(a =~= b);
    }
}

/// A listing has at most one latest metadata name, so the fallback's choice
/// is determined by the listing alone, whatever its order.
pub proof fn lemma_latest_metadata_unique(a: Seq<char>, b: Seq<char>, names: Seq<Seq<char>>)
    requires
        is_latest_metadata(a, names),
        is_latest_metadata(b, names),
    ensures
        a == b,
{
    let i = choose|i: int| 0 <= i < names.len() && names[i] == a;
    let j = choose|j: int| 0 <= j < names.len() && names[j] == b;
    assert(!lex_lt(a, names[j]));
    assert(!lex_lt(b, names[i]));
    lemma_lex_lt_total(a, b);
}

/// The views of a listing.
pub open spec fn names_view(names: Seq<String>) -> Seq<Seq<char>> {
    names.map_values(|n: String| n@)
}

/// Whether `name` ends with `.metadata.json`.
pub fn is_metadata_file_name(name: &str) -> (r: bool)
    ensures
        r == is_metadata_name(name@),
{
    let suffix = ".metadata.json";
    let n = name.unicode_len();
    let k = suffix.unicode_len();
    if k > n {
        return false;
    }
    let mut i: usize = 0;
    while i < k
        invariant
            n == name@.len(),
            k == suffix@.len(),
            suffix@ == ".metadata.json"@,
            k <= n,
            i <= k,
            forall|j: int| 0 <= j < i ==> name@[n - k + j] == suffix@[j],
        decreases k - i,
    {
        if name.get_char(n - k + i) != suffix.get_char(i) {
            assert(name@.subrange(n - k, n as int)[i as int] != suffix@[i as int]);
            assert(!(suffix@ =~= name@.subrange(n - k, n as int)));
            return false;
        }
        i = i + 1;
    }
    assert(name@.subrange(n - k, n as int) =~= suffix@);
    true
}

fn text_lt(a: &str, b: &str) -> (r: bool)
    ensures
        r == lex_lt(a@, b@),
{
    let n = a.unicode_len();
    let m = b.unicode_len();
    let mut i: usize = 0;
    assert(a@.subrange(0, n as int) =~= a@);
    assert(b@.subrange(0, m as int) =~= b@);
    while i < n && i < m
        invariant
            n == a@.len(),
            m == b@.len(),
            i <= n,
            i <= m,
            lex_lt(a@, b@) == lex_lt(a@.subrange(i as int, n as int), b@.subrange(i as int, m as int)),
        decreases n - i,
    {
        let x = a.get_char(i);
        let y = b.get_char(i);
        let ghost sa = a@.subrange(i as int, n as int);
        let ghost sb = b@.subrange(i as int, m as int);
        assert(sa[0] == x && sb[0] == y);
        if x != y {
            return (x as u32) < (y as u32);
        }
        assert(sa.drop_first() =~= a@.subrange(i + 1, n as int));
        assert(sb.drop_first() =~= b@.subrange(i + 1, m as int));
        i = i + 1;
    }
    i < m
}

/// Picks, among the listed names, the lexically greatest one that ends with
/// `.metadata.json`; fails with `NoMetadataFound` when none does.
pub fn select_latest_metadata(names: &Vec<String>) -> (r: Result<String, TableError>)
    ensures
        match r {
            Ok(best) => is_latest_metadata(best@, names_view(names@)),
            Err(e) => e == TableError::NoMetadataFound && forall|i: int|
                0 <= i < names@.len() ==> !is_metadata_name(#[trigger] names@[i]@),
        },
{
    let ghost nv = names_view(names@);
    let mut best: Option<usize> = None;
    let mut i: usize = 0;
    while i < names.len()
        invariant
            i <= names@.len(),
            nv == names_view(names@),
            nv.len() == names@.len(),
            best matches Some(b) ==> b < i && is_metadata_name(nv[b as int]),
            forall|j: int| 0 <= j < i && is_metadata_name(#[trigger] nv[j]) ==> (best matches Some(b)
                && !lex_lt(nv[b as int], nv[j])),
        decreases names@.len() - i,
    {
        let name = names[i].as_str();
        assert(nv[i as int] == name@);
        if is_metadata_file_name(name) {
            match best {
                None => {
                    proof {
                        lemma_lex_lt_irreflexive(nv[i as int]);
                    }
                    best = Some(i);
                },
                Some(b) => {
                    if text_lt(names[b].as_str(), name) {
                        proof {
                            assert forall|j: int|
                                0 <= j < i && is_metadata_name(#[trigger] nv[j]) implies !lex_lt(
                                nv[i as int],
                                nv[j],
                            ) by {
                                if lex_lt(nv[i as int], nv[j]) {
                                    lemma_lex_lt_transitive(nv[b as int], nv[i as int], nv[j]);
                                }
                            }
                            lemma_lex_lt_irreflexive(nv[i as int]);
                        }
                        best = Some(i);
                    }
                },
            }
        }
        i = i + 1;
    }
    match best {
        Some(b) => {
            let r = names[b].clone();
            assert(nv[b as int] == r@);
            Ok(r)
        },
        None => {
            assert forall|j: int| 0 <= j < names@.len() implies !is_metadata_name(
                #[trigger] names@[j]@,
            ) by {
                assert(nv[j] == names@[j]@);
            }
            Err(TableError::NoMetadataFound)
        },
    }
}

/// The storage path of the version hint.
pub fn version_hint_path() -> (r: &'static str)
    ensures
        r@ == "metadata/version-hint.text"@,
{
    "metadata/version-hint.text"
}

/// What to ask storage next while looking for the current version.
pub enum VersionProbe {
    /// Read the version hint at this path.
    ReadHint(String),
    /// List the objects under this prefix.
    ListMetadata(String),
}

/// Once storage has said whether the version hint exists: read it when it
/// does, and only otherwise list `metadata/`.
pub fn next_version_probe(hint_exists: bool) -> (r: VersionProbe)
    ensures
        hint_exists ==> (r matches VersionProbe::ReadHint(p) && p@ == "metadata/version-hint.text"@),
        !hint_exists ==> (r matches VersionProbe::ListMetadata(p) && p@ == "metadata/"@),
{
    if hint_exists {
        VersionProbe::ReadHint(String::from_str(version_hint_path()))
    } else {
        VersionProbe::ListMetadata(String::from_str("metadata/"))
    }
}

/// What storage showed about the current version: the content of the version
/// hint when it exists, else the names listed under `metadata/`.
pub enum VersionSource {
    Hint(Vec<u8>),
    Listing(Vec<String>),
}

/// Names the metadata file of the current version. A hint decides alone: its
/// `i32` gives the canonical path. Without one, the lexically greatest listed
/// metadata name is taken.
pub fn resolve_metadata_path(source: &VersionSource) -> (r: Result<String, TableError>)
    ensures
        match source {
            VersionSource::Hint(content) => match spec_parse_version_hint(content@) {
                Some(v) => r is Ok && r->Ok_0@ == spec_metadata_path(v),
                None => r == Err::<String, TableError>(TableError::MalformedVersionHint),
            },
            VersionSource::Listing(names) => match r {
                Ok(best) => is_latest_metadata(best@, names_view(names@)),
                Err(e) => e == TableError::NoMetadataFound && forall|i: int|
                    0 <= i < names@.len() ==> !is_metadata_name(#[trigger] names@[i]@),
            },
        },
{
    match source {
        VersionSource::Hint(content) => {
            let v = parse_version_hint(content.as_slice())?;
            Ok(metadata_path_for_version(v))
        },
        VersionSource::Listing(names) => select_latest_metadata(names),
    }
}

} // verus!
