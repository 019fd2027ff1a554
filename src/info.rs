//! The file-name grammar of a kernel image:
//! `<prefix><name>-<machine id>-<build id><suffix>`.
use vstd::prelude::*;
use vstd::string::{StrSliceExecFns, StringExecFns};

verus! {

/// Width of the machine identifier, in characters.
pub const MACHINE_ID_LEN: usize = 32;

/// What the build segment of a file name may hold.
#[derive(Clone, Copy, Debug, PartialEq, Eq)]
pub enum BuildToken {
    /// Any run of ASCII letters, digits and `_`, the empty run included.
    Word,
    /// Exactly the word `rolling`.
    Rolling,
}

/// A complete file-name pattern: the literal prefix and suffix, and what the
/// build segment may hold.
#[derive(Clone, Debug, PartialEq, Eq)]
pub struct NamePattern {
    pub prefix: String,
    pub suffix: String,
    pub build: BuildToken,
}

/// The fields parsed out of one kernel image's file name.
#[derive(Clone, Debug, PartialEq, Eq)]
pub struct UKIInfo {
    pub name: String,
    pub machine_id: String,
    pub build_id: String,
}

impl View for UKIInfo {
    type V = (Seq<char>, Seq<char>, Seq<char>);

    open spec fn view(&self) -> (Seq<char>, Seq<char>, Seq<char>) {
        (self.name@, self.machine_id@, self.build_id@)
    }
}

pub open spec fn is_name_char(c: char) -> bool {
    ('a' <= c && c <= 'z') || c == '-'
}

pub open spec fn is_id_char(c: char) -> bool {
    ('a' <= c && c <= 'z') || ('0' <= c && c <= '9')
}

pub open spec fn is_build_char(c: char) -> bool {
    ('a' <= c && c <= 'z') || ('A' <= c && c <= 'Z') || ('0' <= c && c <= '9') || c == '_'
}

pub open spec fn all_name_chars(s: Seq<char>) -> bool {
    forall|i: int| 0 <= i < s.len() ==> is_name_char(#[trigger] s[i])
}

pub open spec fn all_id_chars(s: Seq<char>) -> bool {
    forall|i: int| 0 <= i < s.len() ==> is_id_char(#[trigger] s[i])
}

pub open spec fn all_build_chars(s: Seq<char>) -> bool {
    forall|i: int| 0 <= i < s.len() ==> is_build_char(#[trigger] s[i])
}

pub open spec fn rolling_word() -> Seq<char> {
    seq!['r', 'o', 'l', 'l', 'i', 'n', 'g']
}

/// Whether `b` is an acceptable build segment under `token`.
pub open spec fn build_matches(token: BuildToken, b: Seq<char>) -> bool {
    match token {
        BuildToken::Word => all_build_chars(b),
        BuildToken::Rolling => b == rolling_word(),
    }
}

/// `s` begins with `prefix` and ends with `suffix`, the two not overlapping.
pub open spec fn framed(prefix: Seq<char>, suffix: Seq<char>, s: Seq<char>) -> bool {
    &&& prefix.len() + suffix.len() <= s.len()
    &&& s.subrange(0, prefix.len() as int) == prefix
    &&& s.subrange(s.len() - suffix.len(), s.len() as int) == suffix
}

/// What lies between the prefix and the suffix.
pub open spec fn inner(prefix: Seq<char>, suffix: Seq<char>, s: Seq<char>) -> Seq<char> {
    s.subrange(prefix.len() as int, s.len() - suffix.len())
}

/// `m` reads as `<name>-<machine id>-<build id>` with a name of `k` characters.
pub open spec fn splits_at(token: BuildToken, m: Seq<char>, k: int) -> bool {
    &&& 1 <= k
    &&& k + 34 <= m.len()
    &&& all_name_chars(m.subrange(0, k))
    &&& m[k] == '-'
    &&& all_id_chars(m.subrange(k + 1, k + 33))
    &&& m[k + 33] == '-'
    &&& build_matches(token, m.subrange(k + 34, m.len() as int))
}

/// The shortest name length, at least `k`, at which `m` splits.
pub open spec fn first_split(token: BuildToken, m: Seq<char>, k: int) -> Option<int>
    decreases m.len() - k,
{
    if k < 1 || k + 34 > m.len() {
        None
    } else if splits_at(token, m, k) {
        Some(k)
    } else {
        first_split(token, m, k + 1)
    }
}

/// The three fields of `m` when its name has `k` characters.
pub open spec fn fields_at(m: Seq<char>, k: int) -> (Seq<char>, Seq<char>, Seq<char>) {
    (m.subrange(0, k), m.subrange(k + 1, k + 33), m.subrange(k + 34, m.len() as int))
}

/// The parse of a whole file name: `None` where it does not fit the grammar,
/// else the fields of the split with the shortest name.
pub open spec fn parse_name(
    prefix: Seq<char>,
    suffix: Seq<char>,
    token: BuildToken,
    s: Seq<char>,
) -> Option<(Seq<char>, Seq<char>, Seq<char>)> {
    if !framed(prefix, suffix, s) {
        None
    } else {
        match first_split(token, inner(prefix, suffix, s), 1) {
            Some(k) => Some(fields_at(inner(prefix, suffix, s), k)),
            None => None,
        }
    }
}

/// The file name that the three fields make.
pub open spec fn compose_name(
    prefix: Seq<char>,
    suffix: Seq<char>,
    name: Seq<char>,
    machine_id: Seq<char>,
    build_id: Seq<char>,
) -> Seq<char> {
    prefix + name + seq!['-'] + machine_id + seq!['-'] + build_id + suffix
}

/// The parse of `s` under `pattern` where one is given, else under `prefix`,
/// `suffix` and `BuildToken::Word`.
pub open spec fn chosen_parse(
    prefix: Seq<char>,
    suffix: Seq<char>,
    pattern: Option<NamePattern>,
    s: Seq<char>,
) -> Option<(Seq<char>, Seq<char>, Seq<char>)> {
    match pattern {
        Some(p) => parse_name(p.prefix@, p.suffix@, p.build, s),
        None => parse_name(prefix, suffix, BuildToken::Word, s),
    }
}

impl UKIInfo {
    pub fn new(name: &str, machine_id: &str, build_id: &str) -> (r: UKIInfo)
        ensures
            r@ == (name@, machine_id@, build_id@),
    {
        UKIInfo {
            name: String::from_str(name),
            machine_id: String::from_str(machine_id),
            build_id: String::from_str(build_id),
        }
    }
}

fn chars_of(s: &str) -> (v: Vec<char>)
    ensures
        v@ == s@,
{
    let n = s.unicode_len();
    let mut v: Vec<char> = Vec::new();
    let mut i: usize = 0;
    while i < n
        invariant
            n == s@.len(),
            i <= n,
            v@ == s@.subrange(0, i as int),
        decreases n - i,
    {
        v.push(s.get_char(i));
        i += 1;
    }
    assert(v@ == s@);
    v
}

proof fn lemma_first_split_from(token: BuildToken, m: Seq<char>, j: int, k: int)
    requires
        1 <= j <= k,
        splits_at(token, m, k),
        forall|i: int| j <= i < k ==> !splits_at(token, m, i),
    ensures
        first_split(token, m, j) == Some(k),
    decreases k - j,
{
    if j < k {
        lemma_first_split_from(token, m, j + 1, k);
    }
}

proof fn lemma_first_split_is_split(token: BuildToken, m: Seq<char>, j: int)
    ensures
        first_split(token, m, j) matches Some(k) ==> splits_at(token, m, k),
    decreases m.len() - j,
{
    if 1 <= j && j + 34 <= m.len() && !splits_at(token, m, j) {
        lemma_first_split_is_split(token, m, j + 1);
    }
}

/// A file name composed of a prefix, a name of at least one lower-case letter
/// or `-`, a 32-character machine identifier of lower-case letters and digits,
/// a build segment that the token accepts and a suffix parses back into
/// exactly those three fields.
pub proof fn lemma_parse_recovers_fields(
    prefix: Seq<char>,
    suffix: Seq<char>,
    token: BuildToken,
    name: Seq<char>,
    machine_id: Seq<char>,
    build_id: Seq<char>,
)
    requires
        name.len() >= 1,
        all_name_chars(name),
        machine_id.len() == MACHINE_ID_LEN,
        all_id_chars(machine_id),
        build_matches(token, build_id),
    ensures
        parse_name(prefix, suffix, token, compose_name(prefix, suffix, name, machine_id, build_id))
            == Some((name, machine_id, build_id)),
{
    let s = compose_name(prefix, suffix, name, machine_id, build_id);
    let m = name + seq!['-'] + machine_id + seq!['-'] + build_id;
    let k = name.len() as int;
    assert(s =~= prefix + m + suffix);
    assert(s.subrange(0, prefix.len() as int) =~= prefix);
    assert(s.subrange(s.len() - suffix.len(), s.len() as int) =~= suffix);
    assert(inner(prefix, suffix, s) =~= m);
    assert(m.subrange(0, k) =~= name);
    assert(m.subrange(k + 1, k + 33) =~= machine_id);
    assert(m.subrange(k + 34, m.len() as int) =~= build_id);
    assert(m[k] == '-');
    assert(m[k + 33] == '-');
    assert(splits_at(token, m, k));
    assert forall|i: int| 1 <= i < k implies !splits_at(token, m, i) by {
        if i + 34 <= m.len() {
            let b = m.subrange(i + 34, m.len() as int);
            assert(b[k - i - 1] == m[k + 33]);
            assert(!is_build_char(b[k - i - 1]));
            if token == BuildToken::Rolling {
                assert(rolling_word().len() == 7);
                assert(b.len() != rolling_word().len());
            }
        }
    }
    lemma_first_split_from(token, m, 1, k);
}

/// Under the strict `Rolling` token every parse that succeeds has the build
/// segment `rolling`: any other build segment is rejected.
pub proof fn lemma_strict_build_is_rolling(prefix: Seq<char>, suffix: Seq<char>, s: Seq<char>)
    ensures
        parse_name(prefix, suffix, BuildToken::Rolling, s) matches Some(f) ==> f.2
            == rolling_word(),
{
    lemma_first_split_is_split(BuildToken::Rolling, inner(prefix, suffix, s), 1);
}

/// With a pattern given, the parse depends on that pattern and the file name
/// alone: the default prefix and suffix play no part.
pub proof fn lemma_pattern_overrides_defaults(
    prefix1: Seq<char>,
    suffix1: Seq<char>,
    prefix2: Seq<char>,
    suffix2: Seq<char>,
    pattern: NamePattern,
    s: Seq<char>,
)
    ensures
        chosen_parse(prefix1, suffix1, Some(pattern), s) == chosen_parse(
            prefix2,
            suffix2,
            Some(pattern),
            s,
        ),
{
}

enum CharClass {
    Name,
    Id,
    Build,
}

spec fn in_class(cls: CharClass, c: char) -> bool {
    match cls {
        CharClass::Name => is_name_char(c),
        CharClass::Id => is_id_char(c),
        CharClass::Build => is_build_char(c),
    }
}

spec fn all_in_class(cls: CharClass, s: Seq<char>) -> bool {
    match cls {
        CharClass::Name => all_name_chars(s),
        CharClass::Id => all_id_chars(s),
        CharClass::Build => all_build_chars(s),
    }
}

fn class_contains(cls: &CharClass, c: char) -> (r: bool)
    ensures
        r == in_class(*cls, c),
{
    match cls {
        CharClass::Name => ('a' <= c && c <= 'z') || c == '-',
        CharClass::Id => ('a' <= c && c <= 'z') || ('0' <= c && c <= '9'),
        CharClass::Build => ('a' <= c && c <= 'z') || ('A' <= c && c <= 'Z') || ('0' <= c && c
            <= '9') || c == '_',
    }
}

/// Whether every character of `v[lo..hi]` is in `cls`.
fn run_in_class(v: &Vec<char>, lo: usize, hi: usize, cls: CharClass) -> (r: bool)
    requires
        lo <= hi <= v.len(),
    ensures
        r == all_in_class(cls, v@.subrange(lo as int, hi as int)),
{
    let ghost run = v@.subrange(lo as int, hi as int);
    let mut i: usize = lo;
    while i < hi
        invariant
            lo <= i <= hi <= v.len(),
            run == v@.subrange(lo as int, hi as int),
            forall|j: int| 0 <= j < i - lo ==> in_class(cls, #[trigger] run[j]),
        decreases hi - i,
    {
        if !class_contains(&cls, v[i]) {
            assert(!in_class(cls, run[i - lo]));
            return false;
        }
        i += 1;
    }
    assert(forall|j: int| 0 <= j < run.len() ==> in_class(cls, #[trigger] run[j]));
    true
}

/// Whether `v[lo..hi]` is exactly `lit`.
fn run_equals(v: &Vec<char>, lo: usize, hi: usize, lit: &Vec<char>) -> (r: bool)
    requires
        lo <= hi <= v.len(),
    ensures
        r == (v@.subrange(lo as int, hi as int) == lit@),
{
    if hi - lo != lit.len() {
        return false;
    }
    let mut i: usize = 0;
    while i < lit.len()
        invariant
            hi - lo == lit.len(),
            lo <= hi <= v.len(),
            i <= lit.len(),
            forall|j: int| 0 <= j < i ==> v@[lo + j] == lit@[j],
        decreases lit.len() - i,
    {
        if v[lo + i] != lit[i] {
            assert(v@.subrange(lo as int, hi as int)[i as int] != lit@[i as int]);
            return false;
        }
        i += 1;
    }
    assert(v@.subrange(lo as int, hi as int) =~= lit@);
    true
}

/// Whether `m` splits with a name of `k` characters.
fn split_holds(m: &Vec<char>, k: usize, token: BuildToken, rolling: &Vec<char>) -> (r: bool)
    requires
        1 <= k,
        k + 34 <= m.len(),
        rolling@ == rolling_word(),
    ensures
        r == splits_at(token, m@, k as int),
{
    let n = m.len();
    if !run_in_class(m, 0, k, CharClass::Name) || m[k] != '-' {
        return false;
    }
    if !run_in_class(m, k + 1, k + 33, CharClass::Id) || m[k + 33] != '-' {
        return false;
    }
    match token {
        BuildToken::Word => run_in_class(m, k + 34, n, CharClass::Build),
        BuildToken::Rolling => run_equals(m, k + 34, n, rolling),
    }
}

/// Parses `file_name` against the grammar built from `prefix`, `suffix` and
/// `token`.
fn parse_with(prefix: &String, suffix: &String, token: BuildToken, file_name: &str) -> (r: Option<
    UKIInfo,
>)
    ensures
        match r {
            Some(info) => parse_name(prefix@, suffix@, token, file_name@) == Some(info@),
            None => parse_name(prefix@, suffix@, token, file_name@) is None,
        },
{
    let s = chars_of(file_name);
    let p = chars_of(prefix.as_str());
    let x = chars_of(suffix.as_str());
    proof {
        reveal_strlit("rolling");
    }
    let rolling = chars_of("rolling");
    assert(rolling@ =~= rolling_word());
    if p.len() > s.len() || x.len() > s.len() - p.len() {
        return None;
    }
    let lo = p.len();
    let hi = s.len() - x.len();
    if !run_equals(&s, 0, lo, &p) || !run_equals(&s, hi, s.len(), &x) {
        return None;
    }
    assert(framed(prefix@, suffix@, file_name@));
    let ghost m_spec = inner(prefix@, suffix@, file_name@);
    let mut m: Vec<char> = Vec::new();
    let mut i: usize = lo;
    while i < hi
        invariant
            lo <= i <= hi <= s.len(),
            m@ == s@.subrange(lo as int, i as int),
        decreases hi - i,
    {
        m.push(s[i]);
        i += 1;
    }
    assert(m@ == m_spec);
    let n = m.len();
    let mut k: usize = 1;
    while n >= 34 && k <= n - 34
        invariant
            1 <= k <= n + 1,
            n == m@.len(),
            m@ == m_spec,
            m_spec == inner(prefix@, suffix@, file_name@),
            rolling@ == rolling_word(),
            lo + n == hi,
            hi <= s.len(),
            s@ == file_name@,
            m_spec == file_name@.subrange(lo as int, hi as int),
            framed(prefix@, suffix@, file_name@),
            first_split(token, m_spec, 1) == first_split(token, m_spec, k as int),
        decreases n + 1 - k,
    {
        if split_holds(&m, k, token, &rolling) {
            let name = file_name.substring_char(lo, lo + k);
            let machine_id = file_name.substring_char(lo + k + 1, lo + k + 33);
            let build_id = file_name.substring_char(lo + k + 34, hi);
            assert(name@ =~= m_spec.subrange(0, k as int));
            assert(machine_id@ =~= m_spec.subrange(k + 1, k + 33));
            assert(build_id@ =~= m_spec.subrange(k + 34, n as int));
            assert(first_split(token, m_spec, k as int) == Some(k as int));
            let info = UKIInfo::new(name, machine_id, build_id);
            return Some(info);
        }
        k += 1;
    }
    None
}

/// Parses a kernel image's file name. The name is a prefix, then a name of
/// lower-case letters and `-`, `-`, a machine identifier of 32 lower-case
/// letters and digits, `-`, a build segment, and a suffix, which together make
/// up the whole file name. Where several names fit, the shortest is taken. By
/// default the prefix is `prefix`, the suffix `suffix` and the build segment
/// any `BuildToken::Word`; a `pattern` given replaces all three. A file name
/// that does not fit gives `None`.
pub fn get_info_from_file_name(
    prefix: &String,
    suffix: &String,
    file_name: &str,
    pattern: Option<NamePattern>,
) -> (r: Option<UKIInfo>)
    ensures
        match r {
            Some(info) => chosen_parse(prefix@, suffix@, pattern, file_name@) == Some(info@),
            None => chosen_parse(prefix@, suffix@, pattern, file_name@) is None,
        },
{
    match &pattern {
        Some(p) => parse_with(&p.prefix, &p.suffix, p.build, file_name),
        None => parse_with(prefix, suffix, BuildToken::Word, file_name),
    }
}

} // verus!
