//! Sanitising strings that arrive from the network before they are stored,
//! shown or logged: device names, file names and log fields.
//!
//! Offending characters are dropped rather than the input being refused, so
//! that a sender cannot probe which names are rejected.
use vstd::prelude::*;
use crate::text::{
    char_is_whitespace, char_utf8_width, char_white_space, lemma_truncate_bound, lemma_truncate_fits,
    lemma_utf8_len_add, lemma_utf8_len_push, lemma_utf8_len_single, push_char, str_chars, string_from_chars, truncate_chars_to_bytes,
    truncate_to_bytes_spec, utf8_len,
};

verus! {

/// Longest device name kept, in chars.
pub const MAX_DEVICE_NAME_CODEPOINTS: usize = 64;

/// Longest file name kept, in UTF-8 bytes.
pub const MAX_FILENAME_BYTES: usize = 200;

/// Longest log field kept, in UTF-8 bytes, before `...` is appended.
pub const MAX_LOG_FIELD_BYTES: usize = 100;

// ---------------------------------------------------------------------------
// Character classes
// ---------------------------------------------------------------------------

/// Bidirectional-text control characters: U+202A..=U+202E, U+2066..=U+2069,
/// U+200E and U+200F.
pub open spec fn bidi_control(c: char) -> bool {
    let u = c as u32;
    (0x202A <= u && u <= 0x202E) || (0x2066 <= u && u <= 0x2069) || u == 0x200E || u == 0x200F
}

/// C0 controls, DEL and C1 controls: U+0000..=U+001F, U+007F, U+0080..=U+009F.
pub open spec fn control_char(c: char) -> bool {
    let u = c as u32;
    u <= 0x1F || u == 0x7F || (0x80 <= u && u <= 0x9F)
}

/// Characters that a file name may not hold: `< > : " | ? * / \` and NUL.
pub open spec fn filename_forbidden(c: char) -> bool {
    c == '<' || c == '>' || c == ':' || c == '"' || c == '|' || c == '?' || c == '*' || c == '/'
        || c == '\\' || c == '\0'
}

/// A char that survives the device-name and log-field filters.
pub open spec fn plain_char(c: char) -> bool {
    !bidi_control(c) && !control_char(c)
}

/// A char that survives the file-name filter.
pub open spec fn filename_char(c: char) -> bool {
    plain_char(c) && !filename_forbidden(c)
}

/// Is `c` a bidirectional-text control character?
pub fn is_bidi_control(c: char) -> (r: bool)
    ensures
        r == bidi_control(c),
{
    let u = c as u32;
    (0x202A <= u && u <= 0x202E) || (0x2066 <= u && u <= 0x2069) || u == 0x200E || u == 0x200F
}

/// Is `c` a C0/C1 control character or DEL?
pub fn is_control_char(c: char) -> (r: bool)
    ensures
        r == control_char(c),
{
    let u = c as u32;
    u <= 0x1F || u == 0x7F || (0x80 <= u && u <= 0x9F)
}

/// Is `c` one of the characters a file name may not hold?
pub fn is_filename_forbidden_char(c: char) -> (r: bool)
    ensures
        r == filename_forbidden(c),
{
    c == '<' || c == '>' || c == ':' || c == '"' || c == '|' || c == '?' || c == '*' || c == '/'
        || c == '\\' || c == '\0'
}

/// Keeps the chars of `v` that pass the plain filter (or, with
/// `for_filename`, the file-name filter), in order.
fn filter_chars(v: &[char], for_filename: bool) -> (r: Vec<char>)
    ensures
        for_filename ==> r@ == v@.filter(|c: char| filename_char(c)),
        !for_filename ==> r@ == v@.filter(|c: char| plain_char(c)),
{
    let ghost pred: spec_fn(char) -> bool = if for_filename {
        |c: char| filename_char(c)
    } else {
        |c: char| plain_char(c)
    };
    let n = v.len();
    let mut out: Vec<char> = Vec::new();
    let mut i: usize = 0;
    assert(v@.take(0).filter(pred) =~= Seq::<char>::empty()) by {
        reveal(Seq::filter);
    }
    while i < n
        invariant
            n == v@.len(),
            i <= n,
            out@ == v@.take(i as int).filter(pred),
            pred == (if for_filename {
                |c: char| filename_char(c)
            } else {
                |c: char| plain_char(c)
            }),
        decreases n - i,
    {
        let c = v[i];
        let keep = !is_bidi_control(c) && !is_control_char(c) && (!for_filename
            || !is_filename_forbidden_char(c));
        proof {
            reveal(Seq::filter);
            assert(v@.take(i + 1).drop_last() =~= v@.take(i as int));
            assert(v@.take(i + 1).last() == c);
            assert(keep == pred(c));
        }
        if keep {
            out.push(c);
        }
        i = i + 1;
    }
    assert(v@.take(n as int) =~= v@);
    out
}

// ---------------------------------------------------------------------------
// Trimming
// ---------------------------------------------------------------------------

/// `s` without its leading chars that satisfy `p`.
pub open spec fn trim_start_by(s: Seq<char>, p: spec_fn(char) -> bool) -> Seq<char>
    decreases s.len(),
{
    if s.len() > 0 && p(s[0]) {
        trim_start_by(s.drop_first(), p)
    } else {
        s
    }
}

/// `s` without its trailing chars that satisfy `p`.
pub open spec fn trim_end_by(s: Seq<char>, p: spec_fn(char) -> bool) -> Seq<char>
    decreases s.len(),
{
    if s.len() > 0 && p(s.last()) {
        trim_end_by(s.drop_last(), p)
    } else {
        s
    }
}

/// What `str::trim` keeps: `s` without leading and trailing whitespace.
pub open spec fn trim_ws(s: Seq<char>) -> Seq<char> {
    trim_end_by(trim_start_by(s, |c: char| char_white_space(c)), |c: char| char_white_space(c))
}

/// The trimmed sequence is a contiguous part of `s`, and every char of it is a
/// char of `s`.
proof fn lemma_trim_start_sub(s: Seq<char>, p: spec_fn(char) -> bool)
    ensures
        trim_start_by(s, p).len() <= s.len(),
        trim_start_by(s, p) == s.skip(s.len() - trim_start_by(s, p).len()),
    decreases s.len(),
{
    if s.len() > 0 && p(s[0]) {
        lemma_trim_start_sub(s.drop_first(), p);
        let t = trim_start_by(s.drop_first(), p);
        assert(s.drop_first().skip(s.drop_first().len() - t.len()) =~= s.skip(s.len() - t.len()));
    } else {
        assert(s.skip(0) =~= s);
    }
}

/// Trimming the end keeps a prefix.
proof fn lemma_trim_end_sub(s: Seq<char>, p: spec_fn(char) -> bool)
    ensures
        trim_end_by(s, p).len() <= s.len(),
        trim_end_by(s, p) == s.take(trim_end_by(s, p).len() as int),
        trim_end_by(s, p).len() > 0 ==> !p(trim_end_by(s, p).last()),
    decreases s.len(),
{
    if s.len() > 0 && p(s.last()) {
        lemma_trim_end_sub(s.drop_last(), p);
        let t = trim_end_by(s.drop_last(), p);
        assert(s.drop_last().take(t.len() as int) =~= s.take(t.len() as int));
    } else {
        assert(s.take(s.len() as int) =~= s);
    }
}

/// Drops leading and trailing whitespace, as `str::trim` does.
pub(crate) fn trim_whitespace(v: &[char]) -> (r: Vec<char>)
    ensures
        r@ == trim_ws(v@),
{
    let ghost p: spec_fn(char) -> bool = |c: char| char_white_space(c);
    let n = v.len();
    let mut i: usize = 0;
    assert(v@.skip(0) =~= v@);
    while i < n && char_is_whitespace(v[i])
        invariant
            n == v@.len(),
            i <= n,
            p == (|c: char| char_white_space(c)),
            trim_start_by(v@, p) == trim_start_by(v@.skip(i as int), p),
        decreases n - i,
    {
        assert(v@.skip(i as int).drop_first() =~= v@.skip(i + 1));
        i = i + 1;
    }
    let ghost start = v@.skip(i as int);
    let mut j: usize = n;
    assert(start.take((j - i) as int) =~= start);
    while j > i && char_is_whitespace(v[j - 1])
        invariant
            n == v@.len(),
            i <= j <= n,
            start == v@.skip(i as int),
            p == (|c: char| char_white_space(c)),
            trim_end_by(start, p) == trim_end_by(start.take((j - i) as int), p),
        decreases j,
    {
        assert(start.take((j - i) as int).drop_last() =~= start.take((j - 1 - i) as int));
        j = j - 1;
    }
    let mut out: Vec<char> = Vec::new();
    let mut k: usize = i;
    while k < j
        invariant
            n == v@.len(),
            i <= k <= j <= n,
            out@ == v@.subrange(i as int, k as int),
        decreases j - k,
    {
        out.push(v[k]);
        k = k + 1;
        assert(out@ =~= v@.subrange(i as int, k as int));
    }
    proof {
        if i == n {
            assert(start.len() == 0);
        }
        assert(start.take((j - i) as int) =~= v@.subrange(i as int, j as int));
    }
    out
}

/// The chars that `trim_end_matches(['.', ' '])` drops.
pub open spec fn dot_or_space(c: char) -> bool {
    c == '.' || c == ' '
}

/// Drops trailing `.` and ` ` chars.
fn trim_end_dots_spaces(v: &[char]) -> (r: Vec<char>)
    ensures
        r@ == trim_end_by(v@, |c: char| dot_or_space(c)),
{
    let ghost p: spec_fn(char) -> bool = |c: char| dot_or_space(c);
    let n = v.len();
    let mut j: usize = n;
    assert(v@.take(n as int) =~= v@);
    while j > 0 && (v[j - 1] == '.' || v[j - 1] == ' ')
        invariant
            n == v@.len(),
            j <= n,
            p == (|c: char| dot_or_space(c)),
            trim_end_by(v@, p) == trim_end_by(v@.take(j as int), p),
        decreases j,
    {
        assert(v@.take(j as int).drop_last() =~= v@.take(j - 1));
        j = j - 1;
    }
    let mut out: Vec<char> = Vec::new();
    let mut k: usize = 0;
    while k < j
        invariant
            n == v@.len(),
            k <= j <= n,
            out@ == v@.take(k as int),
        decreases j - k,
    {
        out.push(v[k]);
        k = k + 1;
        assert(out@ =~= v@.take(k as int));
    }
    out
}

// ---------------------------------------------------------------------------
// Outside calls
// ---------------------------------------------------------------------------

/// What `str::to_uppercase` returns for a string (Unicode case mapping).
pub uninterp spec fn uppercase_of(s: Seq<char>) -> Seq<char>;

/// `c` is an ASCII character.
pub open spec fn is_ascii_char(c: char) -> bool {
    (c as u32) < 128
}

/// The ASCII upper case of `c`: `a`..`z` become `A`..`Z`, the rest is kept.
pub open spec fn ascii_upper(c: char) -> char {
    if 'a' <= c <= 'z' {
        ((c as u32) - 32) as char
    } else {
        c
    }
}

/// The upper case of `s` as `str::to_uppercase` gives it. Unicode's default
/// case conversion maps each char on its own: a leading ASCII char becomes its
/// ASCII upper case, followed by the upper case of the rest; from the first
/// non-ASCII char on, the Unicode case mapping applies.
pub open spec fn upper_case(s: Seq<char>) -> Seq<char>
    decreases s.len(),
{
    if s.len() == 0 {
        s
    } else if is_ascii_char(s[0]) {
        seq![ascii_upper(s[0])] + upper_case(s.drop_first())
    } else {
        uppercase_of(s)
    }
}

/// Calls `str::to_uppercase`. Claims that the result is `uppercase_of(s)`, and
/// that it is `upper_case(s)`: the conversion its documentation refers to
/// (Unicode's default `toUppercase`) maps the chars one by one, the empty text
/// to itself, and an ASCII char to its ASCII upper case.
#[verifier::external_body]
fn to_uppercase(s: &str) -> (r: String)
    ensures
        r@ == uppercase_of(s@),
        r@ == upper_case(s@),
{
    s.to_uppercase()
}

/// `n` occurs as a contiguous run inside `s`.
pub open spec fn infix_of(n: Seq<char>, s: Seq<char>) -> bool {
    exists|i: int| 0 <= i && i + n.len() <= s.len() && #[trigger] s.subrange(i, i + n.len()) == n
}

/// Scans `s` backwards for its last path component, as `Path::components`
/// documents the normalisation: repeated and trailing `/` are ignored, and a
/// `.` component is dropped unless it starts the path. `acc` holds the chars of
/// the component read so far.
pub open spec fn last_component_from(s: Seq<char>, acc: Seq<char>) -> Seq<char>
    decreases s.len(),
{
    if s.len() == 0 {
        acc
    } else if s.last() == '/' {
        if acc.len() == 0 {
            last_component_from(s.drop_last(), acc)
        } else if acc == seq!['.'] {
            last_component_from(s.drop_last(), Seq::empty())
        } else {
            acc
        }
    } else {
        last_component_from(s.drop_last(), seq![s.last()] + acc)
    }
}

/// The last component of a `/`-separated path (empty for an empty path or
/// the root).
pub open spec fn last_component(s: Seq<char>) -> Seq<char> {
    last_component_from(s, Seq::empty())
}

/// What `Path::file_name` documents for a `/`-separated path: its last
/// component, unless there is none, or it is `.` (the path is the current
/// directory) or `..`.
pub open spec fn file_name_spec(s: Seq<char>) -> Option<Seq<char>> {
    let c = last_component(s);
    if c.len() == 0 || c == seq!['.'] || c == seq!['.', '.'] {
        None
    } else {
        Some(c)
    }
}

/// A path that every platform splits the same way: no `\`, no leading `//`
/// (a Windows UNC or device prefix) and no `:` in its last component (a
/// Windows drive prefix).
pub open spec fn portable_path(s: Seq<char>) -> bool {
    &&& !s.contains('\\')
    &&& !(s.len() >= 2 && s[0] == '/' && s[1] == '/')
    &&& !last_component(s).contains(':')
}

/// An optional `String` as chars.
pub open spec fn opt_chars(o: Option<String>) -> Option<Seq<char>> {
    match o {
        Some(n) => Some(n@),
        None => None,
    }
}

/// Calls `std::path::Path::file_name` on `s` and turns the component into a
/// `String`. Claims what the documentation of `Path::file_name` and
/// `Path::components` says for a path that all platforms split alike
/// (`portable_path`): the last normal component, or nothing. For any other
/// path it claims only that a returned name is a non-empty run of `s` with no
/// `/` in it.
#[verifier::external_body]
fn path_file_name(s: &str) -> (r: Option<String>)
    ensures
        r matches Some(n) ==> n@.len() > 0 && !n@.contains('/') && infix_of(n@, s@),
        portable_path(s@) ==> opt_chars(r) == file_name_spec(s@),
{
    match std::path::Path::new(s).file_name() {
        Some(n) => match n.to_str() {
            Some(t) => Some(t.to_string()),
            None => None,
        },
        None => None,
    }
}

/// Index of the last `.` in `s`, or -1.
pub open spec fn last_dot(s: Seq<char>) -> int
    decreases s.len(),
{
    if s.len() == 0 {
        -1
    } else if s.last() == '.' {
        s.len() - 1
    } else {
        last_dot(s.drop_last())
    }
}

/// The stem of a single file name, as `Path::file_stem` documents it: the
/// whole name if it has no `.` or its only `.` leads, else the part before the
/// last `.`.
pub open spec fn file_stem_spec(name: Seq<char>) -> Seq<char> {
    let k = last_dot(name);
    if k <= 0 {
        name
    } else {
        name.take(k)
    }
}

/// A name with no separator, no drive colon and no trailing `.`: a single
/// normal path component on every platform.
pub open spec fn single_component(s: Seq<char>) -> bool {
    &&& s.len() > 0
    &&& !s.contains('/')
    &&& !s.contains('\\')
    &&& !s.contains(':')
    &&& s.last() != '.'
}

/// Calls `std::path::Path::file_stem` on a single component and turns it into a
/// `String`. Claims the documented stem.
#[verifier::external_body]
fn path_file_stem(s: &str) -> (r: Option<String>)
    requires
        single_component(s@),
    ensures
        r.is_some(),
        r.unwrap()@ == file_stem_spec(s@),
{
    match std::path::Path::new(s).file_stem() {
        Some(n) => match n.to_str() {
            Some(t) => Some(t.to_string()),
            None => None,
        },
        None => None,
    }
}

// ---------------------------------------------------------------------------
// Specifications of the sanitisers
// ---------------------------------------------------------------------------

/// The name used when nothing of a device name survives.
pub open spec fn unnamed_label() -> Seq<char> {
    seq!['<', 'u', 'n', 'n', 'a', 'm', 'e', 'd', '>']
}

/// The name used when nothing of a file name survives.
pub open spec fn file_label() -> Seq<char> {
    seq!['f', 'i', 'l', 'e']
}

/// At most the first `n` elements of `s`.
pub open spec fn take_at_most(s: Seq<char>, n: int) -> Seq<char> {
    if s.len() <= n {
        s
    } else {
        s.take(n)
    }
}

/// A sanitised device name: controls and bidi controls dropped, at most 64
/// chars kept, surrounding whitespace trimmed, `<unnamed>` if nothing is left.
pub open spec fn device_name_spec(s: Seq<char>) -> Seq<char> {
    let t = trim_ws(take_at_most(s.filter(|c: char| plain_char(c)), MAX_DEVICE_NAME_CODEPOINTS as int));
    if t.len() == 0 {
        unnamed_label()
    } else {
        t
    }
}

/// A sanitised log field: controls and bidi controls dropped; if more than 100
/// UTF-8 bytes are left, the longest prefix within 100 bytes followed by `...`.
pub open spec fn log_field_spec(s: Seq<char>) -> Seq<char> {
    let f = s.filter(|c: char| plain_char(c));
    if utf8_len(f) <= MAX_LOG_FIELD_BYTES {
        f
    } else {
        truncate_to_bytes_spec(f, MAX_LOG_FIELD_BYTES as int) + seq!['.', '.', '.']
    }
}

/// Windows device names that cannot be file names: CON, PRN, AUX, NUL, COM0-9
/// and LPT0-9 (compared in upper case).
pub open spec fn windows_reserved(u: Seq<char>) -> bool {
    ||| u == seq!['C', 'O', 'N']
    ||| u == seq!['P', 'R', 'N']
    ||| u == seq!['A', 'U', 'X']
    ||| u == seq!['N', 'U', 'L']
    ||| (u.len() == 4 && (u.take(3) == seq!['C', 'O', 'M'] || u.take(3) == seq!['L', 'P', 'T'])
        && '0' <= u[3] <= '9')
}

/// A file name with forbidden chars dropped, cut to 200 UTF-8 bytes and
/// stripped of trailing dots and spaces.
pub open spec fn filename_body(b: Seq<char>) -> Seq<char> {
    trim_end_by(
        truncate_to_bytes_spec(b.filter(|c: char| filename_char(c)), MAX_FILENAME_BYTES as int),
        |c: char| dot_or_space(c),
    )
}

/// A sanitised base name: `file` if nothing survives, `_` prepended when its
/// stem is a reserved Windows device name, else the cleaned name itself.
pub open spec fn basename_spec(b: Seq<char>) -> Seq<char> {
    let t = filename_body(b);
    if t.len() == 0 {
        file_label()
    } else if windows_reserved(upper_case(file_stem_spec(t))) {
        seq!['_'] + t
    } else {
        t
    }
}

/// Every `\` of `s` replaced by `/`.
pub open spec fn backslash_to_slash(s: Seq<char>) -> Seq<char> {
    s.map_values(|c: char| if c == '\\' { '/' } else { c })
}

/// The base names `sanitize_filename` may work on for input `s`: `s` itself,
/// or a non-empty run without `/` of `s` with `\` read as `/`.
pub open spec fn base_candidate(s: Seq<char>, b: Seq<char>) -> bool {
    b == s || (b.len() > 0 && !b.contains('/') && infix_of(b, backslash_to_slash(s)))
}

// ---------------------------------------------------------------------------
// Properties
// ---------------------------------------------------------------------------

/// A prefix of a sequence is no longer in UTF-8 than the sequence.
proof fn lemma_utf8_len_prefix(s: Seq<char>, k: int)
    requires
        0 <= k <= s.len(),
    ensures
        utf8_len(s.take(k)) <= utf8_len(s),
{
    lemma_utf8_len_add(s.take(k), s.skip(k));
    assert(s.take(k) + s.skip(k) =~= s);
}

/// All chars of a filtered sequence satisfy the filter.
proof fn lemma_filter_all(s: Seq<char>, p: spec_fn(char) -> bool)
    ensures
        forall|i: int| 0 <= i < s.filter(p).len() ==> p(#[trigger] s.filter(p)[i]),
{
    assert forall|i: int| 0 <= i < s.filter(p).len() implies p(#[trigger] s.filter(p)[i]) by {
        s.lemma_filter_pred(p, i);
    }
}

/// A sanitised device name is never empty, holds at most 64 chars and no
/// control or bidi-control char.
pub proof fn lemma_device_name_clean(s: Seq<char>)
    ensures
        device_name_spec(s).len() > 0,
        device_name_spec(s).len() <= MAX_DEVICE_NAME_CODEPOINTS,
        forall|i: int| 0 <= i < device_name_spec(s).len() ==> plain_char(#[trigger] device_name_spec(s)[i]),
{
    let ws: spec_fn(char) -> bool = |c: char| char_white_space(c);
    let f = s.filter(|c: char| plain_char(c));
    lemma_filter_all(s, |c: char| plain_char(c));
    let a = take_at_most(f, MAX_DEVICE_NAME_CODEPOINTS as int);
    let b = trim_start_by(a, ws);
    lemma_trim_start_sub(a, ws);
    lemma_trim_end_sub(b, ws);
    let t = trim_ws(a);
    assert(t == trim_end_by(b, ws));
    assert forall|i: int| 0 <= i < t.len() implies plain_char(#[trigger] t[i]) by {
        assert(t[i] == b[i]);
        assert(b[i] == a[a.len() - b.len() + i]);
        assert(a[a.len() - b.len() + i] == f[a.len() - b.len() + i]);
    }
}

/// Filtering keeps a sequence whose every element passes.
proof fn lemma_filter_keeps_all(s: Seq<char>, p: spec_fn(char) -> bool)
    requires
        forall|i: int| 0 <= i < s.len() ==> p(#[trigger] s[i]),
    ensures
        s.filter(p) == s,
    decreases s.len(),
{
    reveal(Seq::filter);
    if s.len() > 0 {
        lemma_filter_keeps_all(s.drop_last(), p);
        assert(p(s[s.len() - 1]));
        assert(s.drop_last().push(s.last()) =~= s);
    } else {
        assert(s.filter(p) =~= s);
    }
}

/// A sequence trimmed at the start no longer starts with a trimmed char.
proof fn lemma_trim_start_first(s: Seq<char>, p: spec_fn(char) -> bool)
    ensures
        trim_start_by(s, p).len() > 0 ==> !p(trim_start_by(s, p)[0]),
    decreases s.len(),
{
    if s.len() > 0 && p(s[0]) {
        lemma_trim_start_first(s.drop_first(), p);
    }
}

/// Trimming whitespace twice is trimming it once.
proof fn lemma_trim_ws_idempotent(s: Seq<char>)
    ensures
        trim_ws(trim_ws(s)) == trim_ws(s),
{
    let ws: spec_fn(char) -> bool = |c: char| char_white_space(c);
    let b = trim_start_by(s, ws);
    lemma_trim_start_first(s, ws);
    lemma_trim_end_sub(b, ws);
    let t = trim_ws(s);
    assert(t == trim_end_by(b, ws));
    if t.len() > 0 {
        assert(t[0] == b[0]);
        assert(trim_start_by(t, ws) == t);
        assert(trim_end_by(t, ws) == t);
    } else {
        assert(trim_start_by(t, ws) == t);
        assert(trim_end_by(t, ws) == t);
    }
}

/// Sanitising a device name twice gives the same name as sanitising it once:
/// a sanitised name is kept as it is.
pub proof fn lemma_device_name_idempotent(s: Seq<char>)
    ensures
        device_name_spec(device_name_spec(s)) == device_name_spec(s),
{
    let d = device_name_spec(s);
    let plain: spec_fn(char) -> bool = |c: char| plain_char(c);
    lemma_device_name_clean(s);
    lemma_filter_keeps_all(d, plain);
    assert(take_at_most(d, MAX_DEVICE_NAME_CODEPOINTS as int) == d);
    let t = trim_ws(take_at_most(s.filter(plain), MAX_DEVICE_NAME_CODEPOINTS as int));
    if t.len() == 0 {
        let u = unnamed_label();
        let ws: spec_fn(char) -> bool = |c: char| char_white_space(c);
        assert(d == u);
        assert(!ws(u[0]));
        assert(!ws(u.last()));
        assert(trim_start_by(u, ws) == u);
        assert(trim_end_by(u, ws) == u);
        assert(trim_ws(u) == u);
    } else {
        assert(d == t);
        lemma_trim_ws_idempotent(take_at_most(s.filter(plain), MAX_DEVICE_NAME_CODEPOINTS as int));
    }
}

/// The last `.` of a sequence is one of its indices, or -1.
proof fn lemma_last_dot_bound(s: Seq<char>)
    ensures
        -1 <= last_dot(s) < s.len(),
    decreases s.len(),
{
    if s.len() > 0 && s.last() != '.' {
        lemma_last_dot_bound(s.drop_last());
    }
}

/// A path with no `/` is its own last component.
proof fn lemma_last_component_plain(s: Seq<char>, acc: Seq<char>)
    requires
        !s.contains('/'),
    ensures
        last_component_from(s, acc) == s + acc,
    decreases s.len(),
{
    if s.len() > 0 {
        assert(s.drop_last().contains('/') ==> s.contains('/'));
        lemma_last_component_plain(s.drop_last(), seq![s.last()] + acc);
        assert(s.drop_last() + (seq![s.last()] + acc) =~= s + acc);
    } else {
        assert(s + acc =~= acc);
    }
}

/// A clean name within the byte limit is its own cleaned body.
proof fn lemma_body_of_clean(r: Seq<char>)
    requires
        r.len() > 0,
        forall|i: int| 0 <= i < r.len() ==> filename_char(#[trigger] r[i]),
        !dot_or_space(r.last()),
        utf8_len(r) <= MAX_FILENAME_BYTES,
    ensures
        filename_body(r) == r,
{
    lemma_filter_keeps_all(r, |c: char| filename_char(c));
    lemma_truncate_fits(r, MAX_FILENAME_BYTES as int);
}

/// A sanitised name is its own file name: it has no separator, no `:`, and
/// is neither empty, `.` nor `..`.
proof fn lemma_clean_is_own_file_name(r: Seq<char>)
    requires
        r.len() > 0,
        forall|i: int| 0 <= i < r.len() ==> filename_char(#[trigger] r[i]),
        !dot_or_space(r.last()),
    ensures
        backslash_to_slash(r) == r,
        portable_path(r),
        filename_base(r) == r,
{
    assert forall|i: int| 0 <= i < r.len() implies r[i] != '/' && r[i] != '\\' && r[i] != ':' by {
        assert(filename_char(r[i]));
    }
    assert(backslash_to_slash(r) =~= r);
    lemma_last_component_plain(r, Seq::empty());
    assert(r + Seq::<char>::empty() =~= r);
    assert(last_component(r) == r);
    assert(r.last() != '.');
    assert(r != seq!['.']);
    assert(r != seq!['.', '.']);
}

/// Sanitising a file name again changes nothing when the sanitised name is
/// within 200 bytes: it is then its own file name (on every platform) and
/// cleaning it keeps it. (A `_` put in front of a reserved name can add a
/// byte past 200, and a second pass then cuts it.)
pub proof fn lemma_filename_idempotent(b: Seq<char>)
    requires
        utf8_len(basename_spec(b)) <= MAX_FILENAME_BYTES,
    ensures
        portable_path(backslash_to_slash(basename_spec(b))),
        basename_spec(filename_base(basename_spec(b))) == basename_spec(b),
{
    let r = basename_spec(b);
    lemma_basename_clean(b);
    lemma_clean_is_own_file_name(r);
    lemma_body_of_clean(r);
    let t = filename_body(b);
    if t.len() == 0 {
        assert(r == file_label());
        assert(file_stem_spec(r) == r) by {
            reveal_with_fuel(last_dot, 5);
        }
        assert(upper_case(r) =~= seq!['F', 'I', 'L', 'E']) by {
            reveal_with_fuel(upper_case, 5);
        }
    } else if windows_reserved(upper_case(file_stem_spec(t))) {
        assert(r == seq!['_'] + t);
        assert(r[0] == '_');
        let st = file_stem_spec(r);
        lemma_last_dot_bound(r);
        assert(st.len() > 0 && st[0] == '_');
        assert(is_ascii_char(st[0]));
        assert(upper_case(st)[0] == '_');
    } else {
        assert(r == t);
    }
}

/// A sanitised log field holds no control or bidi-control char and at most
/// 103 UTF-8 bytes.
pub proof fn lemma_log_field_clean(s: Seq<char>)
    ensures
        utf8_len(log_field_spec(s)) <= MAX_LOG_FIELD_BYTES + 3,
        forall|i: int| 0 <= i < log_field_spec(s).len() ==> plain_char(#[trigger] log_field_spec(s)[i]),
{
    let f = s.filter(|c: char| plain_char(c));
    lemma_filter_all(s, |c: char| plain_char(c));
    if utf8_len(f) > MAX_LOG_FIELD_BYTES {
        let t = truncate_to_bytes_spec(f, MAX_LOG_FIELD_BYTES as int);
        lemma_truncate_bound(f, MAX_LOG_FIELD_BYTES as int);
        lemma_utf8_len_add(t, seq!['.', '.', '.']);
        assert(utf8_len(seq!['.', '.', '.']) == 3) by {
            lemma_utf8_len_single('.');
            lemma_utf8_len_push(seq!['.'], '.');
            assert(seq!['.'].push('.') =~= seq!['.', '.']);
            lemma_utf8_len_push(seq!['.', '.'], '.');
            assert(seq!['.', '.'].push('.') =~= seq!['.', '.', '.']);
        }
        let r = t + seq!['.', '.', '.'];
        assert forall|i: int| 0 <= i < r.len() implies plain_char(#[trigger] r[i]) by {
            if i < t.len() {
                assert(r[i] == f[i]);
            }
        }
    }
}

/// A sanitised base name is never empty, holds only chars allowed in file
/// names, ends in neither `.` nor ` `, and has at most 201 UTF-8 bytes (200
/// for the name and one for a `_` in front of a reserved name).
pub proof fn lemma_basename_clean(b: Seq<char>)
    ensures
        basename_spec(b).len() > 0,
        forall|i: int| 0 <= i < basename_spec(b).len() ==> filename_char(#[trigger] basename_spec(b)[i]),
        !dot_or_space(basename_spec(b).last()),
        utf8_len(basename_spec(b)) <= MAX_FILENAME_BYTES + 1,
{
    let ds: spec_fn(char) -> bool = |c: char| dot_or_space(c);
    let f = b.filter(|c: char| filename_char(c));
    lemma_filter_all(b, |c: char| filename_char(c));
    let u = truncate_to_bytes_spec(f, MAX_FILENAME_BYTES as int);
    lemma_truncate_bound(f, MAX_FILENAME_BYTES as int);
    let t = trim_end_by(u, ds);
    lemma_trim_end_sub(u, ds);
    assert(t == filename_body(b));
    lemma_utf8_len_prefix(u, t.len() as int);
    assert forall|i: int| 0 <= i < t.len() implies filename_char(#[trigger] t[i]) by {
        assert(t[i] == u[i]);
        assert(u[i] == f[i]);
    }
    let r = basename_spec(b);
    if t.len() == 0 {
        assert(utf8_len(file_label()) == 4) by {
            reveal_with_fuel(utf8_len, 5);
        }
    } else if windows_reserved(upper_case(file_stem_spec(t))) {
        lemma_utf8_len_add(seq!['_'], t);
        lemma_utf8_len_single('_');
        assert forall|i: int| 0 <= i < r.len() implies filename_char(#[trigger] r[i]) by {
            if i > 0 {
                assert(r[i] == t[i - 1]);
            }
        }
        assert(r.last() == t.last());
    }
}

// ---------------------------------------------------------------------------
// The sanitisers
// ---------------------------------------------------------------------------

/// A `String` holding `<unnamed>`.
fn unnamed() -> (r: String)
    ensures
        r@ == unnamed_label(),
{
    let r = "<unnamed>".to_owned();
    proof {
        reveal_strlit("<unnamed>");
    }
    r
}

/// A `String` holding `file`.
fn file_fallback() -> (r: String)
    ensures
        r@ == file_label(),
{
    let r = "file".to_owned();
    proof {
        reveal_strlit("file");
    }
    r
}

/// Sanitises a device name received from a peer or typed by the user: drops
/// control and bidi-control chars, keeps at most 64 chars, trims surrounding
/// whitespace and falls back to `<unnamed>`.
pub fn sanitize_device_name(s: &str) -> (r: String)
    ensures
        r@ == device_name_spec(s@),
        r@.len() > 0,
        r@.len() <= MAX_DEVICE_NAME_CODEPOINTS,
        forall|i: int| 0 <= i < r@.len() ==> plain_char(#[trigger] r@[i]),
{
    let v = str_chars(s);
    let mut f = filter_chars(v.as_slice(), false);
    let ghost filtered = f@;
    f.truncate(MAX_DEVICE_NAME_CODEPOINTS);
    assert(f@ == take_at_most(filtered, MAX_DEVICE_NAME_CODEPOINTS as int));
    let t = trim_whitespace(f.as_slice());
    proof {
        lemma_device_name_clean(s@);
    }
    if t.len() == 0 {
        unnamed()
    } else {
        string_from_chars(t.as_slice())
    }
}

/// The longest prefix of `s` that fits in `max_bytes` UTF-8 bytes; never cuts
/// a char in two.
pub fn truncate_to_bytes(s: &str, max_bytes: usize) -> (r: String)
    ensures
        r@ == truncate_to_bytes_spec(s@, max_bytes as int),
        utf8_len(r@) <= max_bytes,
        utf8_len(s@) <= max_bytes ==> r@ == s@,
{
    let v = str_chars(s);
    let t = truncate_chars_to_bytes(v.as_slice(), max_bytes);
    proof {
        lemma_truncate_bound(s@, max_bytes as int);
        if utf8_len(s@) <= max_bytes {
            lemma_truncate_fits(s@, max_bytes as int);
        }
    }
    string_from_chars(t.as_slice())
}

/// Sanitises a string before it is logged: drops control and bidi-control
/// chars and, past 100 UTF-8 bytes, cuts it and appends `...`.
pub fn sanitize_log_field(s: &str) -> (r: String)
    ensures
        r@ == log_field_spec(s@),
        utf8_len(r@) <= MAX_LOG_FIELD_BYTES + 3,
        forall|i: int| 0 <= i < r@.len() ==> plain_char(#[trigger] r@[i]),
{
    let v = str_chars(s);
    let f = filter_chars(v.as_slice(), false);
    let t = truncate_chars_to_bytes(f.as_slice(), MAX_LOG_FIELD_BYTES);
    proof {
        lemma_log_field_clean(s@);
        lemma_truncate_bound(f@, MAX_LOG_FIELD_BYTES as int);
        if utf8_len(f@) <= MAX_LOG_FIELD_BYTES {
            lemma_truncate_fits(f@, MAX_LOG_FIELD_BYTES as int);
        }
    }
    if t.len() == f.len() {
        proof {
            assert(f@.take(f@.len() as int) =~= f@);
        }
        string_from_chars(f.as_slice())
    } else {
        let mut out = string_from_chars(t.as_slice());
        push_char(&mut out, '.');
        push_char(&mut out, '.');
        push_char(&mut out, '.');
        proof {
            assert(out@ =~= t@ + seq!['.', '.', '.']);
        }
        out
    }
}

/// Is the (upper-cased) stem a reserved Windows device name?
fn is_windows_reserved(u: &[char]) -> (r: bool)
    ensures
        r == windows_reserved(u@),
{
    let n = u.len();
    if n == 3 {
        let r = (u[0] == 'C' && u[1] == 'O' && u[2] == 'N') || (u[0] == 'P' && u[1] == 'R' && u[2]
            == 'N') || (u[0] == 'A' && u[1] == 'U' && u[2] == 'X') || (u[0] == 'N' && u[1] == 'U'
            && u[2] == 'L');
        proof {
            if u[0] == 'C' && u[1] == 'O' && u[2] == 'N' {
                assert(u@ =~= seq!['C', 'O', 'N']);
            }
            if u[0] == 'P' && u[1] == 'R' && u[2] == 'N' {
                assert(u@ =~= seq!['P', 'R', 'N']);
            }
            if u[0] == 'A' && u[1] == 'U' && u[2] == 'X' {
                assert(u@ =~= seq!['A', 'U', 'X']);
            }
            if u[0] == 'N' && u[1] == 'U' && u[2] == 'L' {
                assert(u@ =~= seq!['N', 'U', 'L']);
            }
        }
        r
    } else if n == 4 {
        let com = u[0] == 'C' && u[1] == 'O' && u[2] == 'M';
        let lpt = u[0] == 'L' && u[1] == 'P' && u[2] == 'T';
        let digit = '0' <= u[3] && u[3] <= '9';
        proof {
            if com {
                assert(u@.take(3) =~= seq!['C', 'O', 'M']);
            }
            if lpt {
                assert(u@.take(3) =~= seq!['L', 'P', 'T']);
            }
            if u@.take(3) == seq!['C', 'O', 'M'] {
                assert(u@.take(3)[0] == 'C');
            }
            if u@.take(3) == seq!['L', 'P', 'T'] {
                assert(u@.take(3)[0] == 'L');
            }
        }
        (com || lpt) && digit
    } else {
        false
    }
}

/// Sanitises a bare file name (what `sanitize_filename` keeps of a path):
/// drops chars not allowed in file names, cuts to 200 UTF-8 bytes, strips
/// trailing dots and spaces, falls back to `file`, and puts `_` in front of a
/// reserved Windows device name.
pub fn sanitize_basename(name: &str) -> (r: String)
    ensures
        r@ == basename_spec(name@),
        r@.len() > 0,
        forall|i: int| 0 <= i < r@.len() ==> filename_char(#[trigger] r@[i]),
        !dot_or_space(r@.last()),
        utf8_len(r@) <= MAX_FILENAME_BYTES + 1,
{
    proof {
        lemma_basename_clean(name@);
    }
    let v = str_chars(name);
    let f = filter_chars(v.as_slice(), true);
    let u = truncate_chars_to_bytes(f.as_slice(), MAX_FILENAME_BYTES);
    let t = trim_end_dots_spaces(u.as_slice());
    assert(t@ == filename_body(name@));
    if t.len() == 0 {
        return file_fallback();
    }
    let ts = string_from_chars(t.as_slice());
    proof {
        let ds: spec_fn(char) -> bool = |c: char| dot_or_space(c);
        lemma_filter_all(name@, |c: char| filename_char(c));
        lemma_truncate_bound(f@, MAX_FILENAME_BYTES as int);
        lemma_trim_end_sub(u@, ds);
        assert forall|i: int| 0 <= i < t@.len() implies filename_char(#[trigger] t@[i]) by {
            assert(t@[i] == u@[i]);
            assert(u@[i] == f@[i]);
        }
        assert(!t@.contains('/'));
        assert(!t@.contains('\\'));
        assert(!t@.contains(':'));
    }
    let stem = match path_file_stem(ts.as_str()) {
        Some(x) => x,
        None => ts.clone(),
    };
    let upper = to_uppercase(stem.as_str());
    let uv = str_chars(upper.as_str());
    if is_windows_reserved(uv.as_slice()) {
        let mut out: Vec<char> = Vec::new();
        out.push('_');
        let mut k: usize = 0;
        while k < t.len()
            invariant
                k <= t@.len(),
                out@ == seq!['_'] + t@.take(k as int),
            decreases t@.len() - k,
        {
            out.push(t[k]);
            k = k + 1;
            assert(out@ =~= seq!['_'] + t@.take(k as int));
        }
        assert(t@.take(t@.len() as int) =~= t@);
        string_from_chars(out.as_slice())
    } else {
        ts
    }
}

/// `v` with every `\` replaced by `/`.
fn backslashes_to_slashes(v: &[char]) -> (r: Vec<char>)
    ensures
        r@ == backslash_to_slash(v@),
{
    let n = v.len();
    let mut out: Vec<char> = Vec::new();
    let mut i: usize = 0;
    while i < n
        invariant
            n == v@.len(),
            i <= n,
            out@ == backslash_to_slash(v@.take(i as int)),
        decreases n - i,
    {
        let c = v[i];
        out.push(if c == '\\' { '/' } else { c });
        i = i + 1;
        assert(out@ =~= backslash_to_slash(v@.take(i as int)));
    }
    assert(v@.take(n as int) =~= v@);
    out
}

/// The base name `sanitize_filename` cleans for input `s`: the file name of
/// `s` with `\` read as `/`, or `s` itself when that has none.
pub open spec fn filename_base(s: Seq<char>) -> Seq<char> {
    match file_name_spec(backslash_to_slash(s)) {
        Some(b) => b,
        None => s,
    }
}

/// Sanitises a file name received from a peer: keeps the last path component
/// (with `\` read as a separator; the whole input when there is none), then
/// cleans it as `sanitize_basename` does. For a path whose last component
/// holds a `:`, or that starts with two separators, the platform's own path
/// rules pick the component, and only its being one of the candidates is
/// stated.
pub fn sanitize_filename(s: &str) -> (r: String)
    ensures
        portable_path(backslash_to_slash(s@)) ==> r@ == basename_spec(filename_base(s@)),
        exists|b: Seq<char>| base_candidate(s@, b) && r@ == basename_spec(b),
        r@.len() > 0,
        forall|i: int| 0 <= i < r@.len() ==> filename_char(#[trigger] r@[i]),
        !dot_or_space(r@.last()),
        utf8_len(r@) <= MAX_FILENAME_BYTES + 1,
{
    let v = str_chars(s);
    let nv = backslashes_to_slashes(v.as_slice());
    let normalized = string_from_chars(nv.as_slice());
    match path_file_name(normalized.as_str()) {
        Some(n) => {
            let r = sanitize_basename(n.as_str());
            assert(base_candidate(s@, n@));
            r
        },
        None => {
            let r = sanitize_basename(s);
            assert(base_candidate(s@, s@));
            r
        },
    }
}

} // verus!
