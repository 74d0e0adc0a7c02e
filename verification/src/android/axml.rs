//! Manifest reading: the package name and launcher activity.
//!
//! Full binary AXML is not decoded. A small text manifest
//! (`package=...` / `activity=...` lines) is read; of a binary manifest only a
//! `com.`-style package token is picked out, and otherwise callers fall back
//! on DEX heuristics.
use vstd::prelude::*;
use crate::android::dex::{text_of, utf8_lossy};
use crate::android::error::{AndroidError, ErrView};
use crate::memory::le_word;
use crate::text::chars_of;

verus! {

// ── Characters ────────────────────────────────────────────────────────

/// `char::is_whitespace`: the Unicode `White_Space` property.
pub open spec fn is_white_space(c: char) -> bool {
    let u = c as u32;
    (0x09 <= u <= 0x0D) || u == 0x20 || u == 0x85 || u == 0xA0 || u == 0x1680 || (0x2000 <= u <= 0x200A) || u
        == 0x2028 || u == 0x2029 || u == 0x202F || u == 0x205F || u == 0x3000
}

fn is_white_space_exec(c: char) -> (r: bool)
    ensures
        r == is_white_space(c),
{
    let u = c as u32;
    (0x09 <= u && u <= 0x0D) || u == 0x20 || u == 0x85 || u == 0xA0 || u == 0x1680 || (0x2000 <= u && u <= 0x200A)
        || u == 0x2028 || u == 0x2029 || u == 0x202F || u == 0x205F || u == 0x3000
}

/// `s` without leading white space.
pub open spec fn trim_start(s: Seq<char>) -> Seq<char>
    decreases s.len(),
{
    if s.len() > 0 && is_white_space(s[0]) {
        trim_start(s.drop_first())
    } else {
        s
    }
}

/// `s` without trailing white space.
pub open spec fn trim_end(s: Seq<char>) -> Seq<char>
    decreases s.len(),
{
    if s.len() > 0 && is_white_space(s.last()) {
        trim_end(s.drop_last())
    } else {
        s
    }
}

/// `str::trim`.
pub open spec fn trim(s: Seq<char>) -> Seq<char> {
    trim_end(trim_start(s))
}

pub open spec fn starts_with(s: Seq<char>, p: Seq<char>) -> bool {
    p.len() <= s.len() && s.subrange(0, p.len() as int) == p
}

// ── Text manifest ─────────────────────────────────────────────────────

/// The package and activity after one more manifest line.
pub open spec fn apply_line(line: Seq<char>, p: Option<Seq<char>>, a: Option<Seq<char>>) -> (
    Option<Seq<char>>,
    Option<Seq<char>>,
) {
    let l = trim(line);
    if starts_with(l, "package="@) {
        (Some(trim(l.skip(8))), a)
    } else if starts_with(l, "activity="@) {
        (p, Some(trim(l.skip(9))))
    } else {
        (p, a)
    }
}

/// Reading `t` up to its last newline: the unfinished last line and the
/// package and activity so far.
pub open spec fn scan_lines(t: Seq<char>) -> (Seq<char>, Option<Seq<char>>, Option<Seq<char>>)
    decreases t.len(),
{
    if t.len() == 0 {
        (Seq::empty(), None, None)
    } else {
        let (cur, p, a) = scan_lines(t.drop_last());
        if t.last() == '\n' {
            let (p2, a2) = apply_line(cur, p, a);
            (Seq::empty(), p2, a2)
        } else {
            (cur.push(t.last()), p, a)
        }
    }
}

/// Characters without a newline pass into the current line.
pub(crate) proof fn lemma_scan_line_chars(x: Seq<char>, l: Seq<char>)
    requires
        forall|i: int| 0 <= i < l.len() ==> #[trigger] l[i] != '\n',
    ensures
        scan_lines(x + l) == (scan_lines(x).0 + l, scan_lines(x).1, scan_lines(x).2),
    decreases l.len(),
{
    if l.len() == 0 {
        assert(x + l =~= x);
        assert(scan_lines(x).0 + l =~= scan_lines(x).0);
    } else {
        lemma_scan_line_chars(x, l.drop_last());
        assert((x + l).drop_last() =~= x + l.drop_last());
        assert((x + l).last() == l.last());
        assert(l.last() == l[l.len() - 1]);
        assert((scan_lines(x).0 + l.drop_last()).push(l.last()) =~= scan_lines(x).0 + l);
    }
}

/// One whole line (no newline inside, then a newline) applied to what was
/// read before it.
pub(crate) proof fn lemma_scan_line(x: Seq<char>, l: Seq<char>)
    requires
        scan_lines(x).0.len() == 0,
        forall|i: int| 0 <= i < l.len() ==> #[trigger] l[i] != '\n',
    ensures
        scan_lines(x + l.push('\n')) == ({
            let (p, a) = apply_line(l, scan_lines(x).1, scan_lines(x).2);
            (Seq::<char>::empty(), p, a)
        }),
{
    lemma_scan_line_chars(x, l);
    assert((x + l.push('\n')).drop_last() =~= x + l);
    assert(scan_lines(x).0 + l =~= l);
}

/// The last `package=` and `activity=` values of a text manifest, each line
/// trimmed.
pub open spec fn text_manifest(t: Seq<char>) -> (Option<Seq<char>>, Option<Seq<char>>) {
    let (cur, p, a) = scan_lines(t);
    apply_line(cur, p, a)
}

// ── Binary manifest ───────────────────────────────────────────────────

/// Characters that may stand in a package token.
pub open spec fn is_token_char(c: char) -> bool {
    ('0' <= c <= '9') || ('A' <= c <= 'Z') || ('a' <= c <= 'z') || c == '.' || c == '_'
}

/// A token that looks like a package name.
pub open spec fn is_package_token(t: Seq<char>) -> bool {
    starts_with(t, "com."@) && t.len() > 5
}

/// Reading `t`: the current token and the first package token found.
pub open spec fn scan_tokens(t: Seq<char>) -> (Seq<char>, Option<Seq<char>>)
    decreases t.len(),
{
    if t.len() == 0 {
        (Seq::empty(), None)
    } else {
        let (cur, found) = scan_tokens(t.drop_last());
        if found is Some {
            (cur, found)
        } else if is_token_char(t.last()) {
            (cur.push(t.last()), None)
        } else if is_package_token(cur) {
            (cur, Some(cur))
        } else {
            (Seq::empty(), None)
        }
    }
}

/// The first token of `t` that looks like a package name.
pub open spec fn package_token(t: Seq<char>) -> Option<Seq<char>> {
    let (cur, found) = scan_tokens(t);
    if found is Some {
        found
    } else if is_package_token(cur) {
        Some(cur)
    } else {
        None
    }
}

pub open spec fn bytes_start(d: Seq<u8>, p: Seq<char>) -> bool {
    p.len() <= d.len() && forall|i: int| 0 <= i < p.len() ==> d[i] as char == #[trigger] p[i]
}

/// What `parse_package_and_launcher` makes of a manifest.
pub open spec fn manifest_spec(d: Seq<u8>) -> Result<(Seq<char>, Option<Seq<char>>), ErrView> {
    if d.len() == 0 {
        Err(ErrView::Manifest("empty"@))
    } else if bytes_start(d, "package="@) || bytes_start(d, "#nekodroid-manifest"@) {
        let (p, a) = text_manifest(text_of(d));
        match p {
            Some(p) => Ok((p, a)),
            None => Err(ErrView::Manifest("no package="@)),
        }
    } else if d.len() >= 8 && le_word(d[0], d[1], d[2], d[3]) == 0x0008_0003 {
        match package_token(text_of(d)) {
            Some(p) => Ok((p, None)),
            None => Err(ErrView::Manifest("binary AXML present but package not extracted; using DEX heuristics"@)),
        }
    } else {
        Err(ErrView::Manifest("unrecognized manifest format"@))
    }
}

// ── Code ──────────────────────────────────────────────────────────────

fn trim_exec(s: &[char]) -> (r: Vec<char>)
    ensures
        r@ == trim(s@),
{
    let n = s.len();
    let mut i: usize = 0;
    assert(s@.subrange(0, n as int) =~= s@);
    while i < n && is_white_space_exec(s[i])
        invariant
            n == s@.len(),
            i <= n,
            trim_start(s@) == trim_start(s@.subrange(i as int, n as int)),
        decreases n - i,
    {
        assert(s@.subrange(i as int, n as int).drop_first() =~= s@.subrange(i + 1, n as int));
        i = i + 1;
    }
    assert(trim_start(s@.subrange(i as int, n as int)) == s@.subrange(i as int, n as int));
    let mut j: usize = n;
    while j > i && is_white_space_exec(s[j - 1])
        invariant
            n == s@.len(),
            i <= j <= n,
            trim(s@) == trim_end(s@.subrange(i as int, j as int)),
        decreases j,
    {
        assert(s@.subrange(i as int, j as int).drop_last() =~= s@.subrange(i as int, j - 1));
        j = j - 1;
    }
    let mut out: Vec<char> = Vec::new();
    let mut k = i;
    while k < j
        invariant
            i <= k <= j <= n,
            n == s@.len(),
            out@ == s@.subrange(i as int, k as int),
        decreases j - k,
    {
        out.push(s[k]);
        k = k + 1;
        assert(out@ =~= s@.subrange(i as int, k as int));
    }
    out
}

fn starts_with_exec(s: &[char], p: &str) -> (r: bool)
    ensures
        r == starts_with(s@, p@),
{
    let pc = chars_of(p);
    if pc.len() > s.len() {
        return false;
    }
    let mut i: usize = 0;
    while i < pc.len()
        invariant
            pc@ == p@,
            pc.len() <= s.len(),
            i <= pc.len(),
            forall|k: int| 0 <= k < i ==> s@[k] == pc@[k],
        decreases pc.len() - i,
    {
        if s[i] != pc[i] {
            assert(s@.subrange(0, p@.len() as int)[i as int] != p@[i as int]);
            return false;
        }
        i = i + 1;
    }
    assert(s@.subrange(0, p@.len() as int) =~= p@);
    true
}

fn string_of_chars(c: &[char]) -> (r: String)
    ensures
        r@ == c@,
{
    let mut s = String::new();
    let mut i: usize = 0;
    while i < c.len()
        invariant
            i <= c.len(),
            s@ == c@.take(i as int),
        decreases c.len() - i,
    {
        crate::text::push_char(&mut s, c[i]);
        i = i + 1;
        assert(s@ =~= c@.take(i as int));
    }
    assert(c@.take(c@.len() as int) =~= c@);
    s
}

fn apply_line_exec(line: &Vec<char>, p: &mut Option<Vec<char>>, a: &mut Option<Vec<char>>)
    ensures
        apply_line(line@, opt_chars(*old(p)), opt_chars(*old(a))) == (opt_chars(*final(p)), opt_chars(*final(a))),
{
    let l = trim_exec(line.as_slice());
    proof {
        reveal_strlit("package=");
        reveal_strlit("activity=");
    }
    if starts_with_exec(l.as_slice(), "package=") {
        let rest = vstd::slice::slice_subrange(l.as_slice(), 8, l.len());
        assert(rest@ =~= l@.skip(8));
        *p = Some(trim_exec(rest));
    } else if starts_with_exec(l.as_slice(), "activity=") {
        let rest = vstd::slice::slice_subrange(l.as_slice(), 9, l.len());
        assert(rest@ =~= l@.skip(9));
        *a = Some(trim_exec(rest));
    }
}

pub open spec fn opt_chars(o: Option<Vec<char>>) -> Option<Seq<char>> {
    match o {
        Some(v) => Some(v@),
        None => None,
    }
}

fn parse_text_manifest(data: &[u8]) -> (r: Result<(String, Option<String>), AndroidError>)
    ensures
        match text_manifest(text_of(data@)) {
            (Some(p), a) => r matches Ok(v) && v.0@ == p && opt_chars_of_string(v.1) == a,
            (None, _) => r matches Err(e) && e@ == ErrView::Manifest("no package="@),
        },
{
    let text = utf8_lossy(data);
    let t = chars_of(text.as_str());
    let mut cur: Vec<char> = Vec::new();
    let mut package: Option<Vec<char>> = None;
    let mut activity: Option<Vec<char>> = None;
    let mut i: usize = 0;
    while i < t.len()
        invariant
            t@ == text_of(data@),
            i <= t.len(),
            scan_lines(t@.take(i as int)) == (cur@, opt_chars(package), opt_chars(activity)),
        decreases t.len() - i,
    {
        assert(t@.take(i + 1).drop_last() =~= t@.take(i as int));
        if t[i] == '\n' {
            apply_line_exec(&cur, &mut package, &mut activity);
            cur = Vec::new();
        } else {
            cur.push(t[i]);
        }
        i = i + 1;
    }
    assert(t@.take(t@.len() as int) =~= t@);
    apply_line_exec(&cur, &mut package, &mut activity);
    match package {
        Some(p) => {
            let act = match activity {
                Some(a) => Some(string_of_chars(a.as_slice())),
                None => None,
            };
            Ok((string_of_chars(p.as_slice()), act))
        },
        None => Err(AndroidError::Manifest(String::from_str("no package="))),
    }
}

pub open spec fn opt_chars_of_string(o: Option<String>) -> Option<Seq<char>> {
    match o {
        Some(s) => Some(s@),
        None => None,
    }
}

fn is_token_char_exec(c: char) -> (r: bool)
    ensures
        r == is_token_char(c),
{
    ('0' <= c && c <= '9') || ('A' <= c && c <= 'Z') || ('a' <= c && c <= 'z') || c == '.' || c == '_'
}

fn is_package_token_exec(t: &Vec<char>) -> (r: bool)
    ensures
        r == is_package_token(t@),
{
    starts_with_exec(t.as_slice(), "com.") && t.len() > 5
}

fn scan_package_ascii(data: &[u8]) -> (r: Option<String>)
    ensures
        opt_chars_of_string(r) == package_token(text_of(data@)),
{
    let text = utf8_lossy(data);
    let t = chars_of(text.as_str());
    let mut cur: Vec<char> = Vec::new();
    let mut i: usize = 0;
    while i < t.len()
        invariant
            t@ == text_of(data@),
            i <= t.len(),
            scan_tokens(t@.take(i as int)) == (cur@, None::<Seq<char>>),
        decreases t.len() - i,
    {
        assert(t@.take(i + 1).drop_last() =~= t@.take(i as int));
        if is_token_char_exec(t[i]) {
            cur.push(t[i]);
        } else {
            if is_package_token_exec(&cur) {
                proof {
                    let ghost k = i + 1;
                    lemma_scan_tokens_found(t@, k as int);
                }
                return Some(string_of_chars(cur.as_slice()));
            }
            cur = Vec::new();
        }
        i = i + 1;
    }
    assert(t@.take(t@.len() as int) =~= t@);
    if is_package_token_exec(&cur) {
        Some(string_of_chars(cur.as_slice()))
    } else {
        None
    }
}

/// Once a package token is found, reading on keeps it.
proof fn lemma_scan_tokens_found(t: Seq<char>, k: int)
    requires
        0 <= k <= t.len(),
        scan_tokens(t.take(k)).1 is Some,
    ensures
        scan_tokens(t).1 == scan_tokens(t.take(k)).1,
        package_token(t) == scan_tokens(t.take(k)).1,
    decreases t.len() - k,
{
    if k < t.len() {
        assert(t.take(k + 1).drop_last() =~= t.take(k));
        lemma_scan_tokens_found(t, k + 1);
    } else {
        assert(t.take(k) =~= t);
    }
}

fn bytes_start_exec(d: &[u8], p: &str) -> (r: bool)
    ensures
        r == bytes_start(d@, p@),
{
    let pc = chars_of(p);
    if pc.len() > d.len() {
        return false;
    }
    let mut i: usize = 0;
    while i < pc.len()
        invariant
            pc@ == p@,
            pc.len() <= d.len(),
            i <= pc.len(),
            forall|k: int| 0 <= k < i ==> d@[k] as char == #[trigger] p@[k],
        decreases pc.len() - i,
    {
        if d[i] as char != pc[i] {
            return false;
        }
        i = i + 1;
    }
    true
}

/// Reads the package name and launcher activity of a manifest.
pub fn parse_package_and_launcher(data: &[u8]) -> (r: Result<(String, Option<String>), AndroidError>)
    ensures
        match manifest_spec(data@) {
            Ok(v) => r matches Ok(x) && x.0@ == v.0 && opt_chars_of_string(x.1) == v.1,
            Err(e) => r matches Err(x) && x@ == e,
        },
{
    if data.len() == 0 {
        return Err(AndroidError::Manifest(String::from_str("empty")));
    }
    if bytes_start_exec(data, "package=") || bytes_start_exec(data, "#nekodroid-manifest") {
        return parse_text_manifest(data);
    }
    if data.len() >= 8 {
        let magic = (data[0] as u32) | ((data[1] as u32) << 8) | ((data[2] as u32) << 16) | ((data[3] as u32) << 24);
        if magic == 0x0008_0003 {
            return match scan_package_ascii(data) {
                Some(pkg) => Ok((pkg, None)),
                None => Err(
                    AndroidError::Manifest(
                        String::from_str("binary AXML present but package not extracted; using DEX heuristics"),
                    ),
                ),
            };
        }
    }
    Err(AndroidError::Manifest(String::from_str("unrecognized manifest format")))
}

} // verus!
