//! Request paths: leading-slash stripping, percent-decoding, containment in
//! the project directory, and the content type that a file extension gives.
//!
//! Paths are handled as UTF-8 bytes. Every separator, dot and percent sign
//! is an ASCII byte, and in UTF-8 such a byte never occurs inside the
//! encoding of another character, so splitting at them is splitting at
//! characters.

use vstd::prelude::*;
use vstd::slice::slice_to_vec;
use vstd::utf8::valid_utf8;
use vstd::string::StringSliceAdditionalSpecFns;

verus! {

pub const SLASH: u8 = 47;

pub const BACKSLASH: u8 = 92;

pub const DOT: u8 = 46;

pub const PERCENT: u8 = 37;

/// A path separator: `/`, and `\` as well, so that no platform's separator
/// can smuggle a `..` past the containment check.
pub open spec fn is_sep(b: u8) -> bool {
    b == SLASH || b == BACKSLASH
}

/// The path with all leading slashes removed.
pub open spec fn strip_slashes(u: Seq<u8>) -> Seq<u8>
    decreases u.len(),
{
    if u.len() > 0 && u[0] == SLASH {
        strip_slashes(u.drop_first())
    } else {
        u
    }
}

pub open spec fn is_hex_digit(b: u8) -> bool {
    (48 <= b <= 57) || (65 <= b <= 70) || (97 <= b <= 102)
}

pub open spec fn hex_value(b: u8) -> int {
    if 48 <= b <= 57 {
        b - 48
    } else if 65 <= b <= 70 {
        b - 55
    } else {
        b - 87
    }
}

/// Percent-decoding: each `%` followed by two hexadecimal digits stands for
/// the byte they spell; every other byte, a `%` without two digits after it
/// included, stands for itself. A `+` stays a `+`.
pub open spec fn percent_decode(b: Seq<u8>) -> Seq<u8>
    decreases b.len(),
{
    if b.len() == 0 {
        b
    } else if b.len() >= 3 && b[0] == PERCENT && is_hex_digit(b[1]) && is_hex_digit(b[2]) {
        seq![(hex_value(b[1]) * 16 + hex_value(b[2])) as u8] + percent_decode(b.subrange(3, b.len() as int))
    } else {
        seq![b[0]] + percent_decode(b.drop_first())
    }
}

/// The path that a request names: its percent-decoding where that is UTF-8,
/// else the path as written.
pub open spec fn decoded_path(p: Seq<u8>) -> Seq<u8> {
    if valid_utf8(percent_decode(p)) {
        percent_decode(p)
    } else {
        p
    }
}

pub open spec fn is_dot(seg: Seq<u8>) -> bool {
    seg.len() == 1 && seg[0] == DOT
}

pub open spec fn is_dot_dot(seg: Seq<u8>) -> bool {
    seg.len() == 2 && seg[0] == DOT && seg[1] == DOT
}

/// Adds one finished segment to the segments kept so far: an empty segment
/// or `.` adds nothing, `..` removes the last kept one, and a `..` with
/// nothing left to remove leaves the root, which is final (`None`).
pub open spec fn close_segment(kept: Option<Seq<Seq<u8>>>, seg: Seq<u8>) -> Option<Seq<Seq<u8>>> {
    match kept {
        None => None,
        Some(k) => if seg.len() == 0 || is_dot(seg) {
            Some(k)
        } else if is_dot_dot(seg) {
            if k.len() == 0 {
                None
            } else {
                Some(k.drop_last())
            }
        } else {
            Some(k.push(seg))
        },
    }
}

/// Reads a path left to right: the segments kept so far and the segment
/// being read.
pub open spec fn walk(p: Seq<u8>) -> (Option<Seq<Seq<u8>>>, Seq<u8>)
    decreases p.len(),
{
    if p.len() == 0 {
        (Some(Seq::empty()), Seq::empty())
    } else {
        let (kept, cur) = walk(p.drop_last());
        if is_sep(p.last()) {
            (close_segment(kept, cur), Seq::empty())
        } else {
            (kept, cur.push(p.last()))
        }
    }
}

/// The segments of a relative path once `.`, `..` and empty segments are
/// resolved, or `None` where a `..` would climb above the starting
/// directory.
pub open spec fn normalized(p: Seq<u8>) -> Option<Seq<Seq<u8>>> {
    close_segment(walk(p).0, walk(p).1)
}

/// `root` followed by each segment, each after a `/`.
pub open spec fn joined(root: Seq<u8>, segs: Seq<Seq<u8>>) -> Seq<u8>
    decreases segs.len(),
{
    if segs.len() == 0 {
        root
    } else {
        joined(root, segs.drop_last()) + seq![SLASH] + segs.last()
    }
}

/// The file inside the project directory `root` that the request path `p`
/// (leading slashes already removed) names, or `None` where it would lie
/// outside `root`.
pub open spec fn project_file(root: Seq<u8>, p: Seq<u8>) -> Option<Seq<u8>> {
    file_below(root, decoded_path(p))
}

/// The file below the directory `root` that the decoded relative path `d`
/// names, or `None` where a `..` would leave `root`.
pub open spec fn file_below(root: Seq<u8>, d: Seq<u8>) -> Option<Seq<u8>> {
    match normalized(d) {
        None => None,
        Some(segs) => Some(joined(root, segs)),
    }
}

/// Where the extension starts: just after the last dot, or 0 where there is
/// no dot (a dot at index `j` gives `j + 1`, never 0).
pub open spec fn extension_start(p: Seq<u8>) -> int
    decreases p.len(),
{
    if p.len() == 0 {
        0
    } else if p.last() == DOT {
        p.len() as int
    } else {
        extension_start(p.drop_last())
    }
}

/// What follows the last dot of a path; empty where the path has no dot.
pub open spec fn extension(p: Seq<u8>) -> Seq<u8> {
    if extension_start(p) == 0 {
        Seq::empty()
    } else {
        p.subrange(extension_start(p), p.len() as int)
    }
}

/// The content type that a file extension gives.
pub open spec fn mime_for_extension(ext: Seq<u8>) -> Seq<char> {
    if ext == seq![104u8, 116, 109, 108] {
        "text/html"@
    } else if ext == seq![106u8, 115] {
        "application/javascript"@
    } else if ext == seq![119u8, 97, 115, 109] {
        "application/wasm"@
    } else if ext == seq![106u8, 115, 111, 110] {
        "application/json"@
    } else if ext == seq![99u8, 115, 115] {
        "text/css"@
    } else if ext == seq![112u8, 110, 103] {
        "image/png"@
    } else if ext == seq![106u8, 112, 103] || ext == seq![106u8, 112, 101, 103] {
        "image/jpeg"@
    } else {
        "application/octet-stream"@
    }
}

/// Relies on urlencoding::decode_binary: it percent-decodes bytes as
/// `percent_decode` states (its source: `%` and two hex digits of either
/// case give one byte, anything else is copied, `+` included).
#[verifier::external_body]
fn decode_percent(b: &[u8]) -> (r: Vec<u8>)
    ensures
        r@ == percent_decode(b@),
{
    urlencoding::decode_binary(b).into_owned()
}

/// Relies on std::str::from_utf8: it succeeds exactly on valid UTF-8.
#[verifier::external_body]
fn is_utf8(b: &[u8]) -> (r: bool)
    ensures
        r == valid_utf8(b@),
{
    std::str::from_utf8(b).is_ok()
}

/// Whether two byte strings are equal.
pub fn bytes_equal(a: &[u8], b: &[u8]) -> (r: bool)
    ensures
        r == (a@ == b@),
{
    if a.len() != b.len() {
        return false;
    }
    let mut i: usize = 0;
    while i < a.len()
        invariant
            a@.len() == b@.len(),
            0 <= i <= a@.len(),
            a@.subrange(0, i as int) == b@.subrange(0, i as int),
        decreases a@.len() - i,
    {
        if a[i] != b[i] {
            assert(a@[i as int] != b@[i as int]);
            return false;
        }
        assert(a@.subrange(0, i + 1) =~= a@.subrange(0, i as int).push(a@[i as int]));
        assert(b@.subrange(0, i + 1) =~= b@.subrange(0, i as int).push(b@[i as int]));
        i = i + 1;
    }
    assert(a@ =~= a@.subrange(0, i as int));
    assert(b@ =~= b@.subrange(0, i as int));
    true
}

proof fn lemma_strip_slashes_from(u: Seq<u8>, i: int)
    requires
        0 <= i <= u.len(),
        forall|j: int| 0 <= j < i ==> u[j] == SLASH,
    ensures
        strip_slashes(u) == strip_slashes(u.subrange(i, u.len() as int)),
    decreases i,
{
    if i > 0 {
        assert(u.drop_first().subrange(i - 1, u.drop_first().len() as int) =~= u.subrange(i, u.len() as int));
        lemma_strip_slashes_from(u.drop_first(), i - 1);
    } else {
        assert(u.subrange(0, u.len() as int) =~= u);
    }
}

/// The request path with its leading slashes removed.
pub fn strip_leading_slashes(url: &[u8]) -> (r: &[u8])
    ensures
        r@ == strip_slashes(url@),
{
    let mut i: usize = 0;
    while i < url.len() && url[i] == SLASH
        invariant
            0 <= i <= url@.len(),
            forall|j: int| 0 <= j < i ==> url@[j] == SLASH,
        decreases url@.len() - i,
    {
        i = i + 1;
    }
    proof {
        lemma_strip_slashes_from(url@, i as int);
    }
    &url[i..url.len()]
}

/// Decodes a request path: its percent-decoding where that is valid UTF-8,
/// else the path as written.
pub fn decode_request_path(p: &[u8]) -> (r: Vec<u8>)
    ensures
        r@ == decoded_path(p@),
{
    let d = decode_percent(p);
    if is_utf8(d.as_slice()) {
        d
    } else {
        slice_to_vec(p)
    }
}

proof fn lemma_walk_step(p: Seq<u8>, i: int)
    requires
        0 <= i < p.len(),
    ensures
        ({
            let (kept, cur) = walk(p.subrange(0, i));
            walk(p.subrange(0, i + 1)) == if is_sep(p[i]) {
                (close_segment(kept, cur), Seq::<u8>::empty())
            } else {
                (kept, cur.push(p[i]))
            }
        }),
{
    assert(p.subrange(0, i + 1).drop_last() =~= p.subrange(0, i));
}

/// Each range lies within a string of length `n`.
pub open spec fn ranges_within(ranges: Seq<(usize, usize)>, n: nat) -> bool {
    forall|k: int| 0 <= k < ranges.len() ==> #[trigger] ranges[k].0 <= ranges[k].1 <= n
}

/// The ranges `ranges` of `p`, as byte strings.
pub open spec fn segment_views(p: Seq<u8>, ranges: Seq<(usize, usize)>) -> Seq<Seq<u8>> {
    ranges.map_values(|r: (usize, usize)| p.subrange(r.0 as int, r.1 as int))
}

/// Finishes one segment `p[start..end]` in place, as `close_segment` says.
fn close_range(p: &[u8], kept: &mut Vec<(usize, usize)>, escaped: &mut bool, start: usize, end: usize)
    requires
        start <= end <= p@.len(),
        ranges_within(old(kept)@, p@.len()),
    ensures
        ranges_within(final(kept)@, p@.len()),
        ({
            let before = if *old(escaped) { None } else { Some(segment_views(p@, old(kept)@)) };
            let after = if *final(escaped) { None } else { Some(segment_views(p@, final(kept)@)) };
            after == close_segment(before, p@.subrange(start as int, end as int))
        }),
{
    if *escaped {
        return;
    }
    let ghost seg = p@.subrange(start as int, end as int);
    let ghost before = segment_views(p@, kept@);
    let len = end - start;
    if len == 0 || (len == 1 && p[start] == DOT) {
    } else if len == 2 && p[start] == DOT && p[start + 1] == DOT {
        if kept.len() == 0 {
            *escaped = true;
        } else {
            kept.pop();
            assert(segment_views(p@, kept@) =~= before.drop_last());
        }
    } else {
        kept.push((start, end));
        assert(segment_views(p@, kept@) =~= before.push(seg));
    }
}

/// Resolves a relative path into the segments it names, as ranges of `p`;
/// `None` where a `..` would climb above the starting directory.
fn normalize_ranges(p: &[u8]) -> (r: Option<Vec<(usize, usize)>>)
    ensures
        match r {
            None => normalized(p@) is None,
            Some(ranges) => {
                &&& normalized(p@) == Some(segment_views(p@, ranges@))
                &&& ranges_within(ranges@, p@.len())
            },
        },
{
    let mut kept: Vec<(usize, usize)> = Vec::new();
    let mut escaped = false;
    let mut start: usize = 0;
    let mut i: usize = 0;
    assert(p@.subrange(0, 0) =~= Seq::<u8>::empty());
    assert(segment_views(p@, kept@) =~= Seq::<Seq<u8>>::empty());
    while i < p.len()
        invariant
            0 <= start <= i <= p@.len(),
            ranges_within(kept@, p@.len()),
            walk(p@.subrange(0, i as int)) == (
                if escaped { None } else { Some(segment_views(p@, kept@)) },
                p@.subrange(start as int, i as int),
            ),
        decreases p@.len() - i,
    {
        proof {
            lemma_walk_step(p@, i as int);
        }
        if p[i] == SLASH || p[i] == BACKSLASH {
            close_range(p, &mut kept, &mut escaped, start, i);
            start = i + 1;
            assert(p@.subrange(start as int, start as int) =~= Seq::<u8>::empty());
        } else {
            assert(p@.subrange(start as int, i + 1) =~= p@.subrange(start as int, i as int).push(p@[i as int]));
        }
        i = i + 1;
    }
    assert(p@.subrange(0, p@.len() as int) =~= p@);
    close_range(p, &mut kept, &mut escaped, start, i);
    if escaped {
        None
    } else {
        Some(kept)
    }
}

/// Appends `root` and then each segment after a `/`.
fn join_ranges(root: &[u8], p: &[u8], ranges: &Vec<(usize, usize)>) -> (r: Vec<u8>)
    requires
        ranges_within(ranges@, p@.len()),
    ensures
        r@ == joined(root@, segment_views(p@, ranges@)),
{
    let mut out = slice_to_vec(root);
    let mut k: usize = 0;
    assert(segment_views(p@, ranges@).subrange(0, 0) =~= Seq::<Seq<u8>>::empty());
    while k < ranges.len()
        invariant
            0 <= k <= ranges@.len(),
            ranges_within(ranges@, p@.len()),
            out@ == joined(root@, segment_views(p@, ranges@).subrange(0, k as int)),
        decreases ranges@.len() - k,
    {
        let ghost before = out@;
        let (a, b) = ranges[k];
        out.push(SLASH);
        let mut j: usize = a;
        assert(p@.subrange(a as int, a as int) =~= Seq::<u8>::empty());
        while j < b
            invariant
                a <= j <= b <= p@.len(),
                out@ == before + seq![SLASH] + p@.subrange(a as int, j as int),
            decreases b - j,
        {
            out.push(p[j]);
            assert(p@.subrange(a as int, j + 1) =~= p@.subrange(a as int, j as int).push(p@[j as int]));
            assert(out@ =~= before + seq![SLASH] + p@.subrange(a as int, j + 1));
            j = j + 1;
        }
        let ghost segs = segment_views(p@, ranges@);
        assert(segs.subrange(0, k + 1).drop_last() =~= segs.subrange(0, k as int));
        k = k + 1;
    }
    assert(segment_views(p@, ranges@).subrange(0, k as int) =~= segment_views(p@, ranges@));
    out
}

/// The file below the directory `root` that the decoded relative path `d`
/// names: `d` is resolved segment by segment and appended to `root`.
/// `None` where a `..` would leave `root`; an absolute path stays below
/// `root` like any other.
pub fn file_below_root(root: &[u8], d: &[u8]) -> (r: Option<Vec<u8>>)
    ensures
        match r {
            None => file_below(root@, d@) is None,
            Some(path) => file_below(root@, d@) == Some(path@),
        },
{
    match normalize_ranges(d) {
        None => None,
        Some(ranges) => Some(join_ranges(root, d, &ranges)),
    }
}

/// The file inside the project directory `root` that the request path `p`
/// names (leading slashes already removed): `p` is percent-decoded (or
/// taken as written where that is not UTF-8) and resolved below `root`.
pub fn resolve_project_path(root: &[u8], p: &[u8]) -> (r: Option<Vec<u8>>)
    ensures
        match r {
            None => project_file(root@, p@) is None,
            Some(path) => project_file(root@, p@) == Some(path@),
        },
{
    let decoded = decode_request_path(p);
    file_below_root(root, decoded.as_slice())
}

/// A segment that names an entry of its directory: non-empty, without a
/// separator, and neither `.` nor `..`.
pub open spec fn is_plain_segment(seg: Seq<u8>) -> bool {
    &&& seg.len() > 0
    &&& !is_dot(seg)
    &&& !is_dot_dot(seg)
    &&& forall|j: int| 0 <= j < seg.len() ==> !is_sep(#[trigger] seg[j])
}

pub open spec fn all_plain(segs: Seq<Seq<u8>>) -> bool {
    forall|k: int| 0 <= k < segs.len() ==> is_plain_segment(#[trigger] segs[k])
}

proof fn lemma_close_plain(kept: Option<Seq<Seq<u8>>>, cur: Seq<u8>)
    requires
        kept matches Some(k) ==> all_plain(k),
        forall|j: int| 0 <= j < cur.len() ==> !is_sep(#[trigger] cur[j]),
    ensures
        close_segment(kept, cur) matches Some(k) ==> all_plain(k),
{
    if let Some(k) = kept {
        if !(cur.len() == 0 || is_dot(cur)) && !is_dot_dot(cur) {
            assert forall|i: int| 0 <= i < k.push(cur).len() implies is_plain_segment(#[trigger] k.push(cur)[i]) by {
                if i < k.len() {
                    assert(k.push(cur)[i] == k[i]);
                }
            }
        } else if is_dot_dot(cur) && k.len() > 0 {
            assert forall|i: int| 0 <= i < k.drop_last().len() implies is_plain_segment(#[trigger] k.drop_last()[i]) by {
                assert(k.drop_last()[i] == k[i]);
            }
        }
    }
}

proof fn lemma_walk_plain(p: Seq<u8>)
    ensures
        walk(p).0 matches Some(k) ==> all_plain(k),
        forall|j: int| 0 <= j < walk(p).1.len() ==> !is_sep(#[trigger] walk(p).1[j]),
    decreases p.len(),
{
    if p.len() > 0 {
        lemma_walk_plain(p.drop_last());
        let (kept, cur) = walk(p.drop_last());
        if is_sep(p.last()) {
            lemma_close_plain(kept, cur);
        } else {
            assert forall|j: int| 0 <= j < cur.push(p.last()).len() implies !is_sep(#[trigger] cur.push(p.last())[j]) by {
                if j < cur.len() {
                    assert(cur.push(p.last())[j] == cur[j]);
                }
            }
        }
    }
}

proof fn lemma_joined_extends_root(root: Seq<u8>, segs: Seq<Seq<u8>>)
    ensures
        joined(root, segs).len() >= root.len(),
        joined(root, segs).subrange(0, root.len() as int) == root,
    decreases segs.len(),
{
    if segs.len() > 0 {
        lemma_joined_extends_root(root, segs.drop_last());
        let prev = joined(root, segs.drop_last());
        assert((prev + seq![SLASH] + segs.last()).subrange(0, root.len() as int) =~= prev.subrange(0, root.len() as int));
    } else {
        assert(root.subrange(0, root.len() as int) =~= root);
    }
}

/// Containment: whatever a request path holds (`..` segments, encoded
/// separators, absolute paths), a file that it resolves to is the project
/// directory followed by plain segments, each after a `/`: a path that
/// names something inside the directory and never above it.
pub proof fn lemma_project_file_contained(root: Seq<u8>, p: Seq<u8>)
    ensures
        project_file(root, p) is Some <==> normalized(decoded_path(p)) is Some,
        normalized(decoded_path(p)) matches Some(segs) ==> {
            &&& all_plain(segs)
            &&& project_file(root, p) == Some(joined(root, segs))
            &&& joined(root, segs).subrange(0, root.len() as int) == root
        },
{
    let d = decoded_path(p);
    lemma_walk_plain(d);
    lemma_close_plain(walk(d).0, walk(d).1);
    if let Some(segs) = normalized(d) {
        lemma_joined_extends_root(root, segs);
    }
}

proof fn lemma_escape_is_final(p: Seq<u8>, i: int)
    requires
        0 <= i <= p.len(),
        walk(p.subrange(0, i)).0 is None,
    ensures
        walk(p).0 is None,
        normalized(p) is None,
    decreases p.len() - i,
{
    if i < p.len() {
        lemma_walk_step(p, i);
        lemma_escape_is_final(p, i + 1);
    } else {
        assert(p.subrange(0, i) =~= p);
    }
}

/// A path whose first segment is `..` climbs above the directory it is
/// resolved in, whatever follows: it names no file there.
pub proof fn lemma_leading_parent_rejected(d: Seq<u8>)
    requires
        d.len() >= 2,
        d[0] == DOT,
        d[1] == DOT,
        d.len() == 2 || is_sep(d[2]),
    ensures
        normalized(d) is None,
        forall|root: Seq<u8>| #[trigger] file_below(root, d) is None,
{
    lemma_walk_step(d, 0);
    lemma_walk_step(d, 1);
    assert(d.subrange(0, 0) =~= Seq::<u8>::empty());
    assert(walk(d.subrange(0, 1)).1 =~= seq![DOT]);
    assert(walk(d.subrange(0, 2)).1 =~= seq![DOT, DOT]);
    if d.len() == 2 {
        assert(d.subrange(0, 2) =~= d);
    } else {
        lemma_walk_step(d, 2);
        lemma_escape_is_final(d, 3);
    }
}

/// Whether `file` lies within the directory `root`, compared by whole
/// components: `file` is `root` itself, or `root` followed by a separator
/// and more (a `root` that ends in a separator needs no second one).
/// `/proj-evil/x` is not within `/proj`.
pub open spec fn is_within(root: Seq<u8>, file: Seq<u8>) -> bool {
    ||| file == root
    ||| {
        &&& file.len() > root.len()
        &&& file.subrange(0, root.len() as int) == root
        &&& (is_sep(file[root.len() as int]) || (root.len() > 0 && is_sep(root.last())))
    }
}

/// Whether `file` lies within the directory `root`. Given both paths with
/// symbolic links resolved, this is the containment test that no link
/// inside the directory can get around.
pub fn contained(root: &[u8], file: &[u8]) -> (r: bool)
    ensures
        r == is_within(root@, file@),
{
    if bytes_equal(file, root) {
        return true;
    }
    let n = root.len();
    if file.len() <= n {
        return false;
    }
    let head = &file[0..n];
    if !bytes_equal(head, root) {
        return false;
    }
    file[n] == SLASH || file[n] == BACKSLASH || (n > 0 && (root[n - 1] == SLASH || root[n - 1] == BACKSLASH))
}

proof fn lemma_joined_separator(root: Seq<u8>, segs: Seq<Seq<u8>>)
    requires
        segs.len() > 0,
    ensures
        joined(root, segs).len() > root.len(),
        joined(root, segs)[root.len() as int] == SLASH,
    decreases segs.len(),
{
    let prev = joined(root, segs.drop_last());
    lemma_joined_extends_root(root, segs.drop_last());
    if segs.len() > 1 {
        lemma_joined_separator(root, segs.drop_last());
        assert((prev + seq![SLASH] + segs.last())[root.len() as int] == prev[root.len() as int]);
    } else {
        assert(prev == root);
        assert((prev + seq![SLASH] + segs.last())[root.len() as int] == SLASH);
    }
}

/// A file that a request path resolves to lies within the project
/// directory by `is_within`, the same test that `contained` makes on paths
/// with symbolic links resolved.
pub proof fn lemma_project_file_within(root: Seq<u8>, p: Seq<u8>)
    ensures
        project_file(root, p) matches Some(f) ==> is_within(root, f),
{
    lemma_project_file_contained(root, p);
    if let Some(segs) = normalized(decoded_path(p)) {
        lemma_joined_extends_root(root, segs);
        if segs.len() > 0 {
            lemma_joined_separator(root, segs);
        } else {
            assert(joined(root, segs) == root);
        }
    }
}

proof fn lemma_extension_start_from(p: Seq<u8>, i: int)
    requires
        0 <= i <= p.len(),
        forall|j: int| i <= j < p.len() ==> p[j] != DOT,
    ensures
        extension_start(p) == extension_start(p.subrange(0, i)),
    decreases p.len() - i,
{
    if i < p.len() {
        assert(p.drop_last().subrange(0, i) =~= p.subrange(0, i));
        lemma_extension_start_from(p.drop_last(), i);
    } else {
        assert(p.subrange(0, i) =~= p);
    }
}

/// The content type of a path, by the bytes after its last dot; a path
/// without a dot has no extension and is opaque binary data.
pub fn mime_for_bytes(p: &[u8]) -> (r: &'static str)
    ensures
        r@ == mime_for_extension(extension(p@)),
{
    let mut i: usize = p.len();
    while i > 0 && p[i - 1] != DOT
        invariant
            0 <= i <= p@.len(),
            forall|j: int| i <= j < p@.len() ==> p@[j] != DOT,
        decreases i,
    {
        i = i - 1;
    }
    proof {
        lemma_extension_start_from(p@, i as int);
        if i > 0 {
            assert(p@.subrange(0, i as int).last() == DOT);
        }
    }
    let ext = if i == 0 {
        &p[0..0]
    } else {
        &p[i..p.len()]
    };
    assert(ext@ =~= extension(p@));
    if bytes_equal(ext, vec![104u8, 116, 109, 108].as_slice()) {
        "text/html"
    } else if bytes_equal(ext, vec![106u8, 115].as_slice()) {
        "application/javascript"
    } else if bytes_equal(ext, vec![119u8, 97, 115, 109].as_slice()) {
        "application/wasm"
    } else if bytes_equal(ext, vec![106u8, 115, 111, 110].as_slice()) {
        "application/json"
    } else if bytes_equal(ext, vec![99u8, 115, 115].as_slice()) {
        "text/css"
    } else if bytes_equal(ext, vec![112u8, 110, 103].as_slice()) {
        "image/png"
    } else if bytes_equal(ext, vec![106u8, 112, 103].as_slice())
        || bytes_equal(ext, vec![106u8, 112, 101, 103].as_slice()) {
        "image/jpeg"
    } else {
        "application/octet-stream"
    }
}

/// The content type of a path by its extension (what follows its last
/// dot): html, js, wasm, json, css, png, jpg and jpeg are known; anything
/// else, and a path without a dot, is opaque binary data.
pub fn get_mime_type(path: &str) -> (r: &'static str)
    ensures
        r@ == mime_for_extension(extension(path.spec_bytes())),
{
    mime_for_bytes(path.as_bytes())
}

} // verus!
