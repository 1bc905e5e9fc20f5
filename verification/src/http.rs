//! Byte-level HTTP head utilities shared by the two handshake codecs:
//! finding the head terminator, splitting header lines, parsing and
//! looking up header fields, and appending ASCII text.

use vstd::prelude::*;
use vstd::slice::{slice_subrange, slice_to_vec};
use vstd::string::{is_ascii_spec_bytes, StringSliceAdditionalSpecFns};

verus! {

/// The bytes of an ASCII character sequence.
pub open spec fn ascii_seq(cs: Seq<char>) -> Seq<u8> {
    Seq::new(cs.len(), |i: int| cs[i] as u8)
}

/// Optional whitespace around a header value: space or horizontal tab.
pub open spec fn is_ows(b: u8) -> bool {
    b == 32 || b == 9
}

/// ASCII lower case of one byte.
pub open spec fn to_lower(b: u8) -> u8 {
    if 65 <= b <= 90 {
        (b + 32) as u8
    } else {
        b
    }
}

/// ASCII lower case of a byte sequence.
pub open spec fn lower_seq(s: Seq<u8>) -> Seq<u8> {
    s.map_values(|b: u8| to_lower(b))
}

/// The first position at or after `i` holding byte `b`.
pub open spec fn find_byte_from(s: Seq<u8>, b: u8, i: nat) -> Option<nat>
    decreases s.len() - i,
{
    if i >= s.len() {
        None
    } else if s[i as int] == b {
        Some(i)
    } else {
        find_byte_from(s, b, i + 1)
    }
}

/// A found byte lies within the sequence and is the first of its kind.
pub proof fn lemma_find_byte_bounds(s: Seq<u8>, b: u8, i: nat)
    ensures
        match find_byte_from(s, b, i) {
            Some(j) => i <= j < s.len() && s[j as int] == b && forall|l: int|
                i <= l < j ==> s[l] != b,
            None => forall|l: int| i <= l < s.len() ==> s[l] != b,
        },
    decreases s.len() - i,
{
    if i < s.len() && s[i as int] != b {
        lemma_find_byte_bounds(s, b, i + 1);
    }
}

/// Exec mirror of [`find_byte_from`].
pub fn find_byte(v: &[u8], b: u8, start: usize) -> (r: Option<usize>)
    requires
        start <= v@.len(),
    ensures
        (match r {
            Some(j) => find_byte_from(v@, b, start as nat) == Some(j as nat) && start <= j
                < v@.len(),
            None => find_byte_from(v@, b, start as nat) is None,
        }),
    decreases v@.len() - start,
{
    if start >= v.len() {
        None
    } else if v[start] == b {
        Some(start)
    } else {
        find_byte(v, b, start + 1)
    }
}

/// The first position at or after `i` where CRLF CRLF begins.
pub open spec fn find_terminator_from(s: Seq<u8>, i: nat) -> Option<nat>
    decreases s.len() - i,
{
    if i + 4 > s.len() {
        None
    } else if s[i as int] == 13 && s[i as int + 1] == 10 && s[i as int + 2] == 13 && s[i as int
        + 3] == 10 {
        Some(i)
    } else {
        find_terminator_from(s, i + 1)
    }
}

/// Where the head of an HTTP message ends: the first CRLF CRLF.
pub open spec fn find_terminator(s: Seq<u8>) -> Option<nat> {
    find_terminator_from(s, 0)
}

/// A found terminator fits in the sequence.
pub proof fn lemma_find_terminator_bounds(s: Seq<u8>, i: nat)
    ensures
        (match find_terminator_from(s, i) {
            Some(j) => i <= j && j + 4 <= s.len(),
            None => true,
        }),
    decreases s.len() - i,
{
    if i + 4 <= s.len() && !(s[i as int] == 13 && s[i as int + 1] == 10 && s[i as int + 2] == 13
        && s[i as int + 3] == 10) {
        lemma_find_terminator_bounds(s, i + 1);
    }
}

/// A terminator is untouched by extending the sequence behind it, and a
/// sequence without one stays without one when cut.
pub proof fn lemma_find_terminator_prefix(s: Seq<u8>, t: Seq<u8>, i: nat)
    requires
        t.len() <= s.len(),
        forall|l: int| 0 <= l < t.len() ==> s[l] == t[l],
    ensures
        (match find_terminator_from(t, i) {
            Some(j) => find_terminator_from(s, i) == Some(j),
            None => match find_terminator_from(s, i) {
                Some(j) => j + 4 > t.len(),
                None => true,
            },
        }),
    decreases s.len() - i,
{
    if i + 4 <= s.len() {
        if !(s[i as int] == 13 && s[i as int + 1] == 10 && s[i as int + 2] == 13 && s[i as int
            + 3] == 10) {
            lemma_find_terminator_prefix(s, t, i + 1);
        }
    }
}

/// Exec mirror of [`find_terminator`].
pub fn scan_terminator(v: &[u8]) -> (r: Option<usize>)
    ensures
        (match r {
            Some(j) => find_terminator(v@) == Some(j as nat) && j + 4 <= v@.len(),
            None => find_terminator(v@) is None,
        }),
{
    scan_terminator_from(v, 0)
}

/// Exec mirror of [`find_terminator_from`].
fn scan_terminator_from(v: &[u8], start: usize) -> (r: Option<usize>)
    requires
        start <= v@.len(),
    ensures
        (match r {
            Some(j) => find_terminator_from(v@, start as nat) == Some(j as nat) && j + 4
                <= v@.len(),
            None => find_terminator_from(v@, start as nat) is None,
        }),
    decreases v@.len() - start,
{
    if v.len() < 4 || start > v.len() - 4 {
        None
    } else if v[start] == 13 && v[start + 1] == 10 && v[start + 2] == 13 && v[start + 3] == 10 {
        Some(start)
    } else {
        scan_terminator_from(v, start + 1)
    }
}

/// Strip leading optional whitespace.
pub open spec fn trim_front(s: Seq<u8>) -> Seq<u8>
    decreases s.len(),
{
    if s.len() > 0 && is_ows(s[0]) {
        trim_front(s.skip(1))
    } else {
        s
    }
}

/// Strip trailing optional whitespace.
pub open spec fn trim_back(s: Seq<u8>) -> Seq<u8>
    decreases s.len(),
{
    if s.len() > 0 && is_ows(s[s.len() - 1]) {
        trim_back(s.take(s.len() - 1))
    } else {
        s
    }
}

/// Strip whitespace from both ends, as a header value is read.
pub open spec fn trim_ows(s: Seq<u8>) -> Seq<u8> {
    trim_back(trim_front(s))
}

proof fn lemma_trim_front_skip(s: Seq<u8>, i: nat)
    requires
        i <= s.len(),
        forall|l: int| 0 <= l < i ==> is_ows(s[l]),
        i < s.len() ==> !is_ows(s[i as int]),
    ensures
        trim_front(s) == s.skip(i as int),
    decreases i,
{
    if i == 0 {
        assert(s.skip(0) =~= s);
    } else {
        lemma_trim_front_skip(s.skip(1), (i - 1) as nat);
        assert(s.skip(1).skip(i - 1) =~= s.skip(i as int));
    }
}

proof fn lemma_trim_back_take(s: Seq<u8>, j: nat)
    requires
        j <= s.len(),
        forall|l: int| j <= l < s.len() ==> is_ows(s[l]),
        j > 0 ==> !is_ows(s[j - 1]),
    ensures
        trim_back(s) == s.take(j as int),
    decreases s.len(),
{
    if j == s.len() {
        if s.len() > 0 && is_ows(s[s.len() - 1]) {
            lemma_trim_back_take(s.take(s.len() - 1), (j - 1) as nat);
            assert(s.take(s.len() - 1).take(j - 1) =~= s.take(j as int));
            assert(false);
        } else {
            assert(s.take(j as int) =~= s);
        }
    } else {
        lemma_trim_back_take(s.take(s.len() - 1), j);
        assert(s.take(s.len() - 1).take(j as int) =~= s.take(j as int));
    }
}

/// Exec mirror of [`trim_ows`].
pub fn trim(v: &[u8]) -> (r: Vec<u8>)
    ensures
        r@ == trim_ows(v@),
{
    let n = v.len();
    let mut i: usize = 0;
    while i < n && (v[i] == 32 || v[i] == 9)
        invariant
            i <= n,
            n == v@.len(),
            forall|l: int| 0 <= l < i ==> is_ows(v@[l]),
        decreases n - i,
    {
        i = i + 1;
    }
    proof {
        lemma_trim_front_skip(v@, i as nat);
    }
    let mut j: usize = n;
    while j > i && (v[j - 1] == 32 || v[j - 1] == 9)
        invariant
            i <= j <= n,
            n == v@.len(),
            forall|l: int| j <= l < n ==> is_ows(v@[l]),
        decreases j,
    {
        j = j - 1;
    }
    let ghost t = v@.skip(i as int);
    proof {
        assert(forall|l: int| (j - i) <= l < t.len() ==> is_ows(t[l]));
        if j > i {
            assert(!is_ows(t[j - i - 1]));
        }
        lemma_trim_back_take(t, (j - i) as nat);
        assert(t.take(j - i) =~= v@.subrange(i as int, j as int));
    }
    slice_to_vec(slice_subrange(v, i, j))
}

/// Compare a name against an expected form, ASCII case-insensitively.
pub fn lower_eq(a: &[u8], b: &[u8]) -> (r: bool)
    ensures
        r == (lower_seq(a@) == b@),
{
    let n = a.len();
    if n != b.len() {
        assert(lower_seq(a@).len() == a@.len());
        return false;
    }
    let mut i: usize = 0;
    while i < n
        invariant
            i <= n,
            n == a@.len() == b@.len(),
            forall|l: int| 0 <= l < i ==> to_lower(a@[l]) == b@[l],
        decreases n - i,
    {
        let ab = a[i];
        let low: u8 = if 65 <= ab && ab <= 90 {
            ab + 32
        } else {
            ab
        };
        if low != b[i] {
            assert(lower_seq(a@)[i as int] != b@[i as int]);
            return false;
        }
        i = i + 1;
    }
    assert(lower_seq(a@) =~= b@);
    true
}

/// One header field of a handshake head.
pub struct HeaderField {
    /// The field name, as sent.
    pub name: Vec<u8>,
    /// The field value, whitespace-trimmed.
    pub value: Vec<u8>,
}

/// The (name, value) pairs a field list denotes.
pub open spec fn fields_view(v: Seq<HeaderField>) -> Seq<(Seq<u8>, Seq<u8>)> {
    Seq::new(v.len(), |i: int| (v[i].name@, v[i].value@))
}

/// The value of the first field whose lower-cased name is `name`.
pub open spec fn lookup_from(hs: Seq<(Seq<u8>, Seq<u8>)>, name: Seq<u8>, i: nat) -> Option<Seq<u8>>
    decreases hs.len() - i,
{
    if i >= hs.len() {
        None
    } else if lower_seq(hs[i as int].0) == name {
        Some(hs[i as int].1)
    } else {
        lookup_from(hs, name, i + 1)
    }
}

/// First-wins lookup of a header by its lower-case name.
pub open spec fn lookup(hs: Seq<(Seq<u8>, Seq<u8>)>, name: Seq<u8>) -> Option<Seq<u8>> {
    lookup_from(hs, name, 0)
}

/// Exec mirror of [`lookup`]: `name` is already lower case.
pub fn lookup_header<'a>(hs: &'a Vec<HeaderField>, name: &[u8]) -> (r: Option<&'a Vec<u8>>)
    ensures
        (match r {
            Some(v) => lookup(fields_view(hs@), name@) == Some(v@),
            None => lookup(fields_view(hs@), name@) is None,
        }),
{
    lookup_header_from(hs, name, 0)
}

fn lookup_header_from<'a>(hs: &'a Vec<HeaderField>, name: &[u8], i: usize) -> (r: Option<
    &'a Vec<u8>,
>)
    requires
        i <= hs@.len(),
    ensures
        (match r {
            Some(v) => lookup_from(fields_view(hs@), name@, i as nat) == Some(v@),
            None => lookup_from(fields_view(hs@), name@, i as nat) is None,
        }),
    decreases hs@.len() - i,
{
    if i >= hs.len() {
        None
    } else if lower_eq(hs[i].name.as_slice(), name) {
        Some(&hs[i].value)
    } else {
        lookup_header_from(hs, name, i + 1)
    }
}

/// Whether some element of a comma-separated list, trimmed and lowered,
/// equals the token.
pub open spec fn list_has_token(v: Seq<u8>, tok: Seq<u8>) -> bool
    decreases v.len(),
{
    match find_byte_from(v, 44, 0) {
        None => lower_seq(trim_ows(v)) == tok,
        Some(i) => lower_seq(trim_ows(v.take(i as int))) == tok || (if i < v.len() {
            list_has_token(v.skip(i as int + 1), tok)
        } else {
            false
        }),
    }
}

/// Exec mirror of [`list_has_token`]: `tok` is already lower case.
pub fn has_token(v: &[u8], tok: &[u8]) -> (r: bool)
    ensures
        r == list_has_token(v@, tok@),
    decreases v@.len(),
{
    proof {
        lemma_find_byte_bounds(v@, 44, 0);
    }
    match find_byte(v, 44, 0) {
        None => {
            let t = trim(v);
            lower_eq(t.as_slice(), tok)
        },
        Some(i) => {
            let head = trim(slice_subrange(v, 0, i));
            assert(v@.subrange(0, i as int) =~= v@.take(i as int));
            if lower_eq(head.as_slice(), tok) {
                true
            } else {
                let n = v.len();
                assert(i < n);
                let rest = slice_subrange(v, i + 1, n);
                assert(rest@ =~= v@.skip(i as int + 1));
                has_token(rest, tok)
            }
        },
    }
}

/// The first position at or after `i` where CRLF begins.
pub open spec fn find_crlf_from(s: Seq<u8>, i: nat) -> Option<nat>
    decreases s.len() - i,
{
    if i + 2 > s.len() {
        None
    } else if s[i as int] == 13 && s[i as int + 1] == 10 {
        Some(i)
    } else {
        find_crlf_from(s, i + 1)
    }
}

/// A found CRLF fits in the sequence.
pub proof fn lemma_find_crlf_bounds(s: Seq<u8>, i: nat)
    ensures
        (match find_crlf_from(s, i) {
            Some(j) => i <= j && j + 2 <= s.len() && s[j as int] == 13 && s[j as int + 1] == 10,
            None => true,
        }),
    decreases s.len() - i,
{
    if i + 2 <= s.len() && !(s[i as int] == 13 && s[i as int + 1] == 10) {
        lemma_find_crlf_bounds(s, i + 1);
    }
}

/// The lines of a head region, split on CRLF.  A head that ends with the
/// line terminator yields exactly its lines, without their CRLFs.
pub open spec fn split_lines(h: Seq<u8>) -> Seq<Seq<u8>>
    decreases h.len(),
{
    match find_crlf_from(h, 0) {
        None => if h.len() == 0 {
            Seq::empty()
        } else {
            seq![h]
        },
        Some(i) => if i + 2 <= h.len() {
            seq![h.take(i as int)] + split_lines(h.skip(i as int + 2))
        } else {
            seq![h.take(i as int)]
        },
    }
}

/// The byte sequences a list of lines denotes.
pub open spec fn lines_view(v: Seq<Vec<u8>>) -> Seq<Seq<u8>> {
    Seq::new(v.len(), |i: int| v[i]@)
}

/// Exec mirror of [`find_crlf_from`].
fn find_crlf(v: &[u8], start: usize) -> (r: Option<usize>)
    requires
        start <= v@.len(),
    ensures
        (match r {
            Some(j) => find_crlf_from(v@, start as nat) == Some(j as nat) && j + 2 <= v@.len(),
            None => find_crlf_from(v@, start as nat) is None,
        }),
    decreases v@.len() - start,
{
    if v.len() < 2 || start > v.len() - 2 {
        None
    } else if v[start] == 13 && v[start + 1] == 10 {
        Some(start)
    } else {
        find_crlf(v, start + 1)
    }
}

/// Exec mirror of [`split_lines`].
pub fn split_head(v: &[u8]) -> (r: Vec<Vec<u8>>)
    ensures
        lines_view(r@) == split_lines(v@),
    decreases v@.len(),
{
    match find_crlf(v, 0) {
        None => {
            if v.len() == 0 {
                let r: Vec<Vec<u8>> = Vec::new();
                assert(lines_view(r@) =~= split_lines(v@));
                r
            } else {
                let mut r: Vec<Vec<u8>> = Vec::new();
                r.push(slice_to_vec(v));
                assert(lines_view(r@) =~= split_lines(v@));
                r
            }
        },
        Some(i) => {
            let n = v.len();
            let first = slice_to_vec(slice_subrange(v, 0, i));
            assert(first@ =~= v@.take(i as int));
            let rest = slice_subrange(v, i + 2, n);
            assert(rest@ =~= v@.skip(i as int + 2));
            let mut out = split_head(rest);
            out.insert(0, first);
            assert(lines_view(out@) =~= seq![v@.take(i as int)] + split_lines(
                v@.skip(i as int + 2),
            ));
            out
        },
    }
}

/// The (name, value) split of one header line: the name before the first
/// colon, the value whitespace-trimmed after it.
pub open spec fn header_line(line: Seq<u8>) -> Option<(Seq<u8>, Seq<u8>)> {
    match find_byte_from(line, 58, 0) {
        None => None,
        Some(i) => Some((line.take(i as int), trim_ows(line.skip(i as int + 1)))),
    }
}

/// The parsed header fields of the lines from index `i` on.  A line that
/// starts with whitespace (obs-fold) or has no colon is refused.
pub open spec fn parse_fields_from(lines: Seq<Seq<u8>>, i: nat) -> Result<
    Seq<(Seq<u8>, Seq<u8>)>,
    crate::error::BadHandshakeReason,
>
    decreases lines.len() - i,
{
    if i >= lines.len() {
        Ok(Seq::empty())
    } else {
        let line = lines[i as int];
        if line.len() > 0 && is_ows(line[0]) {
            Err(crate::error::BadHandshakeReason::ObsoleteLineFolding)
        } else {
            match header_line(line) {
                None => Err(crate::error::BadHandshakeReason::BadHeaderLine),
                Some(nv) => match parse_fields_from(lines, i + 1) {
                    Err(e) => Err(e),
                    Ok(rest) => Ok(seq![nv] + rest),
                },
            }
        }
    }
}

/// Exec mirror of [`parse_fields_from`].
pub fn parse_fields(lines: &Vec<Vec<u8>>, start: usize) -> (r: Result<
    Vec<HeaderField>,
    crate::error::BadHandshakeReason,
>)
    requires
        start <= lines@.len(),
    ensures
        (match r {
            Ok(fs) => parse_fields_from(lines_view(lines@), start as nat) == Ok::<
                _,
                crate::error::BadHandshakeReason,
            >(fields_view(fs@)),
            Err(e) => parse_fields_from(lines_view(lines@), start as nat) == Err::<
                Seq<(Seq<u8>, Seq<u8>)>,
                _,
            >(e),
        }),
    decreases lines@.len() - start,
{
    if start >= lines.len() {
        let fs: Vec<HeaderField> = Vec::new();
        assert(fields_view(fs@) =~= Seq::<(Seq<u8>, Seq<u8>)>::empty());
        Ok(fs)
    } else {
        let line: &Vec<u8> = &lines[start];
        if line.len() > 0 && (line[0] == 32 || line[0] == 9) {
            Err(crate::error::BadHandshakeReason::ObsoleteLineFolding)
        } else {
            proof {
                lemma_find_byte_bounds(line@, 58, 0);
            }
            match find_byte(line.as_slice(), 58, 0) {
                None => Err(crate::error::BadHandshakeReason::BadHeaderLine),
                Some(i) => {
                    let m = line.len();
                    let name = slice_to_vec(slice_subrange(line.as_slice(), 0, i));
                    assert(name@ =~= line@.take(i as int));
                    let value = trim(slice_subrange(line.as_slice(), i + 1, m));
                    assert(line@.subrange(i as int + 1, m as int) =~= line@.skip(i as int + 1));
                    match parse_fields(lines, start + 1) {
                        Err(e) => Err(e),
                        Ok(mut rest) => {
                            let ghost prev = rest@;
                            rest.insert(0, HeaderField { name, value });
                            assert(fields_view(rest@) =~= seq![(name@, value@)] + fields_view(
                                prev,
                            ));
                            Ok(rest)
                        },
                    }
                },
            }
        }
    }
}

/// Byte-for-byte equality of two slices.
pub fn eq_bytes(a: &[u8], b: &[u8]) -> (r: bool)
    ensures
        r == (a@ == b@),
{
    let n = a.len();
    if n != b.len() {
        return false;
    }
    let mut i: usize = 0;
    while i < n
        invariant
            i <= n,
            n == a@.len() == b@.len(),
            forall|l: int| 0 <= l < i ==> a@[l] == b@[l],
        decreases n - i,
    {
        if a[i] != b[i] {
            return false;
        }
        i = i + 1;
    }
    assert(a@ =~= b@);
    true
}

/// An HTTP version token of the form `HTTP/d.d`, 1.1 or higher.
pub open spec fn version_ok(v: Seq<u8>) -> bool {
    &&& v.len() == 8
    &&& v[0] == 72 && v[1] == 84 && v[2] == 84 && v[3] == 80 && v[4] == 47
    &&& 48 <= v[5] <= 57 && v[6] == 46 && 48 <= v[7] <= 57
    &&& (v[5] > 49 || (v[5] == 49 && v[7] >= 49))
}

/// Exec mirror of [`version_ok`].
pub fn check_version(v: &[u8]) -> (r: bool)
    ensures
        r == version_ok(v@),
{
    v.len() == 8 && v[0] == 72 && v[1] == 84 && v[2] == 84 && v[3] == 80 && v[4] == 47 && 48
        <= v[5] && v[5] <= 57 && v[6] == 46 && 48 <= v[7] && v[7] <= 57 && (v[5] > 49 || (v[5]
        == 49 && v[7] >= 49))
}

/// The bytes of an ASCII string literal; callers reveal the literal.
pub fn lit_bytes(s: &str) -> (r: &[u8])
    requires
        s.is_ascii(),
    ensures
        r@ == ascii_seq(s@),
{
    proof {
        vstd::string::is_ascii_spec_bytes(s);
        assert(vstd::string::StringSliceAdditionalSpecFns::spec_bytes(s) =~= ascii_seq(s@));
    }
    s.as_bytes()
}

/// Append ASCII text to a byte vector.
pub fn put_ascii(out: &mut Vec<u8>, s: &str)
    requires
        s.is_ascii(),
    ensures
        final(out)@ == old(out)@ + ascii_seq(s@),
{
    proof {
        is_ascii_spec_bytes(s);
        assert(s.spec_bytes() =~= ascii_seq(s@));
    }
    out.extend_from_slice(s.as_bytes());
}

} // verus!
