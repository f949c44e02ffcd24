//! Byte-string utilities shared by the configuration codec and the message
//! builders: comparison, concatenation, line splitting and joining, and the
//! escaping of configuration values, together with the lemmas that make the
//! save/load round trip provable.

use vstd::prelude::*;
use vstd::string::StrSliceExecFns;
use vstd::string::StringSliceAdditionalSpecFns;

verus! {

/// Line separator of the configuration files.
pub const NL: u8 = 10;

/// Space, as it surrounds the `=` of a key/value line.
pub const SP: u8 = 32;

/// The `=` of a key/value line.
pub const EQ: u8 = 61;

/// The double quote delimiting a configuration value.
pub const QU: u8 = 34;

/// The backslash introducing an escape in a configuration value.
pub const BS: u8 = 92;

/// The `#` starting a comment line.
pub const HASH: u8 = 35;

/// The `[` starting a table header line.
pub const LBRACKET: u8 = 91;

/// The views of a sequence of byte vectors.
pub open spec fn lines_view(r: Seq<Vec<u8>>) -> Seq<Seq<u8>> {
    r.map_values(|v: Vec<u8>| v@)
}

/// The view of an optional byte vector.
pub open spec fn opt_bytes_view(r: Option<Vec<u8>>) -> Option<Seq<u8>> {
    match r {
        Some(v) => Some(v@),
        None => None,
    }
}

/// True when no byte of `s` is a line separator.
pub open spec fn has_no_newline(s: Seq<u8>) -> bool {
    forall|j: int| 0 <= j < s.len() ==> s[j] != NL
}

/// Compares two byte vectors for equality of their contents.
pub fn bytes_eq(a: &Vec<u8>, b: &Vec<u8>) -> (r: bool)
    ensures
        r == (a@ == b@),
{
    if a.len() != b.len() {
        proof {
            assert(a@ != b@);
        }
        return false;
    }
    let n = a.len();
    let mut i: usize = 0;
    while i < n
        invariant
            n == a@.len() == b@.len(),
            0 <= i <= n,
            forall|j: int| 0 <= j < i ==> a@[j] == b@[j],
        decreases n - i,
    {
        if a[i] != b[i] {
            proof {
                assert(a@ != b@);
            }
            return false;
        }
        i += 1;
    }
    proof {
        assert(a@ =~= b@);
    }
    true
}

/// Appends the contents of `src` to the end of `dst`.
pub fn append_bytes(dst: &mut Vec<u8>, src: &Vec<u8>)
    ensures
        final(dst)@ == old(dst)@ + src@,
{
    let n = src.len();
    let mut i: usize = 0;
    while i < n
        invariant
            n == src@.len(),
            0 <= i <= n,
            dst@ == old(dst)@ + src@.subrange(0, i as int),
        decreases n - i,
    {
        dst.push(src[i]);
        proof {
            assert(dst@ =~= old(dst)@ + src@.subrange(0, i + 1));
        }
        i += 1;
    }
    proof {
        assert(dst@ =~= old(dst)@ + src@);
    }
}

/// Copies the bytes of `v` between `a` (included) and `b` (excluded).
pub fn vec_subrange(v: &Vec<u8>, a: usize, b: usize) -> (r: Vec<u8>)
    requires
        a <= b <= v@.len(),
    ensures
        r@ == v@.subrange(a as int, b as int),
{
    let mut r: Vec<u8> = Vec::new();
    let mut i: usize = a;
    while i < b
        invariant
            a <= i <= b <= v@.len(),
            r@ == v@.subrange(a as int, i as int),
        decreases b - i,
    {
        r.push(v[i]);
        proof {
            assert(r@ =~= v@.subrange(a as int, i + 1));
        }
        i += 1;
    }
    r
}

/// Copies a byte vector.
pub fn clone_bytes(v: &Vec<u8>) -> (r: Vec<u8>)
    ensures
        r@ == v@,
{
    let r = vec_subrange(v, 0, v.len());
    proof {
        assert(v@.subrange(0, v@.len() as int) =~= v@);
    }
    r
}

/// True when `s` ends with `p`.
pub open spec fn spec_ends_with(s: Seq<u8>, p: Seq<u8>) -> bool {
    s.len() >= p.len() && s.subrange(s.len() - p.len(), s.len() as int) == p
}

/// Decides whether `v` ends with `p`.
pub fn ends_with(v: &Vec<u8>, p: &Vec<u8>) -> (r: bool)
    ensures
        r == spec_ends_with(v@, p@),
{
    if v.len() < p.len() {
        return false;
    }
    let start = v.len() - p.len();
    let n = p.len();
    let mut i: usize = 0;
    while i < n
        invariant
            n == p@.len() <= v@.len(),
            v@.len() <= usize::MAX,
            start == v@.len() - p@.len(),
            0 <= i <= n,
            forall|j: int| 0 <= j < i ==> v@[start + j] == p@[j],
        decreases n - i,
    {
        if v[start + i] != p[i] {
            proof {
                let ii = i as int;
                assert(v@.subrange(v@.len() - p@.len(), v@.len() as int)[ii] != p@[ii]);
            }
            return false;
        }
        i += 1;
    }
    proof {
        assert(v@.subrange(v@.len() - p@.len(), v@.len() as int) =~= p@);
    }
    true
}

/// The bytes of a string slice.
pub fn str_bytes(s: &str) -> (r: Vec<u8>)
    ensures
        r@ == s.spec_bytes(),
{
    s.as_bytes_vec()
}

/// True when `s` begins with `p`.
pub open spec fn spec_starts_with(s: Seq<u8>, p: Seq<u8>) -> bool {
    s.len() >= p.len() && s.subrange(0, p.len() as int) == p
}

/// Decides whether `v` begins with `p`.
pub fn starts_with(v: &Vec<u8>, p: &Vec<u8>) -> (r: bool)
    ensures
        r == spec_starts_with(v@, p@),
{
    if v.len() < p.len() {
        return false;
    }
    let n = p.len();
    let mut i: usize = 0;
    while i < n
        invariant
            n == p@.len() <= v@.len(),
            0 <= i <= n,
            forall|j: int| 0 <= j < i ==> v@[j] == p@[j],
        decreases n - i,
    {
        if v[i] != p[i] {
            proof {
                assert(v@.subrange(0, p@.len() as int)[i as int] != p@[i as int]);
            }
            return false;
        }
        i += 1;
    }
    proof {
        assert(v@.subrange(0, p@.len() as int) =~= p@);
    }
    true
}

/// Index of the first occurrence of `b` in `s`, or the length of `s` when
/// `b` does not occur.
pub open spec fn first_index_of(s: Seq<u8>, b: u8) -> nat
    decreases s.len(),
{
    if s.len() == 0 {
        0
    } else if s[0] == b {
        0
    } else {
        1 + first_index_of(s.subrange(1, s.len() as int), b)
    }
}

/// Pins `first_index_of` to `i` when the bytes before `i` avoid `b` and the
/// byte at `i` (when there is one) is `b`.
pub proof fn lemma_first_index_of_is(s: Seq<u8>, b: u8, i: int)
    requires
        0 <= i <= s.len(),
        forall|j: int| 0 <= j < i ==> s[j] != b,
        i < s.len() ==> s[i] == b,
    ensures
        first_index_of(s, b) == i,
    decreases s.len(),
{
    if s.len() == 0 {
    } else if s[0] == b {
        assert(i == 0);
    } else {
        let t = s.subrange(1, s.len() as int);
        assert(i >= 1);
        assert(forall|j: int| 0 <= j < i - 1 ==> t[j] == s[j + 1] && s[j + 1] != b);
        assert(i - 1 < t.len() ==> t[i - 1] == s[i]);
        lemma_first_index_of_is(t, b, i - 1);
    }
}

/// Finds the first occurrence of `b` in `v` at or after `from`, returning
/// the length of `v` when there is none.
pub fn find_from(v: &Vec<u8>, from: usize, b: u8) -> (j: usize)
    requires
        from <= v@.len(),
    ensures
        from <= j <= v@.len(),
        forall|k: int| from <= k < j ==> v@[k] != b,
        j < v@.len() ==> v@[j as int] == b,
    decreases v@.len() - from,
{
    let n = v.len();
    let mut j: usize = from;
    while j < n
        invariant
            from <= j <= n == v@.len(),
            forall|k: int| from <= k < j ==> v@[k] != b,
        decreases n - j,
    {
        if v[j] == b {
            return j;
        }
        j += 1;
    }
    j
}

/// The lines of `s`: maximal runs of bytes between line separators, the last
/// line needing no terminating separator.
pub open spec fn spec_split_lines(s: Seq<u8>) -> Seq<Seq<u8>>
    decreases s.len(),
{
    if s.len() == 0 {
        Seq::<Seq<u8>>::empty()
    } else {
        let i = first_index_of(s, NL);
        if i < s.len() {
            seq![s.subrange(0, i as int)] + spec_split_lines(
                s.subrange(i as int + 1, s.len() as int),
            )
        } else {
            seq![s]
        }
    }
}

/// The concatenation of `lines`, each line terminated by a line separator.
pub open spec fn spec_join_lines(lines: Seq<Seq<u8>>) -> Seq<u8>
    decreases lines.len(),
{
    if lines.len() == 0 {
        Seq::<u8>::empty()
    } else {
        lines[0] + seq![NL] + spec_join_lines(lines.subrange(1, lines.len() as int))
    }
}

/// Joining distributes over concatenation of line sequences.
pub proof fn lemma_join_lines_concat(a: Seq<Seq<u8>>, b: Seq<Seq<u8>>)
    ensures
        spec_join_lines(a + b) == spec_join_lines(a) + spec_join_lines(b),
    decreases a.len(),
{
    if a.len() == 0 {
        assert(a + b =~= b);
        assert(spec_join_lines(a) + spec_join_lines(b) =~= spec_join_lines(b));
    } else {
        lemma_join_lines_concat(a.subrange(1, a.len() as int), b);
        assert((a + b).subrange(1, (a + b).len() as int) =~= a.subrange(1, a.len() as int) + b);
        assert((a + b)[0] == a[0]);
        assert(spec_join_lines(a + b) =~= spec_join_lines(a) + spec_join_lines(b));
    }
}

/// Splitting undoes joining, provided no line holds a line separator.
pub proof fn lemma_split_join_lines(lines: Seq<Seq<u8>>)
    requires
        forall|k: int| 0 <= k < lines.len() ==> has_no_newline(#[trigger] lines[k]),
    ensures
        spec_split_lines(spec_join_lines(lines)) == lines,
    decreases lines.len(),
{
    if lines.len() == 0 {
    } else {
        let l0 = lines[0];
        let rest = lines.subrange(1, lines.len() as int);
        let s = spec_join_lines(lines);
        assert(s == l0 + seq![NL] + spec_join_lines(rest));
        assert(forall|j: int| 0 <= j < l0.len() ==> s[j] == l0[j] && s[j] != NL);
        assert(s[l0.len() as int] == NL);
        lemma_first_index_of_is(s, NL, l0.len() as int);
        assert(s.subrange(0, l0.len() as int) =~= l0);
        assert(s.subrange(l0.len() as int + 1, s.len() as int) =~= spec_join_lines(rest));
        assert(forall|k: int|
            0 <= k < rest.len() ==> has_no_newline(#[trigger] rest[k]) == has_no_newline(
                lines[k + 1],
            ));
        lemma_split_join_lines(rest);
        assert(spec_split_lines(s) =~= lines);
    }
}

/// Splits `text` into its lines.
pub fn split_lines(text: &Vec<u8>) -> (r: Vec<Vec<u8>>)
    ensures
        lines_view(r@) == spec_split_lines(text@),
{
    let n = text.len();
    let mut r: Vec<Vec<u8>> = Vec::new();
    let mut pos: usize = 0;
    proof {
        assert(text@.subrange(0, n as int) =~= text@);
        assert(lines_view(r@) =~= Seq::<Seq<u8>>::empty());
        assert(lines_view(r@) + spec_split_lines(text@) =~= spec_split_lines(text@));
    }
    while pos < n
        invariant
            0 <= pos <= n == text@.len(),
            spec_split_lines(text@) =~= lines_view(r@) + spec_split_lines(
                text@.subrange(pos as int, n as int),
            ),
        decreases n - pos,
    {
        let j = find_from(text, pos, NL);
        let line = vec_subrange(text, pos, j);
        proof {
            let sub = text@.subrange(pos as int, n as int);
            assert(forall|k: int| 0 <= k < j - pos ==> sub[k] == text@[pos + k] && sub[k] != NL);
            assert(j < n ==> sub[j - pos] == text@[j as int]);
            lemma_first_index_of_is(sub, NL, j - pos);
            if j < n {
                assert(sub.subrange(0, j - pos) =~= line@);
                assert(sub.subrange(j - pos + 1, sub.len() as int) =~= text@.subrange(
                    j + 1,
                    n as int,
                ));
                assert(spec_split_lines(sub) == seq![line@] + spec_split_lines(
                    text@.subrange(j + 1, n as int),
                ));
            } else {
                assert(sub =~= line@);
                assert(spec_split_lines(sub) == seq![line@]);
            }
            assert(lines_view(r@.push(line)) =~= lines_view(r@) + seq![line@]);
        }
        r.push(line);
        if j < n {
            pos = j + 1;
        } else {
            pos = n;
        }
    }
    proof {
        assert(text@.subrange(n as int, n as int) =~= Seq::<u8>::empty());
        assert(lines_view(r@) =~= spec_split_lines(text@));
    }
    r
}

/// How one byte of a configuration value stands in the file: quotes,
/// backslashes and line separators hide behind a backslash, every other
/// byte stands for itself.
pub open spec fn spec_escape_byte(b: u8) -> Seq<u8> {
    if b == QU || b == BS {
        seq![BS, b]
    } else if b == NL {
        seq![BS, ('n' as u8)]
    } else {
        seq![b]
    }
}

/// The escaped form of a configuration value.
pub open spec fn spec_escape(s: Seq<u8>) -> Seq<u8>
    decreases s.len(),
{
    if s.len() == 0 {
        Seq::<u8>::empty()
    } else {
        spec_escape_byte(s[0]) + spec_escape(s.subrange(1, s.len() as int))
    }
}

/// What decoding an escaped value yields, when every escape is well formed
/// and no unescaped quote or line separator stands in it.
pub open spec fn spec_unescape(s: Seq<u8>) -> Option<Seq<u8>>
    decreases s.len(),
{
    if s.len() == 0 {
        Some(Seq::<u8>::empty())
    } else if s[0] == BS {
        if s.len() >= 2 {
            let d = if s[1] == QU || s[1] == BS {
                Some(s[1])
            } else if s[1] == ('n' as u8) {
                Some(NL)
            } else {
                None
            };
            match d {
                None => None,
                Some(b) => match spec_unescape(s.subrange(2, s.len() as int)) {
                    None => None,
                    Some(r) => Some(seq![b] + r),
                },
            }
        } else {
            None
        }
    } else if s[0] == QU || s[0] == NL {
        None
    } else {
        match spec_unescape(s.subrange(1, s.len() as int)) {
            None => None,
            Some(r) => Some(seq![s[0]] + r),
        }
    }
}

/// Escaping distributes over concatenation.
pub proof fn lemma_escape_concat(a: Seq<u8>, b: Seq<u8>)
    ensures
        spec_escape(a + b) == spec_escape(a) + spec_escape(b),
    decreases a.len(),
{
    if a.len() == 0 {
        assert(a + b =~= b);
        assert(spec_escape(a) + spec_escape(b) =~= spec_escape(b));
    } else {
        lemma_escape_concat(a.subrange(1, a.len() as int), b);
        assert((a + b).subrange(1, (a + b).len() as int) =~= a.subrange(1, a.len() as int) + b);
        assert((a + b)[0] == a[0]);
        assert(spec_escape(a + b) =~= spec_escape(a) + spec_escape(b));
    }
}

/// An escaped value holds no line separator.
pub proof fn lemma_escape_no_newline(s: Seq<u8>)
    ensures
        has_no_newline(spec_escape(s)),
    decreases s.len(),
{
    if s.len() == 0 {
    } else {
        lemma_escape_no_newline(s.subrange(1, s.len() as int));
        let eb = spec_escape_byte(s[0]);
        let rest = spec_escape(s.subrange(1, s.len() as int));
        assert forall|j: int| 0 <= j < spec_escape(s).len() implies spec_escape(s)[j] != NL by {
            if j < eb.len() {
                assert(spec_escape(s)[j] == eb[j]);
            } else {
                assert(spec_escape(s)[j] == rest[j - eb.len()]);
            }
        }
    }
}

/// Decoding undoes escaping.
pub proof fn lemma_unescape_escape(s: Seq<u8>)
    ensures
        spec_unescape(spec_escape(s)) == Some(s),
    decreases s.len(),
{
    if s.len() == 0 {
        assert(spec_escape(s) =~= Seq::<u8>::empty());
        assert(Seq::<u8>::empty() =~= s);
    } else {
        let tail = s.subrange(1, s.len() as int);
        lemma_unescape_escape(tail);
        let e = spec_escape(s);
        let eb = spec_escape_byte(s[0]);
        assert(e == eb + spec_escape(tail));
        if s[0] == QU || s[0] == BS {
            assert(e[0] == BS && e[1] == s[0]);
            assert(e.subrange(2, e.len() as int) =~= spec_escape(tail));
            assert(seq![s[0]] + tail =~= s);
        } else if s[0] == NL {
            assert(e[0] == BS && e[1] == ('n' as u8));
            assert(e.subrange(2, e.len() as int) =~= spec_escape(tail));
            assert(seq![NL] + tail =~= s);
        } else {
            assert(e[0] == s[0]);
            assert(e[0] != BS && e[0] != QU && e[0] != NL);
            assert(e.subrange(1, e.len() as int) =~= spec_escape(tail));
            assert(seq![s[0]] + tail =~= s);
        }
    }
}

/// Escapes a configuration value.
pub fn escape_bytes(s: &Vec<u8>) -> (r: Vec<u8>)
    ensures
        r@ == spec_escape(s@),
{
    let n = s.len();
    let mut r: Vec<u8> = Vec::new();
    let mut i: usize = 0;
    while i < n
        invariant
            n == s@.len(),
            0 <= i <= n,
            r@ == spec_escape(s@.subrange(0, i as int)),
        decreases n - i,
    {
        let b = s[i];
        proof {
            lemma_escape_concat(s@.subrange(0, i as int), seq![b]);
            assert(s@.subrange(0, i + 1) =~= s@.subrange(0, i as int) + seq![b]);
            assert(seq![b].subrange(1, 1) =~= Seq::<u8>::empty());
            assert(spec_escape(Seq::<u8>::empty()) =~= Seq::<u8>::empty());
            assert(spec_escape(seq![b]) =~= spec_escape_byte(b));
        }
        if b == QU || b == BS {
            r.push(BS);
            r.push(b);
        } else if b == NL {
            r.push(BS);
            r.push('n' as u8);
        } else {
            r.push(b);
        }
        proof {
            assert(r@ =~= spec_escape(s@.subrange(0, i as int)) + spec_escape_byte(b));
        }
        i += 1;
    }
    proof {
        assert(s@.subrange(0, n as int) =~= s@);
    }
    r
}

/// Decodes an escaped configuration value.
pub fn unescape_bytes(s: &Vec<u8>) -> (r: Option<Vec<u8>>)
    ensures
        opt_bytes_view(r) == spec_unescape(s@),
{
    let n = s.len();
    let mut out: Vec<u8> = Vec::new();
    let mut i: usize = 0;
    proof {
        assert(s@.subrange(0, n as int) =~= s@);
        if spec_unescape(s@) is Some {
            assert(out@ + spec_unescape(s@)->0 =~= spec_unescape(s@)->0);
        }
    }
    while i < n
        invariant
            n == s@.len(),
            0 <= i <= n,
            spec_unescape(s@) == match spec_unescape(s@.subrange(i as int, n as int)) {
                None => None::<Seq<u8>>,
                Some(t) => Some(out@ + t),
            },
        decreases n - i,
    {
        let b = s[i];
        let ghost sub = s@.subrange(i as int, n as int);
        proof {
            assert(sub[0] == b);
        }
        if b == BS {
            if i + 1 >= n {
                proof {
                    assert(sub.len() == 1);
                    assert(spec_unescape(sub) is None);
                }
                return None;
            }
            let c = s[i + 1];
            proof {
                assert(sub[1] == c);
                assert(sub.subrange(2, sub.len() as int) =~= s@.subrange(i + 2, n as int));
            }
            if c == QU || c == BS {
                out.push(c);
            } else if c == 'n' as u8 {
                out.push(NL);
            } else {
                proof {
                    assert(spec_unescape(sub) is None);
                }
                return None;
            }
            proof {
                let ghost nxt = spec_unescape(s@.subrange(i + 2, n as int));
                if nxt is Some {
                    assert(out@ + nxt->0 =~= (out@.subrange(0, out@.len() - 1)) + (seq![
                        out@[out@.len() - 1],
                    ] + nxt->0));
                }
            }
            i += 2;
        } else if b == QU || b == NL {
            proof {
                assert(spec_unescape(sub) is None);
            }
            return None;
        } else {
            proof {
                assert(sub.subrange(1, sub.len() as int) =~= s@.subrange(i + 1, n as int));
                let ghost nxt = spec_unescape(s@.subrange(i + 1, n as int));
                if nxt is Some {
                    assert(out@.push(b) + nxt->0 =~= out@ + (seq![b] + nxt->0));
                }
            }
            out.push(b);
            i += 1;
        }
    }
    proof {
        assert(s@.subrange(n as int, n as int) =~= Seq::<u8>::empty());
        assert(out@ + Seq::<u8>::empty() =~= out@);
    }
    Some(out)
}

/// Decimal digits of `n`, most significant first.
pub open spec fn spec_udecimal(n: nat) -> Seq<u8>
    decreases n,
{
    if n < 10 {
        seq![(48 + n) as u8]
    } else {
        spec_udecimal(n / 10) + seq![(48 + n % 10) as u8]
    }
}

/// Decimal rendering of `n`, with a leading `-` when negative.
pub open spec fn spec_decimal(n: int) -> Seq<u8> {
    if n < 0 {
        seq![('-' as u8)] + spec_udecimal((-n) as nat)
    } else {
        spec_udecimal(n as nat)
    }
}

/// Renders an unsigned number in decimal.
pub fn u64_decimal(x: u64) -> (r: Vec<u8>)
    ensures
        r@ == spec_udecimal(x as nat),
    decreases x,
{
    if x < 10 {
        let mut r: Vec<u8> = Vec::new();
        r.push(48 + x as u8);
        proof {
            assert(r@ =~= spec_udecimal(x as nat));
        }
        r
    } else {
        let mut r = u64_decimal(x / 10);
        r.push(48 + (x % 10) as u8);
        proof {
            assert(r@ =~= spec_udecimal((x / 10) as nat) + seq![(48 + (x as nat) % 10) as u8]);
        }
        r
    }
}

/// Renders a signed number in decimal.
pub fn i32_decimal(x: i32) -> (r: Vec<u8>)
    ensures
        r@ == spec_decimal(x as int),
{
    if x < 0 {
        let m = -(x as i64);
        let mut r: Vec<u8> = Vec::new();
        r.push('-' as u8);
        let d = u64_decimal(m as u64);
        append_bytes(&mut r, &d);
        proof {
            assert(r@ =~= spec_decimal(x as int));
        }
        r
    } else {
        u64_decimal(x as u64)
    }
}

/// A key/value line of a configuration file: the key, ` = `, and the escaped
/// value between double quotes.
pub open spec fn spec_kv_line(key: Seq<u8>, value: Seq<u8>) -> Seq<u8> {
    key + seq![SP, EQ, SP, QU] + spec_escape(value) + seq![QU]
}

/// What reading a key/value line yields: the key and the decoded value, when
/// the line has that shape.
pub open spec fn spec_parse_kv_line(line: Seq<u8>) -> Option<(Seq<u8>, Seq<u8>)> {
    let e = first_index_of(line, EQ) as int;
    if 1 <= e && e + 3 < line.len() && line[e - 1] == SP && line[e + 1] == SP && line[e + 2] == QU
        && line[line.len() - 1] == QU {
        match spec_unescape(line.subrange(e + 3, line.len() - 1)) {
            None => None,
            Some(v) => Some((line.subrange(0, e - 1), v)),
        }
    } else {
        None
    }
}

/// Renders a key/value line.
pub fn kv_line(key: &Vec<u8>, value: &Vec<u8>) -> (r: Vec<u8>)
    ensures
        r@ == spec_kv_line(key@, value@),
{
    let mut r: Vec<u8> = Vec::new();
    append_bytes(&mut r, key);
    r.push(SP);
    r.push(EQ);
    r.push(SP);
    r.push(QU);
    let esc = escape_bytes(value);
    append_bytes(&mut r, &esc);
    r.push(QU);
    proof {
        assert(r@ =~= spec_kv_line(key@, value@));
    }
    r
}

/// Reads a key/value line.
pub fn parse_kv_line(line: &Vec<u8>) -> (r: Option<(Vec<u8>, Vec<u8>)>)
    ensures
        match r {
            Some(p) => spec_parse_kv_line(line@) == Some((p.0@, p.1@)),
            None => spec_parse_kv_line(line@) is None,
        },
{
    let n = line.len();
    let e = find_from(line, 0, EQ);
    proof {
        lemma_first_index_of_is(line@, EQ, e as int);
    }
    if e < 1 || e >= n {
        return None;
    }
    if n - e <= 3 {
        return None;
    }
    if line[e - 1] != SP || line[e + 1] != SP || line[e + 2] != QU || line[n - 1] != QU {
        return None;
    }
    let mid = vec_subrange(line, e + 3, n - 1);
    match unescape_bytes(&mid) {
        None => None,
        Some(v) => {
            let key = vec_subrange(line, 0, e - 1);
            Some((key, v))
        },
    }
}

/// A line of the shape rendered by `kv_line` reads back as its key and value,
/// provided the key holds no `=`.
pub proof fn lemma_kv_line_round_trip(key: Seq<u8>, value: Seq<u8>)
    requires
        forall|j: int| 0 <= j < key.len() ==> key[j] != EQ,
    ensures
        spec_parse_kv_line(spec_kv_line(key, value)) == Some((key, value)),
{
    let line = spec_kv_line(key, value);
    let esc = spec_escape(value);
    let kl = key.len() as int;
    assert(line.len() == kl + 5 + esc.len());
    assert(forall|j: int| 0 <= j < kl ==> line[j] == key[j] && line[j] != EQ);
    assert(line[kl] == SP && line[kl + 1] == EQ && line[kl + 2] == SP && line[kl + 3] == QU);
    lemma_first_index_of_is(line, EQ, kl + 1);
    let e = kl + 1;
    assert(line[line.len() - 1] == QU);
    assert(line.subrange(e + 3, line.len() - 1) =~= esc);
    lemma_unescape_escape(value);
    assert(line.subrange(0, e - 1) =~= key);
}

/// A rendered key/value line holds no line separator, provided the key
/// holds none.
pub proof fn lemma_kv_line_no_newline(key: Seq<u8>, value: Seq<u8>)
    requires
        has_no_newline(key),
    ensures
        has_no_newline(spec_kv_line(key, value)),
{
    let line = spec_kv_line(key, value);
    let esc = spec_escape(value);
    let kl = key.len() as int;
    lemma_escape_no_newline(value);
    assert forall|j: int| 0 <= j < line.len() implies line[j] != NL by {
        if j < kl {
            assert(line[j] == key[j]);
        } else if j < kl + 4 {
            assert(line[j] == seq![SP, EQ, SP, QU][j - kl]);
        } else if j < kl + 4 + esc.len() {
            assert(line[j] == esc[j - kl - 4]);
        } else {
            assert(line[j] == QU);
        }
    }
}

} // verus!
