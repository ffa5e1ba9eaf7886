//! Byte-string and formatting helpers.
//!
//! Configuration strings and cgroup paths are handled as byte strings,
//! so the parsing here is defined over `Seq<u8>`.  The formatting half
//! renders integers, IPv4 addresses and command lines as text for the
//! output records.

use vstd::prelude::*;

verus! {

/// Length of the longest prefix of `s` free of `sep`; `s.len()` when
/// `sep` does not occur at all, and the index of its first occurrence
/// otherwise.
pub open spec fn spec_find(s: Seq<u8>, sep: u8) -> int
    decreases s.len(),
{
    if s.len() == 0 {
        0
    } else if s[0] == sep {
        0
    } else {
        1 + spec_find(s.drop_first(), sep)
    }
}

/// `spec_find` really is the index of the first occurrence.
pub proof fn lemma_find(s: Seq<u8>, sep: u8)
    ensures
        0 <= spec_find(s, sep) <= s.len(),
        spec_find(s, sep) < s.len() ==> s[spec_find(s, sep)] == sep,
        forall|j: int| 0 <= j < spec_find(s, sep) ==> s[j] != sep,
    decreases s.len(),
{
    if s.len() > 0 && s[0] != sep {
        lemma_find(s.drop_first(), sep);
        assert(forall|j: int|
            0 <= j < spec_find(s.drop_first(), sep) ==> s.drop_first()[j] != sep);
        assert(forall|j: int| 1 <= j < spec_find(s, sep) ==> s[j] == s.drop_first()[j - 1]);
    }
}

/// The pieces of `s` between occurrences of `sep`.  The empty string is
/// one empty piece; a trailing separator yields a trailing empty piece.
pub open spec fn spec_split(s: Seq<u8>, sep: u8) -> Seq<Seq<u8>>
    decreases s.len(),
{
    let i = spec_find(s, sep);
    if 0 <= i < s.len() {
        seq![s.take(i)] + spec_split(s.skip(i + 1), sep)
    } else {
        seq![s]
    }
}

/// Index of the first occurrence of `sep` in `s`, or `s.len()`.
pub fn find_byte(s: &[u8], sep: u8) -> (i: usize)
    ensures
        i == spec_find(s@, sep),
{
    proof {
        lemma_find(s@, sep);
    }
    let mut i: usize = 0;
    while i < s.len()
        invariant
            i <= s@.len(),
            forall|j: int| 0 <= j < i ==> s@[j] != sep,
            0 <= spec_find(s@, sep) <= s@.len(),
            spec_find(s@, sep) < s@.len() ==> s@[spec_find(s@, sep)] == sep,
            forall|j: int| 0 <= j < spec_find(s@, sep) ==> s@[j] != sep,
        decreases s@.len() - i,
    {
        if s[i] == sep {
            return i;
        }
        i = i + 1;
    }
    i
}

/// The bytes `s[from..to]` as an owned vector.
pub fn bytes_of(s: &[u8], from: usize, to: usize) -> (v: Vec<u8>)
    requires
        from <= to <= s@.len(),
    ensures
        v@ == s@.subrange(from as int, to as int),
{
    let mut v: Vec<u8> = Vec::new();
    let mut i: usize = from;
    while i < to
        invariant
            from <= i <= to <= s@.len(),
            v@ =~= s@.subrange(from as int, i as int),
        decreases to - i,
    {
        v.push(s[i]);
        proof {
            assert(v@ =~= s@.subrange(from as int, i + 1));
        }
        i = i + 1;
    }
    proof {
        assert(v@ =~= s@.subrange(from as int, to as int));
    }
    v
}

/// Append all of `s` to `v`.
pub fn append_bytes(v: &mut Vec<u8>, s: &[u8])
    ensures
        final(v)@ == old(v)@ + s@,
{
    let mut i: usize = 0;
    while i < s.len()
        invariant
            i <= s@.len(),
            v@ =~= old(v)@ + s@.take(i as int),
        decreases s@.len() - i,
    {
        v.push(s[i]);
        proof {
            assert(v@ =~= old(v)@ + s@.take(i + 1));
        }
        i = i + 1;
    }
    proof {
        assert(v@ =~= old(v)@ + s@);
    }
}

/// Whether two byte strings hold the same bytes.
pub fn bytes_eq(a: &[u8], b: &[u8]) -> (r: bool)
    ensures
        r == (a@ == b@),
{
    if a.len() != b.len() {
        proof {
            assert(a@.len() != b@.len());
        }
        return false;
    }
    let mut i: usize = 0;
    while i < a.len()
        invariant
            i <= a@.len(),
            a@.len() == b@.len(),
            forall|j: int| 0 <= j < i ==> a@[j] == b@[j],
        decreases a@.len() - i,
    {
        if a[i] != b[i] {
            return false;
        }
        i = i + 1;
    }
    proof {
        assert(a@ =~= b@);
    }
    true
}

/// Split `s` at every occurrence of `sep`.
pub fn split_bytes(s: &[u8], sep: u8) -> (out: Vec<Vec<u8>>)
    ensures
        out.deep_view() == spec_split(s@, sep),
        out@.len() >= 1,
{
    let mut out: Vec<Vec<u8>> = Vec::new();
    let mut start: usize = 0;
    proof {
        assert(s@.subrange(0, s@.len() as int) =~= s@);
    }
    loop
        invariant_except_break
            spec_split(s@, sep) =~~= out.deep_view() + spec_split(
                s@.subrange(start as int, s@.len() as int),
                sep,
            ),
        invariant
            start <= s@.len(),
        ensures
            out.deep_view() =~~= spec_split(s@, sep),
            out@.len() >= 1,
        decreases s@.len() - start,
    {
        let ghost rest = s@.subrange(start as int, s@.len() as int);
        let ghost old_out = out.deep_view();
        proof {
            lemma_find(rest, sep);
        }
        let i = find_byte_from(s, start, sep);
        if i == s.len() {
            let piece = bytes_of(s, start, s.len());
            out.push(piece);
            proof {
                assert(piece.deep_view() =~= rest);
                assert(spec_find(rest, sep) == s@.len() - start);
                assert(spec_split(rest, sep) == seq![rest]);
                assert(out.deep_view() =~~= old_out.push(rest));
                assert(out.deep_view() =~~= spec_split(s@, sep));
            }
            break;
        } else {
            let piece = bytes_of(s, start, i);
            out.push(piece);
            proof {
                assert(spec_find(rest, sep) == i - start);
                assert(rest.take(i - start) =~= s@.subrange(start as int, i as int));
                assert(rest.skip(i - start + 1) =~= s@.subrange(i + 1, s@.len() as int));
                assert(spec_split(rest, sep) == seq![rest.take(i - start)] + spec_split(
                    rest.skip(i - start + 1),
                    sep,
                ));
                assert(piece.deep_view() =~= rest.take(i - start));
                assert(out.deep_view() =~~= old_out.push(rest.take(i - start)));
                assert(out.deep_view() + spec_split(
                    s@.subrange(i + 1, s@.len() as int),
                    sep,
                ) =~~= spec_split(s@, sep));
            }
            start = i + 1;
        }
    }
    out
}

/// Index of the first occurrence of `sep` in `s` at or after `from`, or
/// `s.len()`.
pub fn find_byte_from(s: &[u8], from: usize, sep: u8) -> (i: usize)
    requires
        from <= s@.len(),
    ensures
        from <= i <= s@.len(),
        i - from == spec_find(s@.subrange(from as int, s@.len() as int), sep),
{
    let ghost rest = s@.subrange(from as int, s@.len() as int);
    proof {
        lemma_find(rest, sep);
    }
    let mut i: usize = from;
    while i < s.len()
        invariant
            from <= i <= s@.len(),
            rest == s@.subrange(from as int, s@.len() as int),
            forall|j: int| 0 <= j < i - from ==> rest[j] != sep,
            0 <= spec_find(rest, sep) <= rest.len(),
            spec_find(rest, sep) < rest.len() ==> rest[spec_find(rest, sep)] == sep,
            forall|j: int| 0 <= j < spec_find(rest, sep) ==> rest[j] != sep,
        decreases s@.len() - i,
    {
        if s[i] == sep {
            proof {
                assert(rest[i - from] == sep);
            }
            return i;
        }
        i = i + 1;
    }
    i
}

/// The byte with ASCII lower-case letters replaced by upper case.
pub open spec fn spec_upper_byte(b: u8) -> u8 {
    if 97 <= b <= 122 {
        (b - 32) as u8
    } else {
        b
    }
}

/// `s` with ASCII lower-case letters replaced by upper case.
pub open spec fn spec_upper(s: Seq<u8>) -> Seq<u8> {
    Seq::new(s.len(), |i: int| spec_upper_byte(s[i]))
}

/// ASCII upper-case copy of `s`.
pub fn to_upper(s: &[u8]) -> (v: Vec<u8>)
    ensures
        v@ == spec_upper(s@),
{
    let mut v: Vec<u8> = Vec::new();
    let mut i: usize = 0;
    while i < s.len()
        invariant
            i <= s@.len(),
            v@ =~= spec_upper(s@).take(i as int),
        decreases s@.len() - i,
    {
        let b = s[i];
        let u = if b >= 97 && b <= 122 {
            b - 32
        } else {
            b
        };
        v.push(u);
        proof {
            assert(v@ =~= spec_upper(s@).take(i + 1));
        }
        i = i + 1;
    }
    proof {
        assert(v@ =~= spec_upper(s@));
    }
    v
}

/// The decimal digit `d` as text.
pub open spec fn spec_digit(d: nat) -> Seq<char> {
    if d == 0 {
        "0"@
    } else if d == 1 {
        "1"@
    } else if d == 2 {
        "2"@
    } else if d == 3 {
        "3"@
    } else if d == 4 {
        "4"@
    } else if d == 5 {
        "5"@
    } else if d == 6 {
        "6"@
    } else if d == 7 {
        "7"@
    } else if d == 8 {
        "8"@
    } else {
        "9"@
    }
}

/// The decimal rendering of `v`, without sign or leading zeroes.
pub open spec fn spec_dec(v: nat) -> Seq<char>
    decreases v,
{
    if v < 10 {
        spec_digit(v)
    } else {
        spec_dec(v / 10) + spec_digit(v % 10)
    }
}

/// The decimal rendering of a signed value.
pub open spec fn spec_dec_signed(v: int) -> Seq<char> {
    if v < 0 {
        "-"@ + spec_dec((-v) as nat)
    } else {
        spec_dec(v as nat)
    }
}

fn digit_str(d: u64) -> (s: &'static str)
    requires
        d < 10,
    ensures
        s@ == spec_digit(d as nat),
{
    match d {
        0 => "0",
        1 => "1",
        2 => "2",
        3 => "3",
        4 => "4",
        5 => "5",
        6 => "6",
        7 => "7",
        8 => "8",
        _ => "9",
    }
}

/// Append the decimal rendering of `v` to `s`.
pub fn append_dec(s: &mut String, v: u64)
    ensures
        final(s)@ == old(s)@ + spec_dec(v as nat),
    decreases v,
{
    if v >= 10 {
        append_dec(s, v / 10);
    }
    s.append(digit_str(v % 10));
}

/// The decimal rendering of `v`.
pub fn u64_string(v: u64) -> (s: String)
    ensures
        s@ == spec_dec(v as nat),
{
    let mut s = String::new();
    append_dec(&mut s, v);
    s
}

/// The decimal rendering of `v`, signed.
pub fn i32_string(v: i32) -> (s: String)
    ensures
        s@ == spec_dec_signed(v as int),
{
    if v >= 0 {
        u64_string(v as u64)
    } else {
        let mut s = "-".to_owned();
        let m = (-(v as i64)) as u64;
        append_dec(&mut s, m);
        s
    }
}

/// The dotted-quad rendering of an IPv4 address given as its canonical
/// big-endian value.
pub open spec fn spec_quad(a: u32) -> Seq<char> {
    spec_dec((a / 0x1000000) as nat) + "."@ + spec_dec(((a / 0x10000) % 256) as nat) + "."@
        + spec_dec(((a / 256) % 256) as nat) + "."@ + spec_dec((a % 256) as nat)
}

/// Render an IPv4 address as `a.b.c.d`.
pub fn ipv4_string(a: u32) -> (s: String)
    ensures
        s@ == spec_quad(a),
{
    let mut s = String::new();
    append_dec(&mut s, (a / 0x1000000) as u64);
    s.append(".");
    append_dec(&mut s, ((a / 0x10000) % 256) as u64);
    s.append(".");
    append_dec(&mut s, ((a / 256) % 256) as u64);
    s.append(".");
    append_dec(&mut s, (a % 256) as u64);
    s
}

/// The pieces joined with single spaces.
pub open spec fn spec_join(parts: Seq<Seq<char>>) -> Seq<char>
    decreases parts.len(),
{
    if parts.len() == 0 {
        Seq::empty()
    } else if parts.len() == 1 {
        parts[0]
    } else {
        spec_join(parts.drop_last()) + " "@ + parts.last()
    }
}

/// Join the strings with single spaces, as a command line is shown.
pub fn join_spaces(parts: &Vec<String>) -> (s: String)
    ensures
        s@ == spec_join(parts.deep_view()),
{
    let mut s = String::new();
    let mut i: usize = 0;
    while i < parts.len()
        invariant
            i <= parts@.len(),
            s@ =~= spec_join(parts.deep_view().take(i as int)),
        decreases parts@.len() - i,
    {
        if i > 0 {
            s.append(" ");
        }
        s.append(parts[i].as_str());
        proof {
            assert(parts.deep_view().take(i + 1).drop_last() =~= parts.deep_view().take(i as int));
            assert(parts.deep_view().take(i + 1).last() == parts@[i as int]@);
        }
        i = i + 1;
    }
    proof {
        assert(parts.deep_view().take(parts@.len() as int) =~= parts.deep_view());
    }
    s
}

} // verus!
