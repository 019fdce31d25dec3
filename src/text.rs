//! Byte-level text helpers: searching, splitting and trimming ASCII
//! whitespace, each stated over sequences of bytes.
use vstd::prelude::*;

verus! {

/// ASCII whitespace: space, tab, line feed, form feed, carriage return.
pub open spec fn is_space(b: u8) -> bool {
    b == 0x20u8 || b == 0x09u8 || b == 0x0Au8 || b == 0x0Cu8 || b == 0x0Du8
}

/// The index of the first `sep` in `s`, or the length of `s` when there is none.
pub open spec fn index_of(s: Seq<u8>, sep: u8) -> nat
    decreases s.len(),
{
    if s.len() == 0 {
        0
    } else if s[0] == sep {
        0
    } else {
        1 + index_of(s.drop_first(), sep)
    }
}

/// The index of the first whitespace byte in `s`, or its length when there
/// is none.
pub open spec fn space_index(s: Seq<u8>) -> nat
    decreases s.len(),
{
    if s.len() == 0 {
        0
    } else if is_space(s[0]) {
        0
    } else {
        1 + space_index(s.drop_first())
    }
}

/// The pieces of `s` between occurrences of `sep`: one more piece than
/// there are separators, empty pieces included.
pub open spec fn split(s: Seq<u8>, sep: u8) -> Seq<Seq<u8>>
    decreases s.len(),
{
    let k = index_of(s, sep);
    if k >= s.len() {
        seq![s]
    } else {
        seq![s.take(k as int)] + split(s.skip((k + 1) as int), sep)
    }
}

/// `s` without its leading whitespace.
pub open spec fn trim_start(s: Seq<u8>) -> Seq<u8>
    decreases s.len(),
{
    if s.len() > 0 && is_space(s[0]) {
        trim_start(s.drop_first())
    } else {
        s
    }
}

/// `s` without its trailing whitespace.
pub open spec fn trim_end(s: Seq<u8>) -> Seq<u8>
    decreases s.len(),
{
    if s.len() > 0 && is_space(s.last()) {
        trim_end(s.drop_last())
    } else {
        s
    }
}

/// `s` without leading or trailing whitespace.
pub open spec fn trim(s: Seq<u8>) -> Seq<u8> {
    trim_end(trim_start(s))
}

/// The bytes of `b` from `lo` up to `hi`.
pub open spec fn range_of(b: Seq<u8>, r: (usize, usize)) -> Seq<u8> {
    b.subrange(r.0 as int, r.1 as int)
}

/// Whether a byte is ASCII whitespace.
pub fn is_space_byte(c: u8) -> (r: bool)
    ensures
        r == is_space(c),
{
    c == 0x20u8 || c == 0x09u8 || c == 0x0Au8 || c == 0x0Cu8 || c == 0x0Du8
}

/// The position of the first `sep` in `b[lo..hi]`, or `hi` when there is none.
pub fn find_byte(b: &[u8], lo: usize, hi: usize, sep: u8) -> (r: usize)
    requires
        lo <= hi <= b@.len(),
    ensures
        lo <= r <= hi,
        r - lo == index_of(b@.subrange(lo as int, hi as int), sep),
{
    let mut i = lo;
    while i < hi
        invariant
            lo <= i <= hi <= b@.len(),
            index_of(b@.subrange(lo as int, hi as int), sep) == (i - lo) + index_of(
                b@.subrange(i as int, hi as int),
                sep,
            ),
        decreases hi - i,
    {
        if b[i] == sep {
            return i;
        }
        assert(b@.subrange(i as int, hi as int).drop_first() =~= b@.subrange(i + 1, hi as int));
        i = i + 1;
    }
    i
}

/// The position of the first whitespace byte in `b[lo..hi]`, or `hi` when
/// there is none.
pub fn find_space(b: &[u8], lo: usize, hi: usize) -> (r: usize)
    requires
        lo <= hi <= b@.len(),
    ensures
        lo <= r <= hi,
        r - lo == space_index(b@.subrange(lo as int, hi as int)),
{
    let mut i = lo;
    while i < hi
        invariant
            lo <= i <= hi <= b@.len(),
            space_index(b@.subrange(lo as int, hi as int)) == (i - lo) + space_index(
                b@.subrange(i as int, hi as int),
            ),
        decreases hi - i,
    {
        if is_space_byte(b[i]) {
            return i;
        }
        assert(b@.subrange(i as int, hi as int).drop_first() =~= b@.subrange(i + 1, hi as int));
        i = i + 1;
    }
    i
}

/// The bounds of `b[lo..hi]` with leading and trailing whitespace left out.
pub fn trim_range(b: &[u8], lo: usize, hi: usize) -> (r: (usize, usize))
    requires
        lo <= hi <= b@.len(),
    ensures
        lo <= r.0 <= r.1 <= hi,
        range_of(b@, r) == trim(b@.subrange(lo as int, hi as int)),
{
    let mut i = lo;
    while i < hi && is_space_byte(b[i])
        invariant
            lo <= i <= hi <= b@.len(),
            trim_start(b@.subrange(lo as int, hi as int)) == trim_start(
                b@.subrange(i as int, hi as int),
            ),
        decreases hi - i,
    {
        assert(b@.subrange(i as int, hi as int).drop_first() =~= b@.subrange(i + 1, hi as int));
        i = i + 1;
    }
    let mut j = hi;
    while j > i && is_space_byte(b[j - 1])
        invariant
            lo <= i <= j <= hi <= b@.len(),
            trim(b@.subrange(lo as int, hi as int)) == trim_end(b@.subrange(i as int, j as int)),
        decreases j - i,
    {
        assert(b@.subrange(i as int, j as int).drop_last() =~= b@.subrange(i as int, j - 1));
        j = j - 1;
    }
    (i, j)
}

/// The bounds of the pieces of `b[lo..hi]` between occurrences of `sep`.
pub fn split_ranges(b: &[u8], lo: usize, hi: usize, sep: u8) -> (r: Vec<(usize, usize)>)
    requires
        lo <= hi <= b@.len(),
    ensures
        r@.len() == split(b@.subrange(lo as int, hi as int), sep).len(),
        forall|j: int|
            0 <= j < r@.len() ==> {
                &&& lo <= (#[trigger] r@[j]).0 <= r@[j].1 <= hi
                &&& range_of(b@, r@[j]) == split(b@.subrange(lo as int, hi as int), sep)[j]
            },
{
    let mut out: Vec<(usize, usize)> = Vec::new();
    let mut start = lo;
    let ghost whole = b@.subrange(lo as int, hi as int);
    loop
        invariant
            lo <= start <= hi <= b@.len(),
            whole == b@.subrange(lo as int, hi as int),
            split(whole, sep) =~= out@.map_values(|p: (usize, usize)| range_of(b@, p)) + split(
                b@.subrange(start as int, hi as int),
                sep,
            ),
            forall|j: int| 0 <= j < out@.len() ==> lo <= (#[trigger] out@[j]).0 <= out@[j].1 <= hi,
        decreases hi - start,
    {
        let k = find_byte(b, start, hi, sep);
        let ghost rest = b@.subrange(start as int, hi as int);
        if k >= hi {
            assert(split(rest, sep) == seq![rest]);
            out.push((start, hi));
            assert(split(whole, sep) =~= out@.map_values(|p: (usize, usize)| range_of(b@, p)));
            return out;
        }
        assert(rest.take(k - start) =~= b@.subrange(start as int, k as int));
        assert(rest.skip(k - start + 1) =~= b@.subrange(k + 1, hi as int));
        assert(split(rest, sep) == seq![b@.subrange(start as int, k as int)] + split(
            b@.subrange(k + 1, hi as int),
            sep,
        ));
        out.push((start, k));
        start = k + 1;
    }
}

} // verus!
