//! Reading a new context's identifier from its canonical path, and bounding
//! what a read hands back.
use vstd::prelude::*;

use crate::error::CloneError;

verus! {

/// The byte `:` that ends the scheme part of a context path.
pub const COLON: u8 = 58;
/// The byte `/` that ends the identifier part of a context path.
pub const SLASH: u8 = 47;
/// The byte `+` that may lead a decimal number.
pub const PLUS: u8 = 43;

/// Size of the buffer a context path is read back into.
pub const PATH_BOUND: usize = 64;

/// Size of the buffer a textual attribute (`name`, `cwd`) is read into.
pub const ATTRIBUTE_BOUND: usize = 256;

/// Index of the first `c` in `s` at or after `from`, or `s.len()` when there is none.
pub open spec fn find_from(s: Seq<u8>, c: u8, from: int) -> int
    decreases s.len() - from,
{
    if from >= s.len() {
        s.len() as int
    } else if s[from] == c {
        from
    } else {
        find_from(s, c, from + 1)
    }
}

pub open spec fn is_digit(b: u8) -> bool {
    48 <= b <= 57
}

pub open spec fn all_digits(s: Seq<u8>) -> bool {
    forall|i: int| 0 <= i < s.len() ==> is_digit(#[trigger] s[i])
}

/// The value of a string of decimal digits, most significant first.
pub open spec fn decimal_value(s: Seq<u8>) -> nat
    decreases s.len(),
{
    if s.len() == 0 {
        0
    } else {
        decimal_value(s.drop_last()) * 10 + (s.last() - 48) as nat
    }
}

/// The digits of a number text once an optional leading `+` is taken off.
pub open spec fn unsigned_digits(s: Seq<u8>) -> Seq<u8> {
    if s.len() > 0 && s[0] == PLUS {
        s.drop_first()
    } else {
        s
    }
}

/// What parsing `s` as a machine-word unsigned integer gives: an optional `+`,
/// then one or more decimal digits whose value fits in a `usize`.
pub open spec fn parse_unsigned(s: Seq<u8>) -> Option<usize> {
    let d = unsigned_digits(s);
    if d.len() > 0 && all_digits(d) && decimal_value(d) <= usize::MAX {
        Some(decimal_value(d) as usize)
    } else {
        None
    }
}

/// The identifier in a context path `scheme:<id>/rest`: the text between the
/// first `:` and the first `/` after it.
pub open spec fn context_id_of(p: Seq<u8>) -> Result<usize, CloneError> {
    let colon = find_from(p, COLON, 0);
    let slash = find_from(p, SLASH, colon);
    if colon >= p.len() || slash >= p.len() {
        Err(CloneError::Invalid)
    } else {
        match parse_unsigned(p.subrange(colon + 1, slash)) {
            Some(v) => Ok(v),
            None => Err(CloneError::Invalid),
        }
    }
}

/// The first `len` bytes of `buf`, or `NameTooLong` when it holds fewer.
pub open spec fn bounded_prefix_of(buf: Seq<u8>, len: usize) -> Result<Seq<u8>, CloneError> {
    if len <= buf.len() {
        Ok(buf.subrange(0, len as int))
    } else {
        Err(CloneError::NameTooLong)
    }
}

/// The identifier in the first `len` bytes of `buf`, as a path read back into `buf`.
pub open spec fn context_id_from_read(buf: Seq<u8>, len: usize) -> Result<usize, CloneError> {
    match bounded_prefix_of(buf, len) {
        Ok(p) => context_id_of(p),
        Err(e) => Err(e),
    }
}

proof fn lemma_prefix_value_grows(s: Seq<u8>, lo: int, i: int, j: int)
    requires
        0 <= lo <= i <= j <= s.len(),
    ensures
        decimal_value(s.subrange(lo, i)) <= decimal_value(s.subrange(lo, j)),
    decreases j - i,
{
    if i < j {
        lemma_prefix_value_grows(s, lo, i, j - 1);
        assert(s.subrange(lo, j).drop_last() =~= s.subrange(lo, j - 1));
    }
}

fn position_from(s: &[u8], c: u8, from: usize) -> (r: usize)
    requires
        from <= s@.len(),
    ensures
        r as int == find_from(s@, c, from as int),
        from <= r <= s@.len(),
        r < s@.len() ==> s@[r as int] == c,
{
    let mut i: usize = from;
    while i < s.len()
        invariant
            from <= i <= s@.len(),
            find_from(s@, c, i as int) == find_from(s@, c, from as int),
        decreases s.len() - i,
    {
        if s[i] == c {
            return i;
        }
        i = i + 1;
    }
    i
}

/// Parses `s[lo..hi]` as an unsigned machine word.
pub fn parse_unsigned_range(s: &[u8], lo: usize, hi: usize) -> (r: Option<usize>)
    requires
        lo <= hi <= s@.len(),
    ensures
        r == parse_unsigned(s@.subrange(lo as int, hi as int)),
{
    let ghost t = s@.subrange(lo as int, hi as int);
    let mut start: usize = lo;
    if lo < hi && s[lo] == PLUS {
        start = lo + 1;
    }
    proof {
        assert(unsigned_digits(t) =~= s@.subrange(start as int, hi as int));
    }
    if start == hi {
        return None;
    }
    let mut v: usize = 0;
    let mut i: usize = start;
    while i < hi
        invariant
            lo <= start <= i <= hi <= s@.len(),
            start < hi,
            t == s@.subrange(lo as int, hi as int),
            unsigned_digits(t) == s@.subrange(start as int, hi as int),
            all_digits(s@.subrange(start as int, i as int)),
            v as nat == decimal_value(s@.subrange(start as int, i as int)),
        decreases hi - i,
    {
        let b = s[i];
        proof {
            assert(s@.subrange(start as int, i + 1).drop_last() =~= s@.subrange(start as int, i as int));
        }
        if b < 48 || b > 57 {
            proof {
                let d = s@.subrange(start as int, hi as int);
                assert(d[i - start] == b);
                assert(!is_digit(d[i - start]));
                assert(!all_digits(d));
                assert(parse_unsigned(t) is None);
            }
            return None;
        }
        let next = match v.checked_mul(10) {
            Some(m) => m.checked_add((b - 48) as usize),
            None => None,
        };
        match next {
            Some(n) => {
                v = n;
            },
            None => {
                proof {
                    let p = s@.subrange(start as int, i + 1);
                    assert(p.last() == b);
                    assert(decimal_value(p) == v * 10 + (b - 48));
                    lemma_prefix_value_grows(s@, start as int, i + 1, hi as int);
                    assert(parse_unsigned(t) is None);
                }
                return None;
            },
        }
        proof {
            assert forall|k: int| 0 <= k < i + 1 - start implies is_digit(
                #[trigger] s@.subrange(start as int, i + 1)[k],
            ) by {
                if k < i - start {
                    assert(s@.subrange(start as int, i + 1)[k] == s@.subrange(start as int, i as int)[k]);
                }
            }
        }
        i = i + 1;
    }
    Some(v)
}

/// The first `len` bytes of `buf`, as a read of `len` bytes into `buf` left them.
pub fn bounded_prefix(buf: &[u8], len: usize) -> (r: Result<Vec<u8>, CloneError>)
    ensures
        match (r, bounded_prefix_of(buf@, len)) {
            (Ok(v), Ok(p)) => v@ == p,
            (Err(e), Err(f)) => e == f,
            _ => false,
        },
{
    if len > buf.len() {
        return Err(CloneError::NameTooLong);
    }
    let mut out: Vec<u8> = Vec::with_capacity(len);
    let mut i: usize = 0;
    while i < len
        invariant
            i <= len <= buf@.len(),
            out@ == buf@.subrange(0, i as int),
        decreases len - i,
    {
        out.push(buf[i]);
        proof {
            assert(out@ =~= buf@.subrange(0, i + 1));
        }
        i = i + 1;
    }
    Ok(out)
}

/// An attribute read whole into a buffer is written on unchanged: when the
/// read put the `a.len()` bytes of `a` at the start of `buf`, what is written
/// is exactly `a`; a read that reports more than the buffer holds fails with
/// `NameTooLong`, and nothing is written.
pub proof fn lemma_attribute_copied_whole(buf: Seq<u8>, a: Seq<u8>, len: usize)
    requires
        len == a.len() ==> a.len() <= buf.len() && buf.subrange(0, a.len() as int) == a,
    ensures
        len == a.len() ==> bounded_prefix_of(buf, len) == Ok::<Seq<u8>, CloneError>(a),
        len > buf.len() ==> bounded_prefix_of(buf, len) == Err::<Seq<u8>, CloneError>(
            CloneError::NameTooLong,
        ),
{
}

/// The identifier of a context whose canonical path is `path`: the decimal
/// number between the first `:` and the first `/` after it.
pub fn pid_from_path(path: &[u8]) -> (r: Result<usize, CloneError>)
    ensures
        r == context_id_of(path@),
{
    let colon = position_from(path, COLON, 0);
    if colon >= path.len() {
        return Err(CloneError::Invalid);
    }
    let slash = position_from(path, SLASH, colon);
    if slash >= path.len() {
        return Err(CloneError::Invalid);
    }
    match parse_unsigned_range(path, colon + 1, slash) {
        Some(v) => Ok(v),
        None => Err(CloneError::Invalid),
    }
}

/// The identifier of a freshly created context, from its path as read back
/// into `buf` with `len` bytes reported.
pub fn context_id_from_path(buf: &[u8], len: usize) -> (r: Result<usize, CloneError>)
    ensures
        r == context_id_from_read(buf@, len),
{
    match bounded_prefix(buf, len) {
        Ok(p) => pid_from_path(p.as_slice()),
        Err(e) => Err(e),
    }
}

} // verus!
