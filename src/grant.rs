//! Grants: the four-word records that describe the regions of an address
//! space, and what duplicating an address space does with them.
use vstd::prelude::*;

verus! {

/// Flag bit of a grant whose pages come from a resource outside the address
/// space, which a copy-on-write duplicate does not carry over by itself.
pub const EXTERNAL_BACKING: usize = 0x8000_0000;

/// The bits of the flag word that name a known mapping flag.
pub const MAP_FLAG_BITS: usize = 0x0007_000F;

/// Number of machine words in one grant record.
pub const GRANT_WORDS: usize = 4;

/// One mapped region: `[address, size, flags, offset]`.
#[derive(Clone, Copy, Debug, PartialEq, Eq, Structural)]
pub struct Grant {
    pub address: usize,
    pub size: usize,
    pub flags: usize,
    pub offset: usize,
}

/// What to ask of the mapping call that re-establishes one region.
#[derive(Clone, Copy, Debug, PartialEq, Eq, Structural)]
pub struct MapRequest {
    pub size: usize,
    pub flags: usize,
    pub offset: usize,
}

pub open spec fn is_external(g: Grant) -> bool {
    g.flags & EXTERNAL_BACKING != 0
}

/// The `i`-th record of a stream of words.
pub open spec fn grant_at(words: Seq<usize>, i: int) -> Grant {
    Grant {
        address: words[4 * i],
        size: words[4 * i + 1],
        flags: words[4 * i + 2],
        offset: words[4 * i + 3],
    }
}

/// The records of a stream of words, read four words at a time; words left
/// over at the end make no record.
pub open spec fn grants_of(words: Seq<usize>) -> Seq<Grant> {
    Seq::new(words.len() / 4, |i: int| grant_at(words, i))
}

/// The externally backed records of `gs`, in their order.
pub open spec fn external_grants(gs: Seq<Grant>) -> Seq<Grant> {
    gs.filter(|g: Grant| is_external(g))
}

pub open spec fn hex_digit(d: nat) -> u8 {
    if d < 10 {
        (48 + d) as u8
    } else {
        (87 + d) as u8
    }
}

/// `n` in lower-case hexadecimal, without leading zeros.
pub open spec fn hex_text(n: nat) -> Seq<u8>
    decreases n,
{
    if n < 16 {
        seq![hex_digit(n)]
    } else {
        hex_text(n / 16).push(hex_digit(n % 16))
    }
}

/// The name under which the region at `address` is reopened: `grant-<hex>`.
pub open spec fn grant_key_of(address: usize) -> Seq<u8> {
    seq![103u8, 114u8, 97u8, 110u8, 116u8, 45u8] + hex_text(address as nat)
}

/// The record that stands for `g` in the duplicate once it is mapped at `mapped`.
pub open spec fn remapped(g: Grant, mapped: usize) -> Grant {
    Grant { address: g.address, size: g.size, flags: g.flags, offset: mapped }
}

/// Relies on `MapFlags::from_bits_truncate` of redox_syscall, read back with
/// `bits`: the flag word with every bit that names no mapping flag cleared.
#[verifier::external_body]
fn known_map_flags(flags: usize) -> (r: usize)
    ensures
        r == flags & MAP_FLAG_BITS,
{
    syscall::flag::MapFlags::from_bits_truncate(flags).bits()
}

/// Splits a stream of words into grant records.
pub fn parse_grants(words: &[usize]) -> (r: Vec<Grant>)
    ensures
        r@ == grants_of(words@),
{
    let n = words.len() / GRANT_WORDS;
    let mut out: Vec<Grant> = Vec::with_capacity(n);
    let mut i: usize = 0;
    while i < n
        invariant
            n == words@.len() / 4,
            words@.len() <= usize::MAX,
            i <= n,
            out@ =~= grants_of(words@).take(i as int),
        decreases n - i,
    {
        proof {
            let len = words@.len() as int;
            assert(4 * i + 4 <= len) by (nonlinear_arith)
                requires
                    i < len / 4,
                    0 <= len,
            ;
        }
        let base = GRANT_WORDS * i;
        out.push(
            Grant {
                address: words[base],
                size: words[base + 1],
                flags: words[base + 2],
                offset: words[base + 3],
            },
        );
        i = i + 1;
        proof {
            assert(out@ =~= grants_of(words@).take(i as int));
        }
    }
    out
}

/// Whether the region needs to be remapped by hand when its address space is duplicated.
pub fn grant_is_external(g: &Grant) -> (r: bool)
    ensures
        r == is_external(*g),
{
    g.flags & EXTERNAL_BACKING != 0
}

/// The externally backed grants, in order; the others the copy-on-write
/// duplicate carries already.
pub fn select_external(grants: &[Grant]) -> (r: Vec<Grant>)
    ensures
        r@ == external_grants(grants@),
{
    let mut out: Vec<Grant> = Vec::new();
    let mut i: usize = 0;
    while i < grants.len()
        invariant
            i <= grants@.len(),
            out@ == external_grants(grants@.take(i as int)),
        decreases grants.len() - i,
    {
        let g = grants[i];
        proof {
            reveal(Seq::filter);
            assert(grants@.take(i + 1).drop_last() =~= grants@.take(i as int));
            assert(grants@.take(i + 1).last() == g);
        }
        if grant_is_external(&g) {
            out.push(g);
        }
        i = i + 1;
    }
    proof {
        assert(grants@.take(grants@.len() as int) =~= grants@);
    }
    out
}

fn push_hex(n: usize, out: &mut Vec<u8>)
    ensures
        final(out)@ == old(out)@ + hex_text(n as nat),
    decreases n,
{
    if n >= 16 {
        push_hex(n / 16, out);
    }
    let d = n % 16;
    if d < 10 {
        out.push((48 + d) as u8);
    } else {
        out.push((87 + d) as u8);
    }
    proof {
        if n >= 16 {
            assert(old(out)@ + hex_text(n as nat) =~= old(out)@ + hex_text((n / 16) as nat) + seq![hex_digit((n % 16) as nat)]);
        }
    }
}

/// The name under which the region at `address` is reopened from its address space.
pub fn grant_key(address: usize) -> (r: Vec<u8>)
    ensures
        r@ == grant_key_of(address),
{
    let mut out: Vec<u8> = vec![103u8, 114u8, 97u8, 110u8, 116u8, 45u8];
    push_hex(address, &mut out);
    proof {
        assert(out@ =~= grant_key_of(address));
    }
    out
}

/// The mapping to request for an externally backed region: same size and
/// offset, with only the known mapping flags.
pub fn remap_request(g: &Grant) -> (r: MapRequest)
    ensures
        r == (MapRequest { size: g.size, flags: g.flags & MAP_FLAG_BITS, offset: g.offset }),
{
    MapRequest { size: g.size, flags: known_map_flags(g.flags), offset: g.offset }
}

/// The record appended to the duplicate's descriptor stream once the region
/// `g` has been mapped again at `mapped`.
pub fn remapped_grant(g: &Grant, mapped: usize) -> (r: Grant)
    ensures
        r == remapped(*g, mapped),
{
    Grant { address: g.address, size: g.size, flags: g.flags, offset: mapped }
}

/// Every externally backed region of a stream of grant records is selected for
/// remapping, and the record written for it keeps its address, size and flags
/// and names the address it was mapped at.
pub proof fn lemma_external_grants_carried(words: Seq<usize>, i: int, mapped: usize)
    requires
        0 <= i < words.len() / 4,
        is_external(grant_at(words, i)),
    ensures
        external_grants(grants_of(words)).contains(grant_at(words, i)),
        remapped(grant_at(words, i), mapped).address == words[4 * i],
        remapped(grant_at(words, i), mapped).size == words[4 * i + 1],
        remapped(grant_at(words, i), mapped).flags == words[4 * i + 2],
        remapped(grant_at(words, i), mapped).offset == mapped,
{
    let gs = grants_of(words);
    assert(gs[i] == grant_at(words, i));
    gs.lemma_filter_contains(|g: Grant| is_external(g), i);
}

/// A record without the external-backing bit is never selected for remapping.
pub proof fn lemma_ordinary_grants_left(gs: Seq<Grant>, g: Grant)
    requires
        !is_external(g),
    ensures
        !external_grants(gs).contains(g),
{
    let f = |x: Grant| is_external(x);
    if external_grants(gs).contains(g) {
        let j = choose|j: int| 0 <= j < gs.filter(f).len() && gs.filter(f)[j] == g;
        gs.lemma_filter_pred(f, j);
    }
}

} // verus!
