//! Incremental update of 16-bit one's-complement Internet checksums.
//!
//! When an address (and, for a transport header, a port) is rewritten, the
//! checksum that covers it is corrected from the old and the new value alone:
//! the complement of the old checksum, the complement of the old field and the
//! new field are added up, the sum is folded to 16 bits twice, and the
//! complement of that is the new checksum. The payload is never summed again.

use vstd::prelude::*;

verus! {

/// The one's complement of a 16-bit word.
pub open spec fn not16(x: int) -> int {
    0xffff - x
}

/// One folding step: the carries above bit 15 are added back into the low
/// 16 bits.
pub open spec fn fold16(x: int) -> int {
    x % 0x10000 + x / 0x10000
}

/// The upper 16-bit word of an address.
pub open spec fn hi16(a: u32) -> int {
    a as int / 0x10000
}

/// The lower 16-bit word of an address.
pub open spec fn lo16(a: u32) -> int {
    a as int % 0x10000
}

/// The checksum that replaces `check` when the address `old_addr`, which
/// `check` covers, becomes `new_addr`.
pub open spec fn csum_replace_addr(check: u16, old_addr: u32, new_addr: u32) -> u16 {
    not16(
        fold16(
            fold16(
                not16(check as int) + not16(hi16(old_addr)) + not16(lo16(old_addr)) + hi16(new_addr)
                    + lo16(new_addr),
            ),
        ),
    ) as u16
}

/// The checksum that replaces `check` when the address `old_addr` becomes
/// `new_addr` and the port `old_port` becomes `new_port`, all covered by
/// `check`.
pub open spec fn csum_replace_addr_port(
    check: u16,
    old_addr: u32,
    new_addr: u32,
    old_port: u16,
    new_port: u16,
) -> u16 {
    not16(
        fold16(
            fold16(
                not16(check as int) + not16(hi16(old_addr)) + not16(lo16(old_addr)) + hi16(new_addr)
                    + lo16(new_addr) + not16(old_port as int) + new_port as int,
            ),
        ),
    ) as u16
}

/// Corrects an IPv4 header checksum for the rewrite of one address.
pub fn update_ipv4_csum(check: &mut u16, old_addr: u32, new_addr: u32)
    ensures
        *final(check) == csum_replace_addr(*old(check), old_addr, new_addr),
{
    let c: u16 = *check;
    let mut new_csum: u32 = !(c as u32) & 0xffff;
    assert(!(c as u32) & 0xffff == 0xffff - c) by (bit_vector);
    assert((!old_addr >> 16) == 0xffff - old_addr / 0x10000 && (!old_addr & 0xffff) == 0xffff
        - old_addr % 0x10000) by (bit_vector);
    assert((new_addr >> 16) == new_addr / 0x10000 && (new_addr & 0xffff) == new_addr % 0x10000)
        by (bit_vector);
    new_csum += (!old_addr >> 16) + (!old_addr & 0xffff);
    new_csum += (new_addr >> 16) + (new_addr & 0xffff);
    let ghost total = new_csum as int;
    assert((new_csum & 0xffff) == new_csum % 0x10000 && (new_csum >> 16) == new_csum / 0x10000)
        by (bit_vector);
    new_csum = (new_csum & 0xffff) + (new_csum >> 16);
    assert(new_csum == fold16(total));
    assert((new_csum & 0xffff) == new_csum % 0x10000 && (new_csum >> 16) == new_csum / 0x10000)
        by (bit_vector);
    new_csum = (new_csum & 0xffff) + (new_csum >> 16);
    assert(new_csum == fold16(fold16(total)));
    assert(new_csum <= 0xffff ==> (!new_csum & 0xffff) == 0xffff - new_csum) by (bit_vector);
    assert(!new_csum & 0xffff <= 0xffff) by (bit_vector);
    *check = (!new_csum & 0xffff) as u16;
}

/// Corrects a TCP or UDP checksum for the rewrite of one address and one
/// port.
pub fn update_l4_csum(check: &mut u16, old_addr: u32, new_addr: u32, old_port: u16, new_port: u16)
    ensures
        *final(check) == csum_replace_addr_port(
            *old(check),
            old_addr,
            new_addr,
            old_port,
            new_port,
        ),
{
    let c: u16 = *check;
    let mut new_csum: u32 = !(c as u32) & 0xffff;
    assert(!(c as u32) & 0xffff == 0xffff - c) by (bit_vector);
    assert((!old_addr >> 16) == 0xffff - old_addr / 0x10000 && (!old_addr & 0xffff) == 0xffff
        - old_addr % 0x10000) by (bit_vector);
    assert((new_addr >> 16) == new_addr / 0x10000 && (new_addr & 0xffff) == new_addr % 0x10000)
        by (bit_vector);
    assert((!(old_port as u32) & 0xffff) == 0xffff - old_port && ((new_port as u32) & 0xffff)
        == new_port) by (bit_vector);
    new_csum += (!old_addr >> 16) + (!old_addr & 0xffff);
    new_csum += (new_addr >> 16) + (new_addr & 0xffff);
    new_csum += (!(old_port as u32) & 0xffff) + ((new_port as u32) & 0xffff);
    let ghost total = new_csum as int;
    assert((new_csum & 0xffff) == new_csum % 0x10000 && (new_csum >> 16) == new_csum / 0x10000)
        by (bit_vector);
    new_csum = (new_csum & 0xffff) + (new_csum >> 16);
    assert(new_csum == fold16(total));
    assert((new_csum & 0xffff) == new_csum % 0x10000 && (new_csum >> 16) == new_csum / 0x10000)
        by (bit_vector);
    new_csum = (new_csum & 0xffff) + (new_csum >> 16);
    assert(new_csum == fold16(fold16(total)));
    assert(new_csum <= 0xffff ==> (!new_csum & 0xffff) == 0xffff - new_csum) by (bit_vector);
    assert(!new_csum & 0xffff <= 0xffff) by (bit_vector);
    *check = (!new_csum & 0xffff) as u16;
}

/// Addition of two 16-bit words with end-around carry.
pub open spec fn ones_add(a: int, b: int) -> int {
    if a + b > 0xffff {
        a + b - 0xffff
    } else {
        a + b
    }
}

/// The one's-complement sum of a run of 16-bit words, taken from scratch.
pub open spec fn ones_sum(words: Seq<u16>) -> int
    decreases words.len(),
{
    if words.len() == 0 {
        0
    } else {
        ones_add(ones_sum(words.drop_last()), words.last() as int)
    }
}

/// The Internet checksum of a header, given as its 16-bit words with the
/// checksum field itself left out: the complement of their one's-complement
/// sum.
pub open spec fn internet_checksum(words: Seq<u16>) -> u16 {
    not16(ones_sum(words)) as u16
}

/// The address whose upper word is `words[i]` and whose lower word is
/// `words[i + 1]`.
pub open spec fn addr_in(words: Seq<u16>, i: int) -> u32 {
    (words[i] as int * 0x10000 + words[i + 1] as int) as u32
}

/// `words` with the address at `i` and `i + 1` replaced by `addr`.
pub open spec fn with_addr(words: Seq<u16>, i: int, addr: u32) -> Seq<u16> {
    words.update(i, hi16(addr) as u16).update(i + 1, lo16(addr) as u16)
}

/// The plain sum of the words.
spec fn total(words: Seq<u16>) -> int
    decreases words.len(),
{
    if words.len() == 0 {
        0
    } else {
        total(words.drop_last()) + words.last() as int
    }
}

/// The representative that end-around-carry arithmetic keeps of a sum: zero
/// for zero only, otherwise the value in `1..=0xffff` congruent modulo 0xffff.
spec fn canon(x: int) -> int {
    if x <= 0 {
        0
    } else {
        (x - 1) % 0xffff + 1
    }
}

proof fn lemma_ones_add_canon(a: int, b: int)
    requires
        0 <= a,
        0 <= b <= 0xffff,
    ensures
        ones_add(canon(a), b) == canon(a + b),
{
    if a > 0 {
        let q = (a - 1) / 0xffff;
        let r = (a - 1) % 0xffff;
        assert(a - 1 == 0xffff * q + r);
        if r + b >= 0xffff {
            assert(a + b - 1 == 0xffff * (q + 1) + (r + b - 0xffff));
            assert((a + b - 1) % 0xffff == r + b - 0xffff) by {
                vstd::arithmetic::div_mod::lemma_fundamental_div_mod_converse(
                    a + b - 1,
                    0xffff,
                    q + 1,
                    r + b - 0xffff,
                );
            }
        } else {
            assert((a + b - 1) % 0xffff == r + b) by {
                vstd::arithmetic::div_mod::lemma_fundamental_div_mod_converse(
                    a + b - 1,
                    0xffff,
                    q,
                    r + b,
                );
            }
        }
    }
}

proof fn lemma_ones_sum_is_canon(words: Seq<u16>)
    ensures
        0 <= total(words),
        ones_sum(words) == canon(total(words)),
        0 <= ones_sum(words) <= 0xffff,
    decreases words.len(),
{
    if words.len() > 0 {
        lemma_ones_sum_is_canon(words.drop_last());
        lemma_ones_add_canon(total(words.drop_last()), words.last() as int);
    }
}

proof fn lemma_total_update(words: Seq<u16>, i: int, v: u16)
    requires
        0 <= i < words.len(),
    ensures
        total(words.update(i, v)) == total(words) - words[i] + v,
    decreases words.len(),
{
    let w = words.update(i, v);
    if i == words.len() - 1 {
        assert(w.drop_last() =~= words.drop_last());
    } else {
        assert(w.drop_last() =~= words.drop_last().update(i, v));
        lemma_total_update(words.drop_last(), i, v);
    }
}

proof fn lemma_total_positive(words: Seq<u16>, j: int)
    requires
        0 <= j < words.len(),
        words[j] != 0,
    ensures
        total(words) > 0,
    decreases words.len(),
{
    lemma_ones_sum_is_canon(words.drop_last());
    if j < words.len() - 1 {
        lemma_total_positive(words.drop_last(), j);
    }
}

proof fn lemma_fold_twice_is_canon(t: int)
    requires
        0 < t < 0x1_0000_0000,
    ensures
        fold16(fold16(t)) == canon(t),
{
    let a = t / 0x10000;
    let b = t % 0x10000;
    let f = a + b;
    let c = f / 0x10000;
    let d = f % 0x10000;
    let g = c + d;
    assert(t == 0xffff * a + f);
    assert(f == 0xffff * c + g);
    assert(1 <= g <= 0xffff);
    assert(t - 1 == 0xffff * (a + c) + (g - 1));
    vstd::arithmetic::div_mod::lemma_fundamental_div_mod_converse(t - 1, 0xffff, a + c, g - 1);
}

proof fn lemma_canon_congruent(x: int, y: int, k: int)
    requires
        0 < x,
        0 < y,
        x == y + 0xffff * k,
    ensures
        canon(x) == canon(y),
{
    let q = (y - 1) / 0xffff;
    let r = (y - 1) % 0xffff;
    assert(y - 1 == 0xffff * q + r);
    assert(x - 1 == 0xffff * (q + k) + r);
    vstd::arithmetic::div_mod::lemma_fundamental_div_mod_converse(x - 1, 0xffff, q + k, r);
}

/// For a header that carries a valid checksum, correcting the checksum
/// incrementally for a rewritten address gives the checksum that summing the
/// rewritten header from scratch gives.
///
/// `words` are the header's 16-bit words without the checksum field; the
/// address sits at `i` and `i + 1`. A rewritten header whose words are all
/// zero is left out: there the two zeros of one's-complement arithmetic make
/// the results differ.
pub proof fn lemma_incremental_update_matches_recomputation(
    words: Seq<u16>,
    i: int,
    new_addr: u32,
)
    requires
        0 <= i,
        i + 1 < words.len(),
        exists|j: int| 0 <= j < words.len() && #[trigger] with_addr(words, i, new_addr)[j] != 0,
    ensures
        csum_replace_addr(internet_checksum(words), addr_in(words, i), new_addr)
            == internet_checksum(with_addr(words, i, new_addr)),
{
    let old_addr = addr_in(words, i);
    let rewritten = with_addr(words, i, new_addr);
    let w0 = words[i] as int;
    let w1 = words[i + 1] as int;
    let n0 = hi16(new_addr);
    let n1 = lo16(new_addr);
    assert(hi16(old_addr) == w0 && lo16(old_addr) == w1);
    lemma_ones_sum_is_canon(words);
    lemma_ones_sum_is_canon(rewritten);
    lemma_total_update(words, i, n0 as u16);
    lemma_total_update(words.update(i, n0 as u16), i + 1, n1 as u16);
    let j = choose|j: int| 0 <= j < words.len() && #[trigger] rewritten[j] != 0;
    lemma_total_positive(rewritten, j);
    let s = total(words);
    let s2 = total(rewritten);
    assert(s2 == s - w0 - w1 + n0 + n1);
    let c = canon(s);
    assert(not16(internet_checksum(words) as int) == c);
    let t = c + not16(w0) + not16(w1) + n0 + n1;
    assert(t > 0) by {
        if s <= 0 {
            if w0 != 0 {
                lemma_total_positive(words, i);
            }
        }
    }
    lemma_fold_twice_is_canon(t);
    if s > 0 {
        let q = (s - 1) / 0xffff;
        assert(s - 1 == 0xffff * q + (c - 1));
        assert(t == s2 + 0xffff * (2 - q));
        lemma_canon_congruent(t, s2, 2 - q);
    } else {
        assert(t == s2 + 0xffff * 2);
        lemma_canon_congruent(t, s2, 2);
    }
}

/// The same for a transport checksum, which also covers a port: correcting
/// it incrementally for a rewritten address and a rewritten port gives the
/// checksum that summing the rewritten words from scratch gives. A port
/// rewritten to itself is the case of an address rewritten alone.
///
/// `words` are the 16-bit words that the checksum covers, without the
/// checksum field; the address sits at `i` and `i + 1`, the port at `j`.
/// Rewritten words that are all zero are left out, as above.
pub proof fn lemma_incremental_update_with_port_matches_recomputation(
    words: Seq<u16>,
    i: int,
    new_addr: u32,
    j: int,
    new_port: u16,
)
    requires
        0 <= i,
        i + 1 < words.len(),
        0 <= j < words.len(),
        j != i,
        j != i + 1,
        exists|k: int|
            0 <= k < words.len() && #[trigger] with_addr(words, i, new_addr).update(j, new_port)[k]
                != 0,
    ensures
        csum_replace_addr_port(
            internet_checksum(words),
            addr_in(words, i),
            new_addr,
            words[j],
            new_port,
        ) == internet_checksum(with_addr(words, i, new_addr).update(j, new_port)),
{
    let old_addr = addr_in(words, i);
    let readdressed = with_addr(words, i, new_addr);
    let rewritten = readdressed.update(j, new_port);
    let w0 = words[i] as int;
    let w1 = words[i + 1] as int;
    let p = words[j] as int;
    let n0 = hi16(new_addr);
    let n1 = lo16(new_addr);
    assert(hi16(old_addr) == w0 && lo16(old_addr) == w1);
    lemma_ones_sum_is_canon(words);
    lemma_ones_sum_is_canon(rewritten);
    lemma_total_update(words, i, n0 as u16);
    lemma_total_update(words.update(i, n0 as u16), i + 1, n1 as u16);
    lemma_total_update(readdressed, j, new_port);
    let k = choose|k: int| 0 <= k < words.len() && #[trigger] rewritten[k] != 0;
    lemma_total_positive(rewritten, k);
    let s = total(words);
    let s2 = total(rewritten);
    assert(s2 == s - w0 - w1 - p + n0 + n1 + new_port);
    let c = canon(s);
    assert(not16(internet_checksum(words) as int) == c);
    let t = c + not16(w0) + not16(w1) + n0 + n1 + not16(p) + new_port;
    assert(t > 0) by {
        if s <= 0 {
            if w0 != 0 {
                lemma_total_positive(words, i);
            }
        }
    }
    lemma_fold_twice_is_canon(t);
    if s > 0 {
        let q = (s - 1) / 0xffff;
        assert(s - 1 == 0xffff * q + (c - 1));
        assert(t == s2 + 0xffff * (3 - q));
        lemma_canon_congruent(t, s2, 3 - q);
    } else {
        assert(t == s2 + 0xffff * 3);
        lemma_canon_congruent(t, s2, 3);
    }
}

} // verus!
