//! What the IPv4 rewriting functions promise: the checksum that they write
//! verifies, and a rewritten packet parses to the same information with only
//! the rewritten address changed.
use vstd::prelude::*;
use crate::error::PacketError;
use crate::wire::be16;
use crate::ip_packet::{
    IpAddressView, IpPacketInfoView, word_at, words_sum, ipv4_header_words, fold16,
    zero_checksum_field, ipv4_header_checksum, ipv4_checksum_verifies, ipv4_ihl,
    spec_recalculate_ipv4_checksum, spec_set_ipv4_addr, with_ipv4_addr, spec_parse_ipv4,
    lemma_fold16,
};

verus! {

proof fn lemma_words_sum_differ_at_checksum(a: Seq<u8>, b: Seq<u8>, k: nat)
    requires
        a.len() == b.len(),
        2 * k <= a.len(),
        k >= 6,
        forall|i: int| 0 <= i < a.len() && i != 10 && i != 11 ==> a[i] == b[i],
    ensures
        words_sum(b, k) - words_sum(a, k) == word_at(b, 10) - word_at(a, 10),
    decreases k,
{
    if k > 6 {
        lemma_words_sum_differ_at_checksum(a, b, (k - 1) as nat);
        assert(word_at(a, 2 * (k - 1)) == word_at(b, 2 * (k - 1)));
    } else {
        lemma_words_sum_prefix_equal(a, b, 5);
    }
}

proof fn lemma_words_sum_prefix_equal(a: Seq<u8>, b: Seq<u8>, j: nat)
    requires
        j <= 5,
        2 * j <= a.len(),
        a.len() == b.len(),
        forall|i: int| 0 <= i < a.len() && i != 10 && i != 11 ==> a[i] == b[i],
    ensures
        words_sum(a, j) == words_sum(b, j),
    decreases j,
{
    if j > 0 {
        lemma_words_sum_prefix_equal(a, b, (j - 1) as nat);
    }
}

/// A header whose checksum was recalculated verifies, when the checksum
/// field lies inside the header that the packet declares (a header length of
/// at least 12 bytes; every well-formed IPv4 header has at least 20).
pub proof fn lemma_recalculated_checksum_verifies(p: Seq<u8>)
    requires
        spec_recalculate_ipv4_checksum(p).0 is Ok,
        ipv4_ihl(p) >= 12,
    ensures
        ipv4_checksum_verifies(spec_recalculate_ipv4_checksum(p).1),
{
    let q = spec_recalculate_ipv4_checksum(p).1;
    let z = zero_checksum_field(p);
    let k = ipv4_header_words(p);
    let c = ipv4_header_checksum(p);
    let s = words_sum(z, k);
    assert(s >= 0) by {
        lemma_words_sum_nonneg(z, k);
    }
    lemma_fold16(s);
    let f = fold16(s);
    assert(c == 0xFFFF - f);
    assert(q[0] == p[0]);
    assert(ipv4_header_words(q) == k);
    lemma_words_sum_differ_at_checksum(z, q, k);
    assert(word_at(q, 10) == be16(c)[0] * 256 + be16(c)[1]);
    assert(word_at(q, 10) == c);
    assert(word_at(z, 10) == 0);
    let t = s + c;
    assert(words_sum(q, k) == t);
    assert(t % 0xFFFF == 0) by (nonlinear_arith)
        requires
            t == s + 0xFFFF - f,
            f % 0xFFFF == s % 0xFFFF,
            s >= 0,
            f >= 0,
    {
        vstd::arithmetic::div_mod::lemma_fundamental_div_mod(s, 0xFFFF);
        vstd::arithmetic::div_mod::lemma_fundamental_div_mod(f, 0xFFFF);
        vstd::arithmetic::div_mod::lemma_mod_multiples_vanish(s / 0xFFFF - f / 0xFFFF + 1, 0, 0xFFFF);
    }
    lemma_fold16(t);
}

proof fn lemma_words_sum_nonneg(p: Seq<u8>, k: nat)
    ensures
        words_sum(p, k) >= 0,
    decreases k,
{
    if k > 0 {
        lemma_words_sum_nonneg(p, (k - 1) as nat);
    }
}

proof fn lemma_set_addr_then_parse(p: Seq<u8>, at: int, a: Seq<u8>)
    requires
        at == 12 || at == 16,
        a.len() == 4,
        spec_parse_ipv4(p) is Ok,
        ipv4_ihl(p) >= 20,
    ensures
        spec_set_ipv4_addr(p, at, a).0 is Ok,
        spec_parse_ipv4(spec_set_ipv4_addr(p, at, a).1) == Ok::<IpPacketInfoView, PacketError>(
            if at == 12 {
                IpPacketInfoView { src_addr: IpAddressView::V4(a), ..spec_parse_ipv4(p)->Ok_0 }
            } else {
                IpPacketInfoView { dst_addr: IpAddressView::V4(a), ..spec_parse_ipv4(p)->Ok_0 }
            },
        ),
        ipv4_checksum_verifies(spec_set_ipv4_addr(p, at, a).1),
        forall|i: int|
            0 <= i < p.len() && !(10 <= i < 12) && !(at <= i < at + 4) ==> #[trigger] spec_set_ipv4_addr(
                p,
                at,
                a,
            ).1[i] == p[i],
{
    let q1 = with_ipv4_addr(p, at, a);
    let q = spec_set_ipv4_addr(p, at, a).1;
    assert(q1[0] == p[0]);
    lemma_recalculated_checksum_verifies(q1);
    assert(q[0] == p[0] && q[9] == p[9]);
    let ihl = ipv4_ihl(p);
    if ihl + 4 <= p.len() {
        assert(q[ihl] == p[ihl] && q[ihl + 1] == p[ihl + 1] && q[ihl + 2] == p[ihl + 2] && q[ihl
            + 3] == p[ihl + 3]);
    }
    if at == 12 {
        assert(q.subrange(12, 16) =~= a);
        assert(q.subrange(16, 20) =~= p.subrange(16, 20));
    } else {
        assert(q.subrange(16, 20) =~= a);
        assert(q.subrange(12, 16) =~= p.subrange(12, 16));
    }
}

/// Rewriting the source address of a parsable IPv4 packet with a header of
/// at least 20 bytes succeeds; the packet then parses to the same
/// information but for the new source address, its header checksum
/// verifies, and only the address and checksum bytes changed.
pub proof fn lemma_modify_src_then_parse(p: Seq<u8>, a: Seq<u8>)
    requires
        a.len() == 4,
        spec_parse_ipv4(p) is Ok,
        ipv4_ihl(p) >= 20,
    ensures
        spec_set_ipv4_addr(p, 12, a).0 is Ok,
        spec_parse_ipv4(spec_set_ipv4_addr(p, 12, a).1) == Ok::<IpPacketInfoView, PacketError>(
            IpPacketInfoView { src_addr: IpAddressView::V4(a), ..spec_parse_ipv4(p)->Ok_0 },
        ),
        ipv4_checksum_verifies(spec_set_ipv4_addr(p, 12, a).1),
        forall|i: int|
            0 <= i < p.len() && !(10 <= i < 16) ==> #[trigger] spec_set_ipv4_addr(p, 12, a).1[i]
                == p[i],
{
    lemma_set_addr_then_parse(p, 12, a);
}

/// Rewriting the destination address of a parsable IPv4 packet with a
/// header of at least 20 bytes succeeds; the packet then parses to the same
/// information but for the new destination address, its header checksum
/// verifies, and only the address and checksum bytes changed.
pub proof fn lemma_modify_dst_then_parse(p: Seq<u8>, a: Seq<u8>)
    requires
        a.len() == 4,
        spec_parse_ipv4(p) is Ok,
        ipv4_ihl(p) >= 20,
    ensures
        spec_set_ipv4_addr(p, 16, a).0 is Ok,
        spec_parse_ipv4(spec_set_ipv4_addr(p, 16, a).1) == Ok::<IpPacketInfoView, PacketError>(
            IpPacketInfoView { dst_addr: IpAddressView::V4(a), ..spec_parse_ipv4(p)->Ok_0 },
        ),
        ipv4_checksum_verifies(spec_set_ipv4_addr(p, 16, a).1),
        forall|i: int|
            0 <= i < p.len() && !(10 <= i < 12) && !(16 <= i < 20) ==> #[trigger] spec_set_ipv4_addr(
                p,
                16,
                a,
            ).1[i] == p[i],
{
    lemma_set_addr_then_parse(p, 16, a);
}

/// For a 20-byte IPv4 header, recalculating the checksum succeeds, changes
/// only bytes 10 and 11, and leaves ten big-endian header words whose sum
/// is a multiple of 0xFFFF (the ones' complement check of RFC 791/1071).
pub proof fn lemma_checksum_of_20_byte_header(p: Seq<u8>)
    requires
        p.len() >= 20,
        p[0] % 16 == 5,
    ensures
        spec_recalculate_ipv4_checksum(p).0 is Ok,
        forall|i: int|
            0 <= i < p.len() && i != 10 && i != 11 ==> #[trigger] spec_recalculate_ipv4_checksum(
                p,
            ).1[i] == p[i],
        spec_recalculate_ipv4_checksum(p).1.len() == p.len(),
        ({
            let q = spec_recalculate_ipv4_checksum(p).1;
            (q[0] * 256 + q[1] + q[2] * 256 + q[3] + q[4] * 256 + q[5] + q[6] * 256 + q[7] + q[8]
                * 256 + q[9] + q[10] * 256 + q[11] + q[12] * 256 + q[13] + q[14] * 256 + q[15]
                + q[16] * 256 + q[17] + q[18] * 256 + q[19]) % 0xFFFF == 0
        }),
{
    let q = spec_recalculate_ipv4_checksum(p).1;
    lemma_recalculated_checksum_verifies(p);
    assert(q[0] == p[0]);
    assert(ipv4_header_words(q) == 10);
    reveal_with_fuel(words_sum, 11);
    let s = words_sum(q, 10);
    lemma_words_sum_nonneg(q, 10);
    lemma_fold16(s);
}

} // verus!
