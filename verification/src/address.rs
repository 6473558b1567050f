//! Socket addresses of peers and nodes, and their textual form (as std
//! renders a `SocketAddr`).

use crate::text::{decimal_digits, decimal_text, hex_digits, lower_hex_text};
use vstd::prelude::*;
use vstd::string::*;

verus! {

/// An IPv4 or IPv6 socket address.
#[derive(Debug, Clone, Copy, PartialEq, Eq, Hash)]
pub enum SocketAddress {
    /// IPv4 address and port.
    V4 { octets: [u8; 4], port: u16 },
    /// IPv6 address (eight 16-bit segments), port, flow info and scope id.
    V6 { segments: [u16; 8], port: u16, flowinfo: u32, scope_id: u32 },
}

/// Dotted-decimal text of four octets.
pub open spec fn ipv4_text(a: u8, b: u8, c: u8, d: u8) -> Seq<char> {
    decimal_digits(a as nat) + seq!['.'] + decimal_digits(b as nat) + seq!['.'] + decimal_digits(
        c as nat,
    ) + seq!['.'] + decimal_digits(d as nat)
}

/// Colon-separated lower-case hex text of IPv6 segments.
pub open spec fn segments_text(segs: Seq<u16>) -> Seq<char>
    decreases segs.len(),
{
    if segs.len() == 0 {
        seq![]
    } else if segs.len() == 1 {
        hex_digits(segs[0] as nat)
    } else {
        segments_text(segs.drop_last()) + seq![':'] + hex_digits(segs.last() as nat)
    }
}

/// Scan for runs of zero segments: (start, length) of the longest run seen
/// (the first one among equals) and of the run in progress.
pub open spec fn zero_scan(segs: Seq<u16>) -> (int, int, int, int)
    decreases segs.len(),
{
    if segs.len() == 0 {
        (0, 0, 0, 0)
    } else {
        let prev = zero_scan(segs.drop_last());
        let i = segs.len() - 1;
        if segs[i] == 0 {
            let start = if prev.3 == 0 {
                i
            } else {
                prev.2
            };
            let len = prev.3 + 1;
            if len > prev.1 {
                (start, len, start, len)
            } else {
                (prev.0, prev.1, start, len)
            }
        } else {
            (prev.0, prev.1, 0, 0)
        }
    }
}

/// Whether the segments are an IPv4-mapped address `::ffff:a.b.c.d`.
pub open spec fn is_ipv4_mapped(segs: Seq<u16>) -> bool {
    segs.len() == 8 && segs[0] == 0 && segs[1] == 0 && segs[2] == 0 && segs[3] == 0 && segs[4] == 0
        && segs[5] == 0xffff
}

/// Text of an IPv6 address: the IPv4-mapped form, or hex segments with the
/// longest run of two or more zero segments written as `::`.
pub open spec fn ipv6_text(segs: Seq<u16>) -> Seq<char> {
    if is_ipv4_mapped(segs) {
        seq![':', ':', 'f', 'f', 'f', 'f', ':'] + ipv4_text(
            (segs[6] / 256) as u8,
            (segs[6] % 256) as u8,
            (segs[7] / 256) as u8,
            (segs[7] % 256) as u8,
        )
    } else {
        let z = zero_scan(segs);
        if z.1 > 1 {
            segments_text(segs.subrange(0, z.0)) + seq![':', ':'] + segments_text(
                segs.subrange(z.0 + z.1, segs.len() as int),
            )
        } else {
            segments_text(segs)
        }
    }
}

/// Text of a socket address: `a.b.c.d:port`, or `[ipv6]:port` with
/// `%scope` inside the brackets when the scope id is not zero.
pub open spec fn socket_text(addr: SocketAddress) -> Seq<char> {
    match addr {
        SocketAddress::V4 { octets, port } => ipv4_text(octets[0], octets[1], octets[2], octets[3])
            + seq![':'] + decimal_digits(port as nat),
        SocketAddress::V6 { segments, port, flowinfo: _, scope_id } => seq!['['] + ipv6_text(
            segments@,
        ) + (if scope_id == 0 {
            seq![]
        } else {
            seq!['%'] + decimal_digits(scope_id as nat)
        }) + seq![']', ':'] + decimal_digits(port as nat),
    }
}

/// Appends the dotted-decimal text of four octets.
fn push_ipv4(out: &mut String, a: u8, b: u8, c: u8, d: u8)
    ensures
        final(out)@ == old(out)@ + ipv4_text(a, b, c, d),
{
    let dot = ".";
    proof {
        reveal_strlit(".");
    }
    out.append(decimal_text(a as u64).as_str());
    out.append(dot);
    out.append(decimal_text(b as u64).as_str());
    out.append(dot);
    out.append(decimal_text(c as u64).as_str());
    out.append(dot);
    out.append(decimal_text(d as u64).as_str());
    assert(final(out)@ =~= old(out)@ + ipv4_text(a, b, c, d));
}

/// Appends the colon-separated hex text of `segs[from..to]`.
fn push_segments(out: &mut String, segs: &[u16; 8], from: usize, to: usize)
    requires
        from <= to <= 8,
    ensures
        final(out)@ == old(out)@ + segments_text(segs@.subrange(from as int, to as int)),
{
    let colon = ":";
    proof {
        reveal_strlit(":");
        assert(colon@ =~= seq![':']);
        assert(segs@.subrange(from as int, from as int) =~= Seq::<u16>::empty());
        assert(out@ =~= out@ + segments_text(segs@.subrange(from as int, from as int)));
    }
    let ghost start = out@;
    let mut i = from;
    while i < to
        invariant
            from <= i <= to <= 8,
            colon@ == seq![':'],
            out@ == start + segments_text(segs@.subrange(from as int, i as int)),
        decreases to - i,
    {
        let ghost before = out@;
        if i > from {
            out.append(colon);
        }
        let h = lower_hex_text(segs[i]);
        out.append(h.as_str());
        proof {
            let s = segs@.subrange(from as int, i + 1);
            let p = segs@.subrange(from as int, i as int);
            assert(h@ == hex_digits(segs@[i as int] as nat));
            assert(s.drop_last() =~= p);
            assert(s.last() == segs@[i as int]);
            if i == from {
                assert(p.len() == 0);
                assert(segments_text(p) =~= seq![]);
                assert(s.len() == 1);
                assert(s[0] == segs@[i as int]);
                assert(segments_text(s) == hex_digits(segs@[i as int] as nat));
                assert(before =~= start);
                assert(out@ == before + h@);
                assert(out@ == start + h@);
                assert(start + segments_text(s) == start + h@);
            } else {
                assert(s.len() > 1);
                assert(segments_text(s) == segments_text(p) + seq![':'] + hex_digits(
                    segs@[i as int] as nat,
                ));
                assert(colon@ =~= seq![':']);
                assert(out@ == before + colon@ + h@);
                assert(out@ =~= start + segments_text(s));
            }
        }
        i = i + 1;
    }
}

/// Computes `zero_scan` over the eight segments.
fn scan_zeros(segs: &[u16; 8]) -> (r: (usize, usize))
    ensures
        r.0 as int == zero_scan(segs@).0,
        r.1 as int == zero_scan(segs@).1,
        r.0 + r.1 <= 8,
{
    let mut longest_start: usize = 0;
    let mut longest_len: usize = 0;
    let mut cur_start: usize = 0;
    let mut cur_len: usize = 0;
    let mut i: usize = 0;
    while i < 8
        invariant
            i <= 8,
            zero_scan(segs@.subrange(0, i as int)) == (
                longest_start as int,
                longest_len as int,
                cur_start as int,
                cur_len as int,
            ),
            longest_start + longest_len <= i,
            cur_start + cur_len == if cur_len == 0 {
                cur_start as int
            } else {
                i as int
            },
            cur_len == 0 ==> cur_start == 0,
            cur_len <= i,
        decreases 8 - i,
    {
        assert(segs@.subrange(0, i + 1).drop_last() =~= segs@.subrange(0, i as int));
        if segs[i] == 0 {
            if cur_len == 0 {
                cur_start = i;
            }
            cur_len = cur_len + 1;
            if cur_len > longest_len {
                longest_start = cur_start;
                longest_len = cur_len;
            }
        } else {
            cur_start = 0;
            cur_len = 0;
        }
        i = i + 1;
    }
    assert(segs@.subrange(0, 8) =~= segs@);
    (longest_start, longest_len)
}

/// Appends the text of an IPv6 address.
fn push_ipv6(out: &mut String, segs: &[u16; 8])
    ensures
        final(out)@ == old(out)@ + ipv6_text(segs@),
{
    if segs[0] == 0 && segs[1] == 0 && segs[2] == 0 && segs[3] == 0 && segs[4] == 0 && segs[5]
        == 0xffff {
        let prefix = "::ffff:";
        proof {
            reveal_strlit("::ffff:");
        }
        out.append(prefix);
        push_ipv4(
            out,
            (segs[6] / 256) as u8,
            (segs[6] % 256) as u8,
            (segs[7] / 256) as u8,
            (segs[7] % 256) as u8,
        );
        assert(final(out)@ =~= old(out)@ + ipv6_text(segs@));
    } else {
        let (start, len) = scan_zeros(segs);
        if len > 1 {
            push_segments(out, segs, 0, start);
            let gap = "::";
            proof {
                reveal_strlit("::");
            }
            out.append(gap);
            push_segments(out, segs, start + len, 8);
            assert(final(out)@ =~= old(out)@ + ipv6_text(segs@));
        } else {
            push_segments(out, segs, 0, 8);
            assert(segs@.subrange(0, 8) =~= segs@);
            assert(final(out)@ =~= old(out)@ + ipv6_text(segs@));
        }
    }
}

impl SocketAddress {
    /// An IPv4 socket address `a.b.c.d:port`.
    pub fn v4(a: u8, b: u8, c: u8, d: u8, port: u16) -> (addr: Self)
        ensures
            addr == (SocketAddress::V4 { octets: [a, b, c, d], port }),
    {
        SocketAddress::V4 { octets: [a, b, c, d], port }
    }

    /// An IPv6 socket address with zero flow info and scope id.
    pub fn v6(segments: [u16; 8], port: u16) -> (addr: Self)
        ensures
            addr == (SocketAddress::V6 { segments, port, flowinfo: 0, scope_id: 0 }),
    {
        SocketAddress::V6 { segments, port, flowinfo: 0, scope_id: 0 }
    }

    /// The port number.
    pub fn port(&self) -> (p: u16)
        ensures
            p == match *self {
                SocketAddress::V4 { port, .. } => port,
                SocketAddress::V6 { port, .. } => port,
            },
    {
        match self {
            SocketAddress::V4 { port, .. } => *port,
            SocketAddress::V6 { port, .. } => *port,
        }
    }

    /// The address as text, as std's `Display` for `SocketAddr` writes it.
    pub fn to_text(&self) -> (s: String)
        ensures
            s@ == socket_text(*self),
    {
        let mut out = String::new();
        match self {
            SocketAddress::V4 { octets, port } => {
                push_ipv4(&mut out, octets[0], octets[1], octets[2], octets[3]);
                let colon = ":";
                proof {
                    reveal_strlit(":");
                }
                out.append(colon);
                out.append(decimal_text(*port as u64).as_str());
            },
            SocketAddress::V6 { segments, port, flowinfo: _, scope_id } => {
                let open = "[";
                proof {
                    reveal_strlit("[");
                }
                out.append(open);
                push_ipv6(&mut out, segments);
                if *scope_id != 0 {
                    let pct = "%";
                    proof {
                        reveal_strlit("%");
                    }
                    out.append(pct);
                    out.append(decimal_text(*scope_id as u64).as_str());
                }
                let close = "]:";
                proof {
                    reveal_strlit("]:");
                }
                out.append(close);
                out.append(decimal_text(*port as u64).as_str());
            },
        }
        assert(out@ =~= socket_text(*self));
        out
    }
}

} // verus!
