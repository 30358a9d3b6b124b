use vstd::prelude::*;

use crate::errors::LndError;

verus! {

/// The resolved network address of the node's RPC endpoint: an IPv4 address
/// and a port, as parsed from the configured `host:port` string.
#[derive(Clone, Copy, Debug, PartialEq, Eq, Structural)]
pub struct NodeAddr {
    pub a: u8,
    pub b: u8,
    pub c: u8,
    pub d: u8,
    pub port: u16,
}

pub open spec fn is_dec_digit(c: char) -> bool {
    48 <= c as u32 && c as u32 <= 57
}

pub open spec fn digit_val(c: char) -> int {
    c as u32 - 48
}

pub open spec fn all_dec_digits(s: Seq<char>) -> bool {
    forall|i: int| 0 <= i < s.len() ==> is_dec_digit(#[trigger] s[i])
}

/// The value of a digit string read as a decimal numeral.
pub open spec fn dec_val(s: Seq<char>) -> int
    decreases s.len(),
{
    if s.len() == 0 {
        0
    } else {
        dec_val(s.drop_last()) * 10 + digit_val(s.last())
    }
}

/// A decimal numeral of at most `max_len` digits and value at most `max`,
/// written canonically: nonempty, digits only, no superfluous leading zero.
pub open spec fn is_numeral(s: Seq<char>, max_len: int, max: int) -> bool {
    &&& 1 <= s.len() <= max_len
    &&& all_dec_digits(s)
    &&& (s.len() == 1 || s[0] != '0')
    &&& dec_val(s) <= max
}

pub open spec fn is_octet_str(s: Seq<char>) -> bool {
    is_numeral(s, 3, 255)
}

pub open spec fn is_port_str(s: Seq<char>) -> bool {
    is_numeral(s, 5, 65535)
}

/// The characters of `s` read `A.B.C.D:P`, with the three dots at positions
/// `p1`, `p2`, `p3`, the colon at `pc`, four octet numerals between them and
/// a port numeral after the colon.
pub open spec fn addr_split_at(s: Seq<char>, p1: int, p2: int, p3: int, pc: int) -> bool {
    &&& 0 < p1 < p2 < p3 < pc < s.len()
    &&& s[p1] == '.'
    &&& s[p2] == '.'
    &&& s[p3] == '.'
    &&& s[pc] == ':'
    &&& is_octet_str(s.subrange(0, p1))
    &&& is_octet_str(s.subrange(p1 + 1, p2))
    &&& is_octet_str(s.subrange(p2 + 1, p3))
    &&& is_octet_str(s.subrange(p3 + 1, pc))
    &&& is_port_str(s.subrange(pc + 1, s.len() as int))
}

/// The address denoted by `s` under the split at the given positions.
pub open spec fn addr_at(s: Seq<char>, p1: int, p2: int, p3: int, pc: int) -> NodeAddr {
    NodeAddr {
        a: dec_val(s.subrange(0, p1)) as u8,
        b: dec_val(s.subrange(p1 + 1, p2)) as u8,
        c: dec_val(s.subrange(p2 + 1, p3)) as u8,
        d: dec_val(s.subrange(p3 + 1, pc)) as u8,
        port: dec_val(s.subrange(pc + 1, s.len() as int)) as u16,
    }
}

/// A well-formed `host:port` address string.
pub open spec fn is_valid_addr(s: Seq<char>) -> bool {
    exists|p1: int, p2: int, p3: int, pc: int| addr_split_at(s, p1, p2, p3, pc)
}

/// The address denoted by a well-formed address string.  The split of such a
/// string is unique, so the choice is determined.
pub open spec fn spec_parsed_addr(s: Seq<char>) -> NodeAddr {
    let (p1, p2, p3, pc) = choose|p1: int, p2: int, p3: int, pc: int|
        addr_split_at(s, p1, p2, p3, pc);
    addr_at(s, p1, p2, p3, pc)
}

/// The ASCII code of the decimal digit `v`.
pub open spec fn dec_digit_byte(v: int) -> u8 {
    (48 + v) as u8
}

/// The canonical decimal numeral of `v`, as ASCII bytes.
pub open spec fn dec_render(v: int) -> Seq<u8>
    decreases v,
{
    if v < 10 {
        seq![dec_digit_byte(v)]
    } else {
        dec_render(v / 10) + seq![dec_digit_byte(v % 10)]
    }
}

/// The dotted-quad host part of an address, `A.B.C.D`, as ASCII bytes.
pub open spec fn host_render(n: NodeAddr) -> Seq<u8> {
    dec_render(n.a as int) + seq![46u8] + dec_render(n.b as int) + seq![46u8] + dec_render(
        n.c as int,
    ) + seq![46u8] + dec_render(n.d as int)
}

fn push_octet(out: &mut Vec<u8>, v: u8)
    ensures
        final(out)@ == old(out)@ + dec_render(v as int),
{
    let ghost vi = v as int;
    if v >= 100 {
        out.push(48 + v / 100);
        out.push(48 + (v / 10) % 10);
        out.push(48 + v % 10);
        proof {
            vstd::arithmetic::div_mod::lemma_div_denominator(vi, 10, 10);
            assert((vi / 10) / 10 == vi / 100);
            assert(1 <= vi / 100 < 10) by (nonlinear_arith)
                requires
                    100 <= vi <= 255,
            ;
            assert(10 <= vi / 10) by (nonlinear_arith)
                requires
                    100 <= vi,
            ;
            assert(dec_render(vi / 100) =~= seq![dec_digit_byte(vi / 100)]);
            assert(dec_render(vi / 10) =~= dec_render((vi / 10) / 10) + seq![
                dec_digit_byte((vi / 10) % 10),
            ]);
            assert(dec_render(vi / 10) =~= seq![
                dec_digit_byte(vi / 100),
                dec_digit_byte((vi / 10) % 10),
            ]);
            assert(out@ =~= old(out)@ + dec_render(vi));
        }
    } else if v >= 10 {
        out.push(48 + v / 10);
        out.push(48 + v % 10);
        proof {
            assert(1 <= vi / 10 < 10) by (nonlinear_arith)
                requires
                    10 <= vi <= 99,
            ;
            assert(dec_render(vi / 10) =~= seq![dec_digit_byte(vi / 10)]);
            assert(out@ =~= old(out)@ + dec_render(vi));
        }
    } else {
        out.push(48 + v);
        proof {
            assert(out@ =~= old(out)@ + dec_render(vi));
        }
    }
}

impl NodeAddr {
    /// The host string handed to the TLS layer and the channel: the dotted
    /// IPv4 address, without the port.
    pub fn host_bytes(&self) -> (r: Vec<u8>)
        ensures
            r@ == host_render(*self),
    {
        let mut out: Vec<u8> = Vec::new();
        push_octet(&mut out, self.a);
        out.push(46);
        push_octet(&mut out, self.b);
        out.push(46);
        push_octet(&mut out, self.c);
        out.push(46);
        push_octet(&mut out, self.d);
        proof {
            assert(out@ =~= host_render(*self));
        }
        out
    }
}

/// The end of the maximal digit run of `s` that starts at `from`.
pub open spec fn digit_run_end(s: Seq<char>, from: int) -> int
    decreases s.len() - from,
{
    if from >= s.len() || !is_dec_digit(s[from]) {
        from
    } else {
        digit_run_end(s, from + 1)
    }
}

proof fn lemma_digit_run(s: Seq<char>, from: int)
    requires
        0 <= from <= s.len(),
    ensures
        from <= digit_run_end(s, from) <= s.len(),
        forall|i: int| from <= i < digit_run_end(s, from) ==> is_dec_digit(#[trigger] s[i]),
        digit_run_end(s, from) == s.len() || !is_dec_digit(s[digit_run_end(s, from)]),
    decreases s.len() - from,
{
    if from < s.len() && is_dec_digit(s[from]) {
        lemma_digit_run(s, from + 1);
    }
}

proof fn lemma_digit_run_unique(s: Seq<char>, from: int, p: int)
    requires
        0 <= from <= p <= s.len(),
        forall|i: int| from <= i < p ==> is_dec_digit(#[trigger] s[i]),
        p == s.len() || !is_dec_digit(s[p]),
    ensures
        digit_run_end(s, from) == p,
    decreases s.len() - from,
{
    if from < p {
        lemma_digit_run_unique(s, from + 1, p);
    }
}

pub open spec fn pow10(n: int) -> int
    decreases n,
{
    if n <= 0 {
        1
    } else {
        10 * pow10(n - 1)
    }
}

proof fn lemma_dec_val_bounds(s: Seq<char>)
    requires
        all_dec_digits(s),
    ensures
        0 <= dec_val(s) < pow10(s.len() as int),
    decreases s.len(),
{
    if s.len() > 0 {
        assert forall|i: int| 0 <= i < s.drop_last().len() implies is_dec_digit(
            #[trigger] s.drop_last()[i],
        ) by {
            assert(s.drop_last()[i] == s[i]);
        }
        lemma_dec_val_bounds(s.drop_last());
        assert(is_dec_digit(s.last()));
    }
}

proof fn lemma_dec_val_monotone(s: Seq<char>, from: int, e1: int, e2: int)
    requires
        0 <= from <= e1 <= e2 <= s.len(),
        forall|i: int| from <= i < e2 ==> is_dec_digit(#[trigger] s[i]),
    ensures
        dec_val(s.subrange(from, e1)) <= dec_val(s.subrange(from, e2)),
    decreases e2 - e1,
{
    if e1 < e2 {
        lemma_dec_val_monotone(s, from, e1, e2 - 1);
        let t1 = s.subrange(from, e2 - 1);
        let t2 = s.subrange(from, e2);
        assert(t2.drop_last() =~= t1);
        assert(t2.last() == s[e2 - 1]);
        assert forall|i: int| 0 <= i < t1.len() implies is_dec_digit(#[trigger] t1[i]) by {
            assert(t1[i] == s[from + i]);
        }
        lemma_dec_val_bounds(t1);
    }
}

/// In any split of `s`, the separator positions are forced: each one is the
/// end of the maximal digit run that starts after the previous separator,
/// and the port numeral runs to the end of the string.
proof fn lemma_split_positions(s: Seq<char>, p1: int, p2: int, p3: int, pc: int)
    requires
        addr_split_at(s, p1, p2, p3, pc),
    ensures
        digit_run_end(s, 0) == p1,
        digit_run_end(s, p1 + 1) == p2,
        digit_run_end(s, p2 + 1) == p3,
        digit_run_end(s, p3 + 1) == pc,
        digit_run_end(s, pc + 1) == s.len(),
{
    let o1 = s.subrange(0, p1);
    let o2 = s.subrange(p1 + 1, p2);
    let o3 = s.subrange(p2 + 1, p3);
    let o4 = s.subrange(p3 + 1, pc);
    let ps = s.subrange(pc + 1, s.len() as int);
    assert(!is_dec_digit('.')) by {
        assert('.' as u32 == 46);
    }
    assert(!is_dec_digit(':')) by {
        assert(':' as u32 == 58);
    }
    assert forall|i: int| 0 <= i < p1 implies is_dec_digit(#[trigger] s[i]) by {
        assert(o1[i] == s[i]);
        assert(is_dec_digit(o1[i]));
    }
    lemma_digit_run_unique(s, 0, p1);
    assert forall|i: int| p1 + 1 <= i < p2 implies is_dec_digit(#[trigger] s[i]) by {
        assert(o2[i - (p1 + 1)] == s[i]);
        assert(is_dec_digit(o2[i - (p1 + 1)]));
    }
    lemma_digit_run_unique(s, p1 + 1, p2);
    assert forall|i: int| p2 + 1 <= i < p3 implies is_dec_digit(#[trigger] s[i]) by {
        assert(o3[i - (p2 + 1)] == s[i]);
        assert(is_dec_digit(o3[i - (p2 + 1)]));
    }
    lemma_digit_run_unique(s, p2 + 1, p3);
    assert forall|i: int| p3 + 1 <= i < pc implies is_dec_digit(#[trigger] s[i]) by {
        assert(o4[i - (p3 + 1)] == s[i]);
        assert(is_dec_digit(o4[i - (p3 + 1)]));
    }
    lemma_digit_run_unique(s, p3 + 1, pc);
    assert forall|i: int| pc + 1 <= i < s.len() implies is_dec_digit(#[trigger] s[i]) by {
        assert(ps[i - (pc + 1)] == s[i]);
        assert(is_dec_digit(ps[i - (pc + 1)]));
    }
    lemma_digit_run_unique(s, pc + 1, s.len() as int);
}

/// Scans the maximal digit run of `s` that starts at `from` and accepts it as
/// a canonical decimal numeral of at most `max_len` digits and value at most
/// `max`.  Returns the end of the run and the value, or nothing where the run
/// is not such a numeral.
fn scan_number(s: &str, from: usize, max_len: usize, max: u32) -> (r: Option<(usize, u32)>)
    requires
        from <= s@.len(),
        1 <= max_len <= 5,
        max < 100000,
    ensures
        (r matches Some(p) ==> {
            &&& p.0 == digit_run_end(s@, from as int)
            &&& from < p.0 <= s@.len()
            &&& is_numeral(s@.subrange(from as int, p.0 as int), max_len as int, max as int)
            &&& p.1 == dec_val(s@.subrange(from as int, p.0 as int))
        }),
        (r is None ==> !is_numeral(
            s@.subrange(from as int, digit_run_end(s@, from as int)),
            max_len as int,
            max as int,
        )),
{
    let len = s.unicode_len();
    let mut i: usize = from;
    let mut v: u32 = 0;
    let mut stop = false;
    while !stop && i < len
        invariant
            from <= i <= len,
            len == s@.len(),
            1 <= max_len <= 5,
            max < 100000,
            forall|j: int| from <= j < i ==> is_dec_digit(#[trigger] s@[j]),
            v == dec_val(s@.subrange(from as int, i as int)),
            v <= max,
            i - from <= max_len,
            stop ==> i < len && !is_dec_digit(s@[i as int]),
        decreases len - i + (if stop {
            0int
        } else {
            1int
        }),
    {
        let c = s.get_char(i);
        let cv = c as u32;
        if cv < 48 || cv > 57 {
            stop = true;
        } else {
            proof {
                lemma_digit_run(s@, from as int);
                let run = digit_run_end(s@, from as int);
                assert(is_dec_digit(s@[i as int]));
                assert(run > i) by {
                    if run <= i {
                        assert(is_dec_digit(s@[run]));
                    }
                }
            }
            if i - from >= max_len {
                proof {
                    let run = digit_run_end(s@, from as int);
                    let seg = s@.subrange(from as int, run);
                    assert(seg.len() > max_len);
                }
                return None;
            }
            proof {
                let sub1 = s@.subrange(from as int, i as int);
                let sub2 = s@.subrange(from as int, i as int + 1);
                assert(sub2.drop_last() =~= sub1);
                assert(sub2.last() == s@[i as int]);
            }
            let nv = v * 10 + (cv - 48);
            if nv > max {
                proof {
                    let run = digit_run_end(s@, from as int);
                    lemma_dec_val_monotone(s@, from as int, i as int + 1, run);
                    let seg = s@.subrange(from as int, run);
                    assert(dec_val(seg) > max);
                }
                return None;
            }
            v = nv;
            i = i + 1;
        }
    }
    proof {
        lemma_digit_run_unique(s@, from as int, i as int);
    }
    if i == from {
        proof {
            assert(s@.subrange(from as int, from as int).len() == 0);
        }
        return None;
    }
    if i - from > 1 {
        let c0 = s.get_char(from);
        if c0 == '0' {
            proof {
                let seg = s@.subrange(from as int, i as int);
                assert(seg[0] == s@[from as int]);
            }
            return None;
        }
    }
    proof {
        let seg = s@.subrange(from as int, i as int);
        assert forall|j: int| 0 <= j < seg.len() implies is_dec_digit(#[trigger] seg[j]) by {
            assert(seg[j] == s@[from + j]);
        }
        assert(seg.len() == 1 || seg[0] != '0') by {
            if seg.len() > 1 {
                assert(seg[0] == s@[from as int]);
            }
        }
    }
    Some((i, v))
}

/// Parses the node address string as an IPv4 `host:port` socket address.
/// Exactly the well-formed strings are accepted; every other string is
/// rejected with `AddressParseError`.
pub fn parse_node_addr(s: &str) -> (r: Result<NodeAddr, LndError>)
    ensures
        r is Ok <==> is_valid_addr(s@),
        (r matches Ok(n) ==> n == spec_parsed_addr(s@)),
        (r matches Err(e) ==> e == LndError::AddressParseError),
{
    let len = s.unicode_len();
    let (d1, a) = match scan_number(s, 0, 3, 255) {
        None => {
            proof {
                assert forall|p1: int, p2: int, p3: int, pc: int| !addr_split_at(
                    s@,
                    p1,
                    p2,
                    p3,
                    pc,
                ) by {
                    if addr_split_at(s@, p1, p2, p3, pc) {
                        lemma_split_positions(s@, p1, p2, p3, pc);
                    }
                }
            }
            return Err(LndError::AddressParseError);
        },
        Some(p) => p,
    };
    if d1 >= len || s.get_char(d1) != '.' {
        proof {
            assert forall|p1: int, p2: int, p3: int, pc: int| !addr_split_at(
                s@,
                p1,
                p2,
                p3,
                pc,
            ) by {
                if addr_split_at(s@, p1, p2, p3, pc) {
                    lemma_split_positions(s@, p1, p2, p3, pc);
                }
            }
        }
        return Err(LndError::AddressParseError);
    }
    let (d2, b) = match scan_number(s, d1 + 1, 3, 255) {
        None => {
            proof {
                assert forall|p1: int, p2: int, p3: int, pc: int| !addr_split_at(
                    s@,
                    p1,
                    p2,
                    p3,
                    pc,
                ) by {
                    if addr_split_at(s@, p1, p2, p3, pc) {
                        lemma_split_positions(s@, p1, p2, p3, pc);
                    }
                }
            }
            return Err(LndError::AddressParseError);
        },
        Some(p) => p,
    };
    if d2 >= len || s.get_char(d2) != '.' {
        proof {
            assert forall|p1: int, p2: int, p3: int, pc: int| !addr_split_at(
                s@,
                p1,
                p2,
                p3,
                pc,
            ) by {
                if addr_split_at(s@, p1, p2, p3, pc) {
                    lemma_split_positions(s@, p1, p2, p3, pc);
                }
            }
        }
        return Err(LndError::AddressParseError);
    }
    let (d3, c) = match scan_number(s, d2 + 1, 3, 255) {
        None => {
            proof {
                assert forall|p1: int, p2: int, p3: int, pc: int| !addr_split_at(
                    s@,
                    p1,
                    p2,
                    p3,
                    pc,
                ) by {
                    if addr_split_at(s@, p1, p2, p3, pc) {
                        lemma_split_positions(s@, p1, p2, p3, pc);
                    }
                }
            }
            return Err(LndError::AddressParseError);
        },
        Some(p) => p,
    };
    if d3 >= len || s.get_char(d3) != '.' {
        proof {
            assert forall|p1: int, p2: int, p3: int, pc: int| !addr_split_at(
                s@,
                p1,
                p2,
                p3,
                pc,
            ) by {
                if addr_split_at(s@, p1, p2, p3, pc) {
                    lemma_split_positions(s@, p1, p2, p3, pc);
                }
            }
        }
        return Err(LndError::AddressParseError);
    }
    let (cp, d) = match scan_number(s, d3 + 1, 3, 255) {
        None => {
            proof {
                assert forall|p1: int, p2: int, p3: int, pc: int| !addr_split_at(
                    s@,
                    p1,
                    p2,
                    p3,
                    pc,
                ) by {
                    if addr_split_at(s@, p1, p2, p3, pc) {
                        lemma_split_positions(s@, p1, p2, p3, pc);
                    }
                }
            }
            return Err(LndError::AddressParseError);
        },
        Some(p) => p,
    };
    if cp >= len || s.get_char(cp) != ':' {
        proof {
            assert forall|p1: int, p2: int, p3: int, pc: int| !addr_split_at(
                s@,
                p1,
                p2,
                p3,
                pc,
            ) by {
                if addr_split_at(s@, p1, p2, p3, pc) {
                    lemma_split_positions(s@, p1, p2, p3, pc);
                }
            }
        }
        return Err(LndError::AddressParseError);
    }
    let (pe, port) = match scan_number(s, cp + 1, 5, 65535) {
        None => {
            proof {
                assert forall|p1: int, p2: int, p3: int, pc: int| !addr_split_at(
                    s@,
                    p1,
                    p2,
                    p3,
                    pc,
                ) by {
                    if addr_split_at(s@, p1, p2, p3, pc) {
                        lemma_split_positions(s@, p1, p2, p3, pc);
                    }
                }
            }
            return Err(LndError::AddressParseError);
        },
        Some(p) => p,
    };
    if pe != len {
        proof {
            assert forall|p1: int, p2: int, p3: int, pc: int| !addr_split_at(
                s@,
                p1,
                p2,
                p3,
                pc,
            ) by {
                if addr_split_at(s@, p1, p2, p3, pc) {
                    lemma_split_positions(s@, p1, p2, p3, pc);
                }
            }
        }
        return Err(LndError::AddressParseError);
    }
    let n = NodeAddr { a: a as u8, b: b as u8, c: c as u8, d: d as u8, port: port as u16 };
    proof {
        assert(addr_split_at(s@, d1 as int, d2 as int, d3 as int, cp as int));
        assert(n == addr_at(s@, d1 as int, d2 as int, d3 as int, cp as int));
        let (q1, q2, q3, qc) = choose|p1: int, p2: int, p3: int, pc: int|
            addr_split_at(s@, p1, p2, p3, pc);
        lemma_split_positions(s@, q1, q2, q3, qc);
        assert(q1 == d1 && q2 == d2 && q3 == d3 && qc == cp);
        assert(n == spec_parsed_addr(s@));
    }
    Ok(n)
}

} // verus!
