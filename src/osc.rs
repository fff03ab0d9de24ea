//! OSC packets as the bridge sees them, and the flattening of bundles into
//! the ordered list of their messages.
use vstd::prelude::*;

verus! {

/// One argument of an OSC message.
///
/// `Float` carries the bit pattern of a single-precision value. `Fraction`
/// is an exact ratio `num / den` that becomes a single-precision value when
/// the message is encoded. Argument types the bridge never reads are `Other`.
#[derive(Debug)]
pub enum OscArg {
    Float(u32),
    Fraction { num: u16, den: u16 },
    Str(String),
    Other,
}

#[derive(Debug)]
pub struct OscMessage {
    pub addr: String,
    pub args: Vec<OscArg>,
}

/// A received packet: a message, or a bundle of packets nested to any depth.
#[derive(Debug)]
pub enum OscPacket {
    Message(OscMessage),
    Bundle(Vec<OscPacket>),
}

/// The messages of a packet, depth first, in encoded order.
pub open spec fn flatten(p: OscPacket) -> Seq<OscMessage>
    decreases p,
{
    match p {
        OscPacket::Message(m) => seq![m],
        OscPacket::Bundle(v) => flatten_all(v@),
    }
}

/// The messages of a sequence of packets, in order.
pub open spec fn flatten_all(ps: Seq<OscPacket>) -> Seq<OscMessage>
    decreases ps,
{
    if ps.len() == 0 {
        seq![]
    } else {
        flatten_all(ps.subrange(0, ps.len() - 1)) + flatten(ps[ps.len() - 1])
    }
}

/// Number of nodes of a packet tree.
pub open spec fn size(p: OscPacket) -> nat
    decreases p,
{
    match p {
        OscPacket::Message(_) => 1,
        OscPacket::Bundle(v) => 1 + size_all(v@),
    }
}

pub open spec fn size_all(ps: Seq<OscPacket>) -> nat
    decreases ps,
{
    if ps.len() == 0 {
        0
    } else {
        size_all(ps.subrange(0, ps.len() - 1)) + size(ps[ps.len() - 1])
    }
}

/// The messages still owed by a work stack whose top is its last element.
pub open spec fn flatten_stack(s: Seq<OscPacket>) -> Seq<OscMessage>
    decreases s.len(),
{
    if s.len() == 0 {
        seq![]
    } else {
        flatten(s.last()) + flatten_stack(s.drop_last())
    }
}

pub open spec fn size_stack(s: Seq<OscPacket>) -> nat
    decreases s.len(),
{
    if s.len() == 0 {
        0
    } else {
        size(s.last()) + size_stack(s.drop_last())
    }
}

proof fn lemma_drop_last_is_subrange(ps: Seq<OscPacket>)
    requires
        ps.len() > 0,
    ensures
        ps.drop_last() == ps.subrange(0, ps.len() - 1),
{
    assert(ps.drop_last() =~= ps.subrange(0, ps.len() - 1));
}

/// The messages of a packet, depth first, in encoded order. Bundles are
/// opened with a work stack, so the depth of nesting costs no call depth.
pub fn flatten_packet(p: OscPacket) -> (r: Vec<OscMessage>)
    ensures
        r@ == flatten(p),
{
    let ghost whole = p;
    let mut out: Vec<OscMessage> = Vec::new();
    let mut stack: Vec<OscPacket> = Vec::new();
    stack.push(p);
    assert(flatten_stack(stack@) =~= flatten(whole)) by {
        assert(stack@.drop_last() =~= Seq::<OscPacket>::empty());
        assert(flatten_stack(stack@.drop_last()) == Seq::<OscMessage>::empty());
        assert(stack@.last() == whole);
    }
    loop
        invariant
            whole == p,
            out@ + flatten_stack(stack@) == flatten(whole),
        decreases size_stack(stack@),
    {
        let ghost before = stack@;
        match stack.pop() {
            None => {
                assert(stack@.len() == 0);
                assert(flatten_stack(stack@) == Seq::<OscMessage>::empty());
                assert(out@ =~= out@ + flatten_stack(stack@));
                return out;
            },
            Some(OscPacket::Message(m)) => {
                assert(before.drop_last() == stack@);
                let ghost prev = out@;
                out.push(m);
                assert(prev + flatten_stack(before) =~= out@ + flatten_stack(stack@));
            },
            Some(OscPacket::Bundle(mut v)) => {
                let ghost rest = stack@;
                let ghost items = v@;
                assert(before.drop_last() == rest);
                proof {
                    lemma_drop_last_is_subrange(before);
                }
                while v.len() > 0
                    invariant
                        flatten_all(v@) + flatten_stack(stack@) == flatten_all(items) + flatten_stack(rest),
                        size_all(v@) + size_stack(stack@) == size_all(items) + size_stack(rest),
                    decreases v.len(),
                {
                    let ghost vs = v@;
                    let ghost ss = stack@;
                    let c = v.pop().unwrap();
                    proof {
                        lemma_drop_last_is_subrange(vs);
                        assert(vs.last() == c);
                    }
                    stack.push(c);
                    assert(stack@.drop_last() =~= ss);
                    assert(flatten_all(vs) =~= flatten_all(v@) + flatten(c));
                    assert(flatten_all(v@) + flatten_stack(stack@) =~= flatten_all(vs) + flatten_stack(ss));
                }
                assert(flatten_all(v@) =~= Seq::<OscMessage>::empty());
                assert(out@ + flatten_stack(stack@) =~= out@ + flatten_stack(before));
            },
        }
    }
}

/// Flattening distributes over concatenation of packet sequences.
pub proof fn lemma_flatten_all_append(xs: Seq<OscPacket>, ys: Seq<OscPacket>)
    ensures
        flatten_all(xs + ys) == flatten_all(xs) + flatten_all(ys),
    decreases ys.len(),
{
    if ys.len() == 0 {
        assert(xs + ys =~= xs);
        assert(flatten_all(xs) + flatten_all(ys) =~= flatten_all(xs));
    } else {
        let zs = xs + ys;
        let ys1 = ys.subrange(0, ys.len() - 1);
        assert(zs.subrange(0, zs.len() - 1) =~= xs + ys1);
        assert(zs[zs.len() - 1] == ys[ys.len() - 1]);
        lemma_flatten_all_append(xs, ys1);
        assert(flatten_all(zs) =~= flatten_all(xs) + flatten_all(ys));
    }
}

/// Opening a nested bundle in place, between any packets before and after
/// it, leaves the messages and their order unchanged: bundle nesting is
/// associative.
pub proof fn lemma_bundle_splice(pre: Seq<OscPacket>, inner: Vec<OscPacket>, post: Seq<OscPacket>)
    ensures
        flatten_all(pre + seq![OscPacket::Bundle(inner)] + post) == flatten_all(pre + inner@ + post),
{
    let one = seq![OscPacket::Bundle(inner)];
    lemma_flatten_all_append(pre + one, post);
    lemma_flatten_all_append(pre, one);
    lemma_flatten_all_append(pre + inner@, post);
    lemma_flatten_all_append(pre, inner@);
    assert(one.subrange(0, 0) =~= Seq::<OscPacket>::empty());
    assert(flatten_all(one.subrange(0, 0)) == Seq::<OscMessage>::empty());
    assert(one[0] == OscPacket::Bundle(inner));
    assert(flatten(one[0]) == flatten_all(inner@));
    assert(flatten_all(one) =~= flatten_all(inner@));
}

} // verus!
