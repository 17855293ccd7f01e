use crate::errors::RouterError;
use vstd::prelude::*;

verus! {

/// Which side of the two-step manual-signaling exchange a descriptor
/// belongs to: an initiator publishes an offer, a responder replies
/// with an answer.
#[derive(Clone, Copy, PartialEq, Eq, Structural, Debug)]
pub enum DescriptorKind {
    Offer,
    Answer,
}

/// One side's immutable session and reachability parameters, produced
/// exactly once per role per connection and exchanged out of band.
/// The session payload is carried as opaque bytes.
pub struct ConnectionDescriptor {
    pub kind: DescriptorKind,
    pub sdp: Vec<u8>,
}

/// The mathematical value of a [`ConnectionDescriptor`].
#[verifier::ext_equal]
pub struct DescModel {
    pub kind: DescriptorKind,
    pub sdp: Seq<u8>,
}

impl View for ConnectionDescriptor {
    type V = DescModel;

    open spec fn view(&self) -> DescModel {
        DescModel { kind: self.kind, sdp: self.sdp@ }
    }
}

/// The leading bytes of an encoded offer: the ASCII word `offer`
/// followed by a line feed.
pub open spec fn offer_prefix() -> Seq<u8> {
    seq![111u8, 102u8, 102u8, 101u8, 114u8, 10u8]
}

/// The leading bytes of an encoded answer: the ASCII word `answer`
/// followed by a line feed.
pub open spec fn answer_prefix() -> Seq<u8> {
    seq![97u8, 110u8, 115u8, 119u8, 101u8, 114u8, 10u8]
}

/// The portable text form of a descriptor: a role tag line, then the
/// session payload verbatim.
pub open spec fn encode_spec(d: DescModel) -> Seq<u8> {
    match d.kind {
        DescriptorKind::Offer => offer_prefix() + d.sdp,
        DescriptorKind::Answer => answer_prefix() + d.sdp,
    }
}

/// What a byte sequence decodes to: the descriptor whose encoding it
/// is, or nothing when it carries no recognizable role tag.
pub open spec fn decode_spec(s: Seq<u8>) -> Option<DescModel> {
    if s.len() >= 6 && s.subrange(0, 6) == offer_prefix() {
        Some(DescModel { kind: DescriptorKind::Offer, sdp: s.subrange(6, s.len() as int) })
    } else if s.len() >= 7 && s.subrange(0, 7) == answer_prefix() {
        Some(DescModel { kind: DescriptorKind::Answer, sdp: s.subrange(7, s.len() as int) })
    } else {
        None
    }
}

/// Serializes a descriptor into its portable text form.
pub fn encode_descriptor(d: &ConnectionDescriptor) -> (r: Vec<u8>)
    ensures
        r@ == encode_spec(d@),
{
    let mut r: Vec<u8> = Vec::new();
    match d.kind {
        DescriptorKind::Offer => {
            r.push(111);
            r.push(102);
            r.push(102);
            r.push(101);
            r.push(114);
            r.push(10);
            proof {
                assert(r@ =~= offer_prefix());
            }
        },
        DescriptorKind::Answer => {
            r.push(97);
            r.push(110);
            r.push(115);
            r.push(119);
            r.push(101);
            r.push(114);
            r.push(10);
            proof {
                assert(r@ =~= answer_prefix());
            }
        },
    }
    let ghost prefix: Seq<u8> = r@;
    let mut i: usize = 0;
    while i < d.sdp.len()
        invariant
            i <= d.sdp.len(),
            r@ == prefix + d.sdp@.take(i as int),
        decreases d.sdp.len() - i,
    {
        r.push(d.sdp[i]);
        proof {
            assert(prefix + d.sdp@.take(i as int + 1) =~= (prefix + d.sdp@.take(i as int)).push(
                d.sdp@[i as int],
            ));
        }
        i = i + 1;
    }
    proof {
        assert(d.sdp@.take(d.sdp@.len() as int) =~= d.sdp@);
        assert(r@ =~= encode_spec(d@));
    }
    r
}

/// Whether the input starts with the offer role tag.
fn is_offer_framed(s: &Vec<u8>) -> (r: bool)
    ensures
        r == (s@.len() >= 6 && s@.subrange(0, 6) == offer_prefix()),
{
    if s.len() < 6 {
        return false;
    }
    let r = s[0] == 111 && s[1] == 102 && s[2] == 102 && s[3] == 101 && s[4] == 114 && s[5] == 10;
    proof {
        if r {
            assert(s@.subrange(0, 6) =~= offer_prefix());
        } else {
            assert(s@.subrange(0, 6) == offer_prefix() ==> (s@[0] == 111 && s@[1] == 102 && s@[2]
                == 102 && s@[3] == 101 && s@[4] == 114 && s@[5] == 10)) by {
                if s@.subrange(0, 6) == offer_prefix() {
                    assert(forall|k: int|
                        0 <= k < 6 ==> s@.subrange(0, 6)[k] == offer_prefix()[k]);
                }
            }
        }
    }
    r
}

/// Whether the input starts with the answer role tag.
fn is_answer_framed(s: &Vec<u8>) -> (r: bool)
    ensures
        r == (s@.len() >= 7 && s@.subrange(0, 7) == answer_prefix()),
{
    if s.len() < 7 {
        return false;
    }
    let r = s[0] == 97 && s[1] == 110 && s[2] == 115 && s[3] == 119 && s[4] == 101 && s[5] == 114
        && s[6] == 10;
    proof {
        if r {
            assert(s@.subrange(0, 7) =~= answer_prefix());
        } else {
            assert(s@.subrange(0, 7) == answer_prefix() ==> (s@[0] == 97 && s@[1] == 110 && s@[2]
                == 115 && s@[3] == 119 && s@[4] == 101 && s@[5] == 114 && s@[6] == 10)) by {
                if s@.subrange(0, 7) == answer_prefix() {
                    assert(forall|k: int|
                        0 <= k < 7 ==> s@.subrange(0, 7)[k] == answer_prefix()[k]);
                }
            }
        }
    }
    r
}

/// Copies the bytes of `s` from `start` to the end into a fresh
/// vector.
fn tail_from(s: &Vec<u8>, start: usize) -> (r: Vec<u8>)
    requires
        start <= s@.len(),
    ensures
        r@ == s@.subrange(start as int, s@.len() as int),
{
    let mut r: Vec<u8> = Vec::new();
    let mut i: usize = start;
    while i < s.len()
        invariant
            start <= i <= s@.len(),
            r@ == s@.subrange(start as int, i as int),
        decreases s@.len() - i,
    {
        r.push(s[i]);
        proof {
            assert(s@.subrange(start as int, i as int + 1) =~= s@.subrange(
                start as int,
                i as int,
            ).push(s@[i as int]));
        }
        i = i + 1;
    }
    r
}

/// Parses the portable text form back into a descriptor.  An input
/// that carries no recognizable role tag is rejected as malformed.
pub fn decode_descriptor(s: &Vec<u8>) -> (r: Result<ConnectionDescriptor, RouterError>)
    ensures
        match r {
            Ok(d) => decode_spec(s@) == Some(d@),
            Err(e) => e == RouterError::MalformedDescriptor && decode_spec(s@) is None,
        },
{
    if is_offer_framed(s) {
        let sdp = tail_from(s, 6);
        let d = ConnectionDescriptor { kind: DescriptorKind::Offer, sdp };
        proof {
            assert(decode_spec(s@) == Some(d@)) by {
                assert(decode_spec(s@)->Some_0 =~= d@);
            }
        }
        Ok(d)
    } else if is_answer_framed(s) {
        let sdp = tail_from(s, 7);
        let d = ConnectionDescriptor { kind: DescriptorKind::Answer, sdp };
        proof {
            assert(decode_spec(s@) == Some(d@)) by {
                assert(decode_spec(s@)->Some_0 =~= d@);
            }
        }
        Ok(d)
    } else {
        Err(RouterError::MalformedDescriptor)
    }
}

/// Round trip: decoding an encoded descriptor recovers it exactly,
/// field for field, whatever its kind and payload.
pub proof fn lemma_descriptor_round_trip(d: DescModel)
    ensures
        decode_spec(encode_spec(d)) == Some(d),
{
    let e = encode_spec(d);
    match d.kind {
        DescriptorKind::Offer => {
            assert(e.subrange(0, 6) =~= offer_prefix());
            assert(e.subrange(6, e.len() as int) =~= d.sdp);
            assert(decode_spec(e)->Some_0 =~= d);
        },
        DescriptorKind::Answer => {
            assert(e[0] == 97);
            assert(e.subrange(0, 6) == offer_prefix() ==> e.subrange(0, 6)[0] == offer_prefix()[0]);
            assert(e.subrange(0, 7) =~= answer_prefix());
            assert(e.subrange(7, e.len() as int) =~= d.sdp);
            assert(decode_spec(e)->Some_0 =~= d);
        },
    }
}

} // verus!
