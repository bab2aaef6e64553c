//! TCP frame reassembly. The wire carries length-prefixed packets — one
//! length byte, then that many payload bytes — and a read may deliver any
//! slice of that stream. The assembler consumes the stream byte by byte and
//! hands out each completed payload exactly once, however the reads were
//! chunked.

use vstd::prelude::*;
use crate::packet::Packet;

verus! {

/// What one stream byte does to the assembler: waiting on a length, the
/// byte is the next frame's length; otherwise it joins the frame, which is
/// emitted when its last byte arrives.
pub open spec fn frame_step(st: (int, Seq<u8>), b: u8) -> ((int, Seq<u8>), Option<Seq<u8>>) {
    let (rem, buf) = st;
    if rem == 0 {
        ((b as int, Seq::<u8>::empty()), None)
    } else if rem == 1 {
        ((0, Seq::<u8>::empty()), Some(buf.push(b)))
    } else {
        ((rem - 1, buf.push(b)), None)
    }
}

/// The assembler run over a whole chunk: the state it ends in and the
/// payloads it emits along the way, in order.
pub open spec fn frame_run(st: (int, Seq<u8>), data: Seq<u8>) -> ((int, Seq<u8>), Seq<Seq<u8>>)
    decreases data.len(),
{
    if data.len() == 0 {
        (st, Seq::<Seq<u8>>::empty())
    } else {
        let (st1, em) = frame_step(st, data[0]);
        let (stf, ems) = frame_run(st1, data.drop_first());
        (
            stf,
            match em {
                Some(f) => seq![f] + ems,
                None => ems,
            },
        )
    }
}

/// Reassembles length-prefixed frames from arbitrarily chunked reads.
pub struct FrameAssembler {
    remaining: usize,
    buffer: Vec<u8>,
}

impl FrameAssembler {
    /// The assembler's state for specification: how many bytes the current
    /// frame still owes, and what has arrived of it.
    pub closed spec fn model(&self) -> (int, Seq<u8>) {
        (self.remaining as int, self.buffer@)
    }

    /// A fresh assembler, waiting on a length byte.
    pub fn new() -> (r: FrameAssembler)
        ensures
            r.model() == (0int, Seq::<u8>::empty()),
    {
        FrameAssembler { remaining: 0, buffer: Vec::new() }
    }

    /// Consume one chunk of the stream. Each payload completed inside it is
    /// appended to `frames` as a packet holding exactly those bytes with
    /// its cursor at the start — however the stream was split into chunks,
    /// each logical packet is handed out exactly once.
    pub fn feed(&mut self, data: &[u8], frames: &mut Vec<Packet>)
        ensures
            ({
                let (stf, ems) = frame_run(old(self).model(), data@);
                &&& final(self).model() == stf
                &&& final(frames)@.len() == old(frames)@.len() + ems.len()
                &&& forall|k: int|
                    0 <= k < old(frames)@.len() ==> final(frames)@[k] == old(frames)@[k]
                &&& forall|k: int|
                    0 <= k < ems.len() ==> (#[trigger] final(frames)@[old(frames)@.len() + k]).bytes()
                        == ems[k] && final(frames)@[old(frames)@.len() + k].pos() == 0
            }),
    {
        let ghost st0 = self.model();
        let ghost total = frame_run(st0, data@);
        let ghost base = frames@.len();
        proof {
            assert(data@.subrange(0, data@.len() as int) =~= data@);
        }
        let mut i: usize = 0;
        while i < data.len()
            invariant
                i <= data@.len(),
                total == frame_run(st0, data@),
                base == old(frames)@.len(),
                frames@.len() >= base,
                ({
                    let (stf, ems_rest) = frame_run(self.model(), data@.subrange(
                        i as int,
                        data@.len() as int,
                    ));
                    &&& stf == total.0
                    &&& frames@.len() - base + ems_rest.len() == total.1.len()
                    &&& (forall|k: int|
                        0 <= k < ems_rest.len() ==> total.1[frames@.len() - base + k]
                            == ems_rest[k])
                }),
                forall|k: int| 0 <= k < base ==> frames@[k] == old(frames)@[k],
                forall|k: int|
                    0 <= k < frames@.len() - base ==> (#[trigger] frames@[base + k]).bytes()
                        == total.1[k] && frames@[base + k].pos() == 0,
            decreases data@.len() - i,
        {
            let ghost suffix = data@.subrange(i as int, data@.len() as int);
            let ghost mpre = self.model();
            let b = data[i];
            proof {
                assert(suffix.len() > 0);
                assert(suffix[0] == data@[i as int]);
                assert(suffix.drop_first() =~= data@.subrange(i as int + 1, data@.len() as int));
            }
            let ghost st1 = frame_step(mpre, b).0;
            let ghost em = frame_step(mpre, b).1;
            let ghost rest = data@.subrange(i as int + 1, data@.len() as int);
            proof {
                assert(frame_run(mpre, suffix).0 == frame_run(st1, rest).0);
                assert(frame_run(mpre, suffix).1 == (match em {
                    Some(f) => seq![f] + frame_run(st1, rest).1,
                    None => frame_run(st1, rest).1,
                }));
            }
            if self.remaining == 0 {
                self.remaining = b as usize;
                self.buffer.clear();
                proof {
                    assert(self.model() == st1);
                    assert(em is None);
                }
            } else if self.remaining == 1 {
                self.buffer.push(b);
                let done = Packet::from(self.buffer.as_slice(), self.buffer.len());
                proof {
                    assert(done.bytes() =~= self.buffer@);
                    assert(self.buffer@ == mpre.1.push(b));
                    assert(em == Some(mpre.1.push(b)));
                }
                frames.push(done);
                self.remaining = 0;
                self.buffer.clear();
                proof {
                    assert(self.model() == st1);
                    let ems_pre = frame_run(mpre, suffix).1;
                    let ems_post = frame_run(st1, rest).1;
                    assert(ems_pre == seq![mpre.1.push(b)] + ems_post);
                    assert(ems_pre[0] == mpre.1.push(b));
                    assert(total.1[frames@.len() - 1 - base] == mpre.1.push(b));
                    assert(forall|k: int|
                        0 <= k < ems_post.len() ==> ems_pre[1 + k] == #[trigger] ems_post[k]);
                }
            } else {
                self.buffer.push(b);
                self.remaining = self.remaining - 1;
                proof {
                    assert(self.model() == st1);
                    assert(em is None);
                }
            }
            i = i + 1;
        }
        proof {
            assert(data@.subrange(data@.len() as int, data@.len() as int) =~= Seq::<u8>::empty());
        }
    }
}

} // verus!