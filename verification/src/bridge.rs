//! The output bridge: filling a pulled frame buffer from the sample stream.
//!
//! On each pull the bridge fills every slot of the supplied buffer — each
//! frame is `channels` consecutive slots in interleaved order, and every
//! slot receives exactly one transformed sample, so the fill is uniform
//! across frames.  The bridge is purely a driver: it buffers nothing beyond
//! the one pull.  A source too short to fill the whole buffer is a fatal
//! truncation reported before anything is consumed, written or emitted: no
//! partial or corrupt frame is ever delivered.

use vstd::prelude::*;

use crate::bit_io::BitReader;
use crate::bit_io::BitWriter;
use crate::bit_io::FromBytes;
use crate::bit_io::SizedNumber;
use crate::bit_io::StreamError;
use crate::bit_io::ToBytes;
use crate::bytes::bytes_of;
use crate::bytes::val_of;
use crate::transform::AMP_ONE;
use crate::transform::Amplitude;
use crate::transform::apply_gain;
use crate::transform::gain_scaled;
use crate::transform::hard_limit;
use crate::transform::transformed;

verus! {

/// The bytes of sample `j` of a source whose samples are `size` bytes wide.
pub open spec fn chunk_at(src: Seq<u8>, size: int, j: int) -> Seq<u8> {
    src.subrange(j * size, j * size + size)
}

/// The wire representation of sample `j` of the source.
pub open spec fn raw_at<I: SizedNumber>(src: Seq<u8>, j: int, big_endian: bool) -> int {
    val_of(chunk_at(src, I::size_spec(), j), big_endian)
}

/// What the bridge writes into slot `j`: sample `j` of the source decoded,
/// normalized, gain-scaled and, when limiting is on, hard-limited.
pub open spec fn slot_value<I: Amplitude>(
    src: Seq<u8>,
    j: int,
    big_endian: bool,
    gain_ppm: int,
    limit: bool,
) -> int {
    transformed(I::amp_of(raw_at::<I>(src, j, big_endian)), gain_ppm, limit)
}

/// The unsigned 16-byte wire representation of a post-gain value.
pub open spec fn repr128(v: int) -> int {
    if v >= 0 {
        v
    } else {
        v + 0x1_00000000_00000000_00000000_00000000
    }
}

/// What a pre-gain tee has emitted after the first `k` samples: each raw
/// value re-encoded at its own width in the sink's byte order.
pub open spec fn pre_tee_bytes<I: SizedNumber>(
    src: Seq<u8>,
    read_be: bool,
    sink_be: bool,
    k: int,
) -> Seq<u8>
    decreases k,
{
    if k <= 0 {
        Seq::empty()
    } else {
        pre_tee_bytes::<I>(src, read_be, sink_be, k - 1) + bytes_of(
            raw_at::<I>(src, k - 1, read_be),
            I::size_spec() as nat,
            sink_be,
        )
    }
}

/// What a post-gain tee has emitted after the first `k` samples: each
/// post-gain, pre-limit value as 16 bytes in the sink's byte order.
pub open spec fn post_tee_bytes<I: Amplitude>(
    src: Seq<u8>,
    read_be: bool,
    sink_be: bool,
    gain_ppm: int,
    k: int,
) -> Seq<u8>
    decreases k,
{
    if k <= 0 {
        Seq::empty()
    } else {
        post_tee_bytes::<I>(src, read_be, sink_be, gain_ppm, k - 1) + bytes_of(
            repr128(gain_scaled(I::amp_of(raw_at::<I>(src, k - 1, read_be)), gain_ppm)),
            16,
            sink_be,
        )
    }
}

/// Law: when the tee sink shares the session's byte order, the pre-gain
/// tee echoes exactly the bytes the bridge consumed — re-encoding each
/// decoded sample reproduces its own source chunk.
pub proof fn lemma_pre_tee_echoes_source<I: SizedNumber>(src: Seq<u8>, big_endian: bool, k: int)
    requires
        0 <= k,
        k * I::size_spec() <= src.len(),
    ensures
        pre_tee_bytes::<I>(src, big_endian, big_endian, k) == src.take(k * I::size_spec()),
    decreases k,
{
    I::lemma_size_valid();
    let s = I::size_spec();
    if k == 0 {
        assert(pre_tee_bytes::<I>(src, big_endian, big_endian, 0) =~= src.take(0 * s));
    } else {
        assert((k - 1) * s == k * s - s && 0 <= (k - 1) * s) by (nonlinear_arith)
            requires
                1 <= k,
                1 <= s,
        ;
        lemma_pre_tee_echoes_source::<I>(src, big_endian, k - 1);
        let chunk = chunk_at(src, s, k - 1);
        if big_endian {
            crate::bytes::lemma_be_bytes_of_val(chunk);
        } else {
            crate::bytes::lemma_le_bytes_of_val(chunk);
        }
        assert(bytes_of(raw_at::<I>(src, k - 1, big_endian), s as nat, big_endian) == chunk);
        assert(src.take(k * s) =~= src.take((k - 1) * s) + chunk);
    }
}

/// Fill the whole output buffer, one transformed sample per slot, driving
/// transform, stream and codec; echo each sample's chosen stage to the tee
/// sink while one is active.
///
/// Succeeds exactly when the source still holds one full sample per slot.
/// A shorter source is a fatal truncation: nothing is consumed, no slot is
/// written and nothing reaches the tee sink, so no partial frame can ever
/// be delivered; the caller tears the session down.
pub fn write_data<I: FromBytes + ToBytes + Amplitude + Copy>(
    output: &mut Vec<i128>,
    channels: usize,
    gain_ppm: u32,
    reader: &mut BitReader,
    pre_out: bool,
    post_out: bool,
    out_io: &mut Option<BitWriter>,
    limit: bool,
) -> (r: Result<(), StreamError>)
    requires
        !(pre_out && post_out),
        channels >= 1,
    ensures
        final(output)@.len() == old(output)@.len(),
        final(reader).is_be() == old(reader).is_be(),
        match r {
            Ok(()) => {
                let src = old(reader).remaining();
                let n = old(output)@.len() as int;
                let s = I::size_spec();
                &&& src.len() >= n * s
                &&& final(reader).remaining() == src.skip(n * s)
                &&& forall|j: int|
                    0 <= j < n ==> (#[trigger] final(output)@[j]) as int == slot_value::<I>(
                        src,
                        j,
                        old(reader).is_be(),
                        gain_ppm as int,
                        limit,
                    )
                &&& limit ==> forall|j: int|
                    0 <= j < n ==> -(AMP_ONE as int) <= (#[trigger] final(output)@[j]) as int
                        <= AMP_ONE as int
                &&& match *old(out_io) {
                    Option::None => *final(out_io) is None,
                    Option::Some(w) => {
                        if pre_out {
                            *final(out_io) matches Option::Some(w2) && w2.is_be() == w.is_be()
                                && w2.written() == w.written() + pre_tee_bytes::<I>(
                                src,
                                old(reader).is_be(),
                                w.is_be(),
                                n,
                            )
                        } else if post_out {
                            *final(out_io) matches Option::Some(w2) && w2.is_be() == w.is_be()
                                && w2.written() == w.written() + post_tee_bytes::<I>(
                                src,
                                old(reader).is_be(),
                                w.is_be(),
                                gain_ppm as int,
                                n,
                            )
                        } else {
                            *final(out_io) == *old(out_io)
                        }
                    },
                }
            },
            Err(e) => {
                &&& e == StreamError::Truncated
                &&& old(reader).remaining().len() < old(output)@.len() * I::size_spec()
                &&& final(output)@ == old(output)@
                &&& *final(reader) == *old(reader)
                &&& *final(out_io) == *old(out_io)
            },
        },
{
    let n_slots = output.len();
    let size = I::size();
    proof {
        I::lemma_size_valid();
    }
    let have = reader.remaining_len();
    proof {
        assert((n_slots as int) * (size as int) <= 0xffff_ffff_ffff_ffff * 16)
            by (nonlinear_arith)
            requires
                0 <= (n_slots as int) && (n_slots as int) <= 0xffff_ffff_ffff_ffff,
                0 <= (size as int) && (size as int) <= 16,
        ;
    }
    if (have as u128) < (n_slots as u128) * (size as u128) {
        return Err(StreamError::Truncated);
    }
    let mut sink = out_io.take();
    let mut j: usize = 0;
    while j < n_slots
        invariant
            j <= n_slots,
            n_slots == output@.len(),
            output@.len() == old(output)@.len(),
            size as int == I::size_spec(),
            1 <= size as int <= 16,
            !(pre_out && post_out),
            old(reader).remaining().len() >= (n_slots as int) * (size as int),
            reader.is_be() == old(reader).is_be(),
            reader.remaining() == old(reader).remaining().skip((j as int) * (size as int)),
            forall|i: int|
                0 <= i < j ==> (#[trigger] output@[i]) as int == slot_value::<I>(
                    old(reader).remaining(),
                    i,
                    old(reader).is_be(),
                    gain_ppm as int,
                    limit,
                ),
            match *old(out_io) {
                Option::None => sink is None,
                Option::Some(w) => {
                    if pre_out {
                        sink matches Option::Some(w2) && w2.is_be() == w.is_be() && w2.written()
                            == w.written() + pre_tee_bytes::<I>(
                            old(reader).remaining(),
                            old(reader).is_be(),
                            w.is_be(),
                            j as int,
                        )
                    } else if post_out {
                        sink matches Option::Some(w2) && w2.is_be() == w.is_be() && w2.written()
                            == w.written() + post_tee_bytes::<I>(
                            old(reader).remaining(),
                            old(reader).is_be(),
                            w.is_be(),
                            gain_ppm as int,
                            j as int,
                        )
                    } else {
                        sink == *old(out_io)
                    }
                },
            },
        decreases n_slots - j,
    {
        proof {
            assert((j as int) * (size as int) + (size as int) == ((j as int) + 1) * (size as int)
                && ((j as int) + 1) * (size as int) <= (n_slots as int) * (size as int)
                && 0 <= (j as int) * (size as int))
                by (nonlinear_arith)
                requires
                    0 <= (j as int) && (j as int) < (n_slots as int),
                    1 <= (size as int),
            ;
        }
        let ghost src = old(reader).remaining();
        let ghost rem_j = reader.remaining();
        let raw: I = match reader.read::<I>() {
            Ok(v) => v,
            Err(_) => {
                proof {
                    assert(false);
                }
                unreached()
            },
        };
        proof {
            assert(rem_j.take(size as int) =~= chunk_at(src, size as int, j as int));
            assert(reader.remaining() =~= src.skip(((j as int) + 1) * (size as int)));
            assert(raw.repr() == raw_at::<I>(src, j as int, old(reader).is_be()));
        }
        let amp = raw.to_amp();
        let post = apply_gain(amp, gain_ppm);
        if pre_out {
            sink = match sink {
                Option::Some(mut w) => {
                    let ghost w_before = w;
                    w.write::<I>(raw);
                    proof {
                        assert(w.written() =~= w_before.written() + bytes_of(
                            raw_at::<I>(src, j as int, old(reader).is_be()),
                            I::size_spec() as nat,
                            w_before.is_be(),
                        ));
                    }
                    Option::Some(w)
                },
                Option::None => Option::None,
            };
        } else if post_out {
            sink = match sink {
                Option::Some(mut w) => {
                    let ghost w_before = w;
                    w.write::<i128>(post);
                    proof {
                        assert(post.repr() == repr128(
                            gain_scaled(
                                I::amp_of(raw_at::<I>(src, j as int, old(reader).is_be())),
                                gain_ppm as int,
                            ),
                        ));
                        assert(w.written() =~= w_before.written() + bytes_of(
                            post.repr(),
                            16,
                            w_before.is_be(),
                        ));
                    }
                    Option::Some(w)
                },
                Option::None => Option::None,
            };
        }
        let out = if limit {
            hard_limit(post)
        } else {
            post
        };
        output[j] = out;
        proof {
            if pre_out {
                match *old(out_io) {
                    Option::Some(w) => {
                        assert(w.written() + pre_tee_bytes::<I>(
                            src,
                            old(reader).is_be(),
                            w.is_be(),
                            (j as int) + 1,
                        ) =~= (w.written() + pre_tee_bytes::<I>(
                            src,
                            old(reader).is_be(),
                            w.is_be(),
                            j as int,
                        )) + bytes_of(
                            raw_at::<I>(src, j as int, old(reader).is_be()),
                            I::size_spec() as nat,
                            w.is_be(),
                        ));
                    },
                    Option::None => {},
                }
            } else if post_out {
                match *old(out_io) {
                    Option::Some(w) => {
                        assert(w.written() + post_tee_bytes::<I>(
                            src,
                            old(reader).is_be(),
                            w.is_be(),
                            gain_ppm as int,
                            (j as int) + 1,
                        ) =~= (w.written() + post_tee_bytes::<I>(
                            src,
                            old(reader).is_be(),
                            w.is_be(),
                            gain_ppm as int,
                            j as int,
                        )) + bytes_of(
                            repr128(
                                gain_scaled(
                                    I::amp_of(raw_at::<I>(src, j as int, old(reader).is_be())),
                                    gain_ppm as int,
                                ),
                            ),
                            16,
                            w.is_be(),
                        ));
                    },
                    Option::None => {},
                }
            }
        }
        j += 1;
    }
    *out_io = sink;
    Ok(())
}

} // verus!
