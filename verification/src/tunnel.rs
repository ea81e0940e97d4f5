//! From one end of the tunnel to the other: what a writer is given arrives
//! at the reader of the peer, byte for byte.

use crate::api::{
    ClientId, Frame, ID_DATA, MAX_PAYLOAD_LENGTH, all_chunks, chunk_frames, dropped_frames,
    encode, frame_len, frame_of, is_chunk, lemma_chunk_frames_all, lemma_encode_is_frame,
    split_frames,
};
use crate::stream::{flushed, lemma_writer_chunking, run_writes, stream_bytes};
use vstd::prelude::*;

verus! {

/// The data chunks that carry `payloads` for a client, serialized, in order.
pub open spec fn data_chunks(client_id: ClientId, payloads: Seq<Seq<u8>>) -> Seq<Seq<u8>> {
    payloads.map_values(|payload: Seq<u8>| encode(client_id, ID_DATA, payload))
}

/// The data chunks that carry `payloads` for a client, as values.
pub open spec fn data_frames(client_id: ClientId, payloads: Seq<Seq<u8>>) -> Seq<Frame> {
    payloads.map_values(|payload: Seq<u8>| Frame { client_id, kind: ID_DATA, payload })
}

/// Whether every payload fits in a chunk.
pub open spec fn all_fit(payloads: Seq<Seq<u8>>) -> bool {
    forall|i: int| 0 <= i < payloads.len() ==> (#[trigger] payloads[i]).len() <= MAX_PAYLOAD_LENGTH
}

/// Chunks that are written one behind the other are cut apart again where
/// they were joined, and nothing is left over.
pub proof fn lemma_split_data_chunks(client_id: ClientId, payloads: Seq<Seq<u8>>)
    requires
        all_fit(payloads),
    ensures
        split_frames(data_chunks(client_id, payloads).flatten()) == (
            data_chunks(client_id, payloads),
            Seq::<u8>::empty(),
        ),
    decreases payloads.len(),
{
    let chunks = data_chunks(client_id, payloads);
    let wire = chunks.flatten();
    if payloads.len() == 0 {
        assert(wire =~= Seq::<u8>::empty());
        assert(chunks =~= Seq::<Seq<u8>>::empty());
    } else {
        let first = chunks.first();
        let rest = payloads.drop_first();
        assert(first == encode(client_id, ID_DATA, payloads[0]));
        assert(chunks.drop_first() =~= data_chunks(client_id, rest));
        let tail = data_chunks(client_id, rest).flatten();
        assert(wire == first + tail);
        lemma_encode_is_frame(client_id, ID_DATA, payloads[0]);
        assert(wire[5] == first[5]);
        assert(wire[6] == first[6]);
        assert(frame_len(wire) == Some(first.len()));
        assert(wire.subrange(0, first.len() as int) =~= first);
        assert(wire.subrange(first.len() as int, wire.len() as int) =~= tail);
        assert forall|i: int| 0 <= i < rest.len() implies (#[trigger] rest[i]).len()
            <= MAX_PAYLOAD_LENGTH by {
            assert(rest[i] == payloads[i + 1]);
        }
        lemma_split_data_chunks(client_id, rest);
        assert(seq![first] + data_chunks(client_id, rest) =~= chunks);
    }
}

/// A reader hands out the payloads of data chunks one behind the other.
pub proof fn lemma_stream_bytes_of_data(client_id: ClientId, payloads: Seq<Seq<u8>>)
    ensures
        stream_bytes(data_frames(client_id, payloads)) == payloads.flatten(),
    decreases payloads.len(),
{
    let frames = data_frames(client_id, payloads);
    if payloads.len() == 0 {
        assert(payloads.flatten() =~= Seq::<u8>::empty());
    } else {
        assert(frames.drop_first() =~= data_frames(client_id, payloads.drop_first()));
        lemma_stream_bytes_of_data(client_id, payloads.drop_first());
    }
}

/// The tunnel preserves bytes. Whatever is written to a stream, in whatever
/// pieces, and flushed: the chunks that leave, written on the wire one
/// behind the other, are cut into the same chunks at the other end, none of
/// them is dropped there, and the reader there hands out exactly the bytes
/// that the writer took, in order.
pub proof fn lemma_tunnel_preserves_bytes(client_id: ClientId, writes: Seq<Seq<u8>>)
    ensures
        ({
            let payloads = flushed(run_writes(writes));
            let wire = data_chunks(client_id, payloads).flatten();
            &&& split_frames(wire) == (data_chunks(client_id, payloads), Seq::<u8>::empty())
            &&& chunk_frames(data_chunks(client_id, payloads)) == data_chunks(client_id, payloads)
            &&& dropped_frames(data_chunks(client_id, payloads)) == Seq::<Seq<u8>>::empty()
            &&& forall|i: int|
                0 <= i < payloads.len() ==> is_chunk(#[trigger] data_chunks(client_id, payloads)[i])
                    && frame_of(data_chunks(client_id, payloads)[i]) == data_frames(
                    client_id,
                    payloads,
                )[i]
            &&& stream_bytes(data_frames(client_id, payloads)) == run_writes(writes).accepted
        }),
{
    let payloads = flushed(run_writes(writes));
    lemma_writer_chunking(writes);
    assert(all_fit(payloads)) by {
        assert forall|i: int| 0 <= i < payloads.len() implies (#[trigger] payloads[i]).len()
            <= MAX_PAYLOAD_LENGTH by {
            if i < payloads.len() - 1 {
            } else {
                assert(payloads[i] == payloads.last());
            }
        }
    }
    lemma_split_data_chunks(client_id, payloads);
    lemma_stream_bytes_of_data(client_id, payloads);
    assert forall|i: int| 0 <= i < payloads.len() implies is_chunk(
        #[trigger] data_chunks(client_id, payloads)[i],
    ) && frame_of(data_chunks(client_id, payloads)[i]) == data_frames(client_id, payloads)[i] by {
        lemma_encode_is_frame(client_id, ID_DATA, payloads[i]);
    }
    assert(all_chunks(data_chunks(client_id, payloads)));
    lemma_chunk_frames_all(data_chunks(client_id, payloads));
}

} // verus!
