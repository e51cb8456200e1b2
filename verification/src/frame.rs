//! The framing of what the engine returns: the bytes `HDR`, a header in JSON,
//! one newline, and then the body.

use vstd::prelude::*;
use vstd::slice::*;

verus! {

/// The three bytes that open a frame.
pub open spec fn prefix() -> Seq<u8> {
    seq![72u8, 68u8, 82u8]
}

/// The newline byte.
pub const NEWLINE: u8 = 10;

/// A frame around a header and a body.
pub open spec fn frame(header: Seq<u8>, body: Seq<u8>) -> Seq<u8> {
    prefix() + header + seq![NEWLINE] + body
}

/// Whether bytes are a frame: the prefix, and a newline somewhere.
pub open spec fn framed(bytes: Seq<u8>) -> bool {
    bytes.len() >= 3 && bytes.take(3) == prefix() && bytes.contains(NEWLINE)
}

/// How many bytes stand before the first newline.
pub open spec fn first_newline(bytes: Seq<u8>) -> int
    decreases bytes.len(),
{
    if bytes.len() == 0 || bytes[0] == NEWLINE {
        0
    } else {
        1 + first_newline(bytes.skip(1))
    }
}

/// The header of a frame: what stands between the prefix and the first newline.
pub open spec fn header(bytes: Seq<u8>) -> Seq<u8> {
    bytes.subrange(3, first_newline(bytes))
}

/// The body of a frame: what follows the first newline.
pub open spec fn body(bytes: Seq<u8>) -> Seq<u8> {
    bytes.skip(first_newline(bytes) + 1)
}

/// A frame, taken apart.
pub struct Frame {
    pub header: Vec<u8>,
    pub body: Vec<u8>,
}

/// The index of the first newline.
fn find_newline(bytes: &[u8]) -> (r: Option<usize>)
    ensures
        r is Some <==> bytes@.contains(NEWLINE),
        r matches Some(i) ==> i < bytes@.len() && i == first_newline(bytes@) && bytes@[i as int]
            == NEWLINE && forall|j: int| 0 <= j < i ==> bytes@[j] != NEWLINE,
{
    let mut i: usize = 0;
    while i < bytes.len()
        invariant
            i <= bytes@.len(),
            forall|j: int| 0 <= j < i ==> bytes@[j] != NEWLINE,
        decreases bytes@.len() - i,
    {
        if bytes[i] == NEWLINE {
            proof {
                lemma_first_newline(bytes@, i as int);
            }
            return Some(i);
        }
        i = i + 1;
    }
    None
}

proof fn lemma_first_newline(bytes: Seq<u8>, i: int)
    requires
        0 <= i < bytes.len(),
        bytes[i] == NEWLINE,
        forall|j: int| 0 <= j < i ==> bytes[j] != NEWLINE,
    ensures
        first_newline(bytes) == i,
        bytes.contains(NEWLINE),
    decreases i,
{
    if i > 0 {
        assert(bytes[0] != NEWLINE);
        assert forall|j: int| 0 <= j < i - 1 implies bytes.skip(1)[j] != NEWLINE by {
            assert(bytes.skip(1)[j] == bytes[j + 1]);
        }
        lemma_first_newline(bytes.skip(1), i - 1);
    }
}

/// Takes a frame apart, or says that the bytes are none.
pub fn split_frame(bytes: &[u8]) -> (r: Option<Frame>)
    ensures
        r is Some <==> framed(bytes@),
        r matches Some(f) ==> f.header@ == header(bytes@) && f.body@ == body(bytes@),
        r matches Some(f) ==> bytes@ == frame(f.header@, f.body@) && !f.header@.contains(NEWLINE),
        r is Some <==> bytes@.len() >= 3 && bytes@[0] == 72 && bytes@[1] == 68 && bytes@[2] == 82
            && bytes@.contains(10u8),
        r matches Some(f) ==> bytes@ == seq![72u8, 68u8, 82u8] + f.header@ + seq![10u8] + f.body@
            && !f.header@.contains(10u8),
{
    let newline = find_newline(bytes);
    match newline {
        Some(pos) => {
            if bytes.len() >= 3 && bytes[0] == 72 && bytes[1] == 68 && bytes[2] == 82 {
                assert(bytes@.take(3) =~= prefix());
                let head = slice_subrange(bytes, 3, pos);
                let tail = slice_subrange(bytes, pos + 1, bytes.len());
                assert(bytes@ =~= frame(head@, tail@));
                Some(Frame { header: slice_to_vec(head), body: slice_to_vec(tail) })
            } else {
                assert(bytes@.len() >= 3 ==> bytes@.take(3)[0] == bytes@[0] && bytes@.take(3)[1]
                    == bytes@[1] && bytes@.take(3)[2] == bytes@[2]);
                None
            }
        },
        None => None,
    }
}

/// Taking a frame apart gives back the header and the body that it was put
/// together from, for every header without a newline.
pub proof fn law_frame_round_trip(head: Seq<u8>, rest: Seq<u8>)
    requires
        !head.contains(NEWLINE),
    ensures
        framed(frame(head, rest)),
        header(frame(head, rest)) == head,
        body(frame(head, rest)) == rest,
{
    let bytes = frame(head, rest);
    let pos = 3 + head.len();
    assert(bytes.take(3) =~= prefix());
    assert forall|j: int| 0 <= j < pos implies bytes[j] != NEWLINE by {
        if j >= 3 {
            assert(bytes[j] == head[j - 3]);
        }
    }
    lemma_first_newline(bytes, pos as int);
    assert(header(bytes) =~= head);
    assert(body(bytes) =~= rest);
}

/// Bytes that are a frame are put together again from their parts, and the
/// header holds no newline.
pub proof fn law_frame_parts(bytes: Seq<u8>)
    requires
        framed(bytes),
    ensures
        frame(header(bytes), body(bytes)) == bytes,
        !header(bytes).contains(NEWLINE),
{
    lemma_newline_at(bytes);
    assert(bytes[0] == bytes.take(3)[0] && bytes[1] == bytes.take(3)[1] && bytes[2]
        == bytes.take(3)[2]);
    assert(frame(header(bytes), body(bytes)) =~= bytes);
}

proof fn lemma_newline_at(bytes: Seq<u8>)
    requires
        bytes.contains(NEWLINE),
    ensures
        0 <= first_newline(bytes) < bytes.len(),
        bytes[first_newline(bytes)] == NEWLINE,
        forall|j: int| 0 <= j < first_newline(bytes) ==> bytes[j] != NEWLINE,
    decreases bytes.len(),
{
    if bytes[0] != NEWLINE {
        let k = choose|k: int| 0 <= k < bytes.len() && bytes[k] == NEWLINE;
        assert(bytes.skip(1)[k - 1] == NEWLINE);
        lemma_newline_at(bytes.skip(1));
        assert forall|j: int| 0 <= j < first_newline(bytes) implies bytes[j] != NEWLINE by {
            if j > 0 {
                assert(bytes.skip(1)[j - 1] == bytes[j]);
            }
        }
    }
}

/// The bytes `HDR`, a header without a newline, a newline and any body are a frame
/// of just that header and that body.
pub proof fn law_frame_is_read_as_written(head: Seq<u8>, rest: Seq<u8>)
    requires
        !head.contains(10u8),
    ensures
        framed(seq![72u8, 68u8, 82u8] + head + seq![10u8] + rest),
        header(seq![72u8, 68u8, 82u8] + head + seq![10u8] + rest) == head,
        body(seq![72u8, 68u8, 82u8] + head + seq![10u8] + rest) == rest,
{
    law_frame_round_trip(head, rest);
    assert(frame(head, rest) =~= seq![72u8, 68u8, 82u8] + head + seq![10u8] + rest);
}

/// Bytes are a frame exactly where they open with `HDR` and hold a newline.
pub proof fn law_frames_open_with_the_prefix(bytes: Seq<u8>)
    ensures
        framed(bytes) <==> bytes.len() >= 3 && bytes[0] == 72 && bytes[1] == 68 && bytes[2] == 82
            && bytes.contains(10u8),
{
    if bytes.len() >= 3 {
        assert(bytes.take(3)[0] == bytes[0] && bytes.take(3)[1] == bytes[1] && bytes.take(3)[2]
            == bytes[2]);
        if bytes[0] == 72 && bytes[1] == 68 && bytes[2] == 82 {
            assert(bytes.take(3) =~= prefix());
        }
    }
}

} // verus!
