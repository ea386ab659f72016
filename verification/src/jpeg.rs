//! What the frame header of a JPEG stream says about its samples.
//!
//! A lossless frame stores samples of a precision other than eight bits in
//! two bytes each, while its header is read as announcing one byte for
//! every sample of a frame of several components, and of a frame of one
//! component with fewer than eight bits. A stream whose first frame header
//! is of that kind is not handed to the decoder.

use vstd::prelude::*;

verus! {

/// The stream begins with the start-of-image marker and a further marker.
pub open spec fn is_jpeg(b: Seq<u8>) -> bool {
    b.len() >= 3 && b[0] == 0xFF && b[1] == 0xD8 && b[2] == 0xFF
}

/// The marker code of a frame header.
pub open spec fn is_frame_header(code: u8) -> bool {
    0xC0 <= code <= 0xCF && code != 0xC4 && code != 0xC8 && code != 0xCC
}

/// The marker code of the header of a lossless frame.
pub open spec fn is_lossless(code: u8) -> bool {
    code == 0xC3 || code == 0xC7 || code == 0xCB || code == 0xCF
}

/// The marker code of a segment that is passed over: application data or a
/// comment.
pub open spec fn is_skipped(code: u8) -> bool {
    0xE0 <= code <= 0xEF || code == 0xFE
}

/// A lossless frame of this precision and number of components stores its
/// samples in another size than its header is read to announce.
pub open spec fn sample_size_differs(precision: u8, components: u8) -> bool {
    precision != 8 && !(components == 1 && 9 <= precision <= 16)
}

/// The length that the segment at `pos` gives for itself, its two length
/// bytes included.
pub open spec fn segment_len(b: Seq<u8>, pos: int) -> int {
    b[pos + 2] * 256 + b[pos + 3]
}

/// At `i` stand the ten bytes of a lossless frame header whose samples are
/// stored in another size than announced: marker, length, precision, height,
/// width and number of components.
pub open spec fn misreported_at(b: Seq<u8>, i: int) -> bool {
    &&& 0 <= i
    &&& i + 9 < b.len()
    &&& b[i] == 0xFF
    &&& is_lossless(b[i + 1])
    &&& sample_size_differs(b[i + 4], b[i + 9])
}

/// Such a header stands somewhere at or behind `from`.
pub open spec fn misreported_from(b: Seq<u8>, from: int) -> bool {
    exists|i: int| from <= i && #[trigger] misreported_at(b, i)
}

/// The first frame header at or behind `pos` is such a header. Application
/// data and comments are passed over by their length. Where the bytes at
/// `pos` are anything but a marker with its segment, every place behind
/// `pos` counts as one where the first frame header may stand.
pub open spec fn first_frame_misreported(b: Seq<u8>, pos: int) -> bool
    decreases
            (if pos <= b.len() {
                b.len() - pos
            } else {
                0
            }),
{
    if pos < 0 || pos + 4 > b.len() || b[pos] != 0xFF {
        misreported_from(b, pos)
    } else if is_frame_header(b[pos + 1]) {
        misreported_at(b, pos)
    } else if is_skipped(b[pos + 1]) && segment_len(b, pos) >= 2 {
        first_frame_misreported(b, pos + 2 + segment_len(b, pos))
    } else {
        misreported_from(b, pos)
    }
}

/// The bytes are no JPEG stream, or the samples of its first frame are
/// stored in the size that its header announces.
pub open spec fn samples_fit(b: Seq<u8>) -> bool {
    !is_jpeg(b) || !first_frame_misreported(b, 2)
}

fn misreported_here(buf: &[u8], i: usize) -> (r: bool)
    requires
        i + 9 < buf@.len(),
    ensures
        r == misreported_at(buf@, i as int),
{
    let n = buf.len();
    let code = buf[i + 1];
    let precision = buf[i + 4];
    let components = buf[i + 9];
    buf[i] == 0xFF && (code == 0xC3 || code == 0xC7 || code == 0xCB || code == 0xCF) && precision
        != 8 && !(components == 1 && 9 <= precision && precision <= 16)
}

fn misreported_behind(buf: &[u8], from: usize) -> (r: bool)
    ensures
        r == misreported_from(buf@, from as int),
{
    let n = buf.len();
    let mut i: usize = from;
    while i < n && n - i > 9
        invariant
            from <= i,
            n == buf@.len(),
            forall|j: int| from <= j < i ==> !misreported_at(buf@, j),
        decreases n - i,
    {
        if misreported_here(buf, i) {
            assert(misreported_at(buf@, i as int));
            return true;
        }
        i += 1;
    }
    assert forall|j: int| from <= j implies !(#[trigger] misreported_at(buf@, j)) by {
        if j >= i {
            assert(j + 9 >= n);
        }
    }
    false
}

/// Finds the first frame header of a JPEG stream and tells whether its
/// samples are stored in the size that it announces. Bytes that are no JPEG
/// stream pass.
pub fn check_samples(buf: &[u8]) -> (ok: bool)
    ensures
        ok == samples_fit(buf@),
{
    let n = buf.len();
    if n < 3 || buf[0] != 0xFF || buf[1] != 0xD8 || buf[2] != 0xFF {
        return true;
    }
    let mut pos: usize = 2;
    loop
        invariant
            n == buf@.len(),
            2 <= pos <= n,
            is_jpeg(buf@),
            first_frame_misreported(buf@, 2) == first_frame_misreported(buf@, pos as int),
        decreases n - pos,
    {
        if n - pos < 4 || buf[pos] != 0xFF {
            return !misreported_behind(buf, pos);
        }
        let code = buf[pos + 1];
        if 0xC0 <= code && code <= 0xCF && code != 0xC4 && code != 0xC8 && code != 0xCC {
            if n - pos > 9 {
                return !misreported_here(buf, pos);
            }
            return true;
        }
        let len: usize = (buf[pos + 2] as usize) * 256 + (buf[pos + 3] as usize);
        if !((0xE0 <= code && code <= 0xEF) || code == 0xFE) || len < 2 {
            return !misreported_behind(buf, pos);
        }
        if len + 2 > n - pos {
            proof {
                let next = pos + 2 + len;
                assert(first_frame_misreported(buf@, pos as int) == first_frame_misreported(
                    buf@,
                    next,
                ));
                assert(first_frame_misreported(buf@, next) == misreported_from(buf@, next));
                assert forall|j: int| next <= j implies !(#[trigger] misreported_at(buf@, j)) by {}
            }
            return true;
        }
        pos = pos + 2 + len;
    }
}

} // verus!
