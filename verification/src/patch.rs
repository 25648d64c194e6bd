//! Patching of fragmented-MP4 media segments.
//!
//! Each run of the transcoder numbers its fragments from the start. To make
//! the segments of successive runs read as one presentation, the sequence
//! number in the movie fragment header of each served segment is replaced
//! by the next number of a counter that the session keeps.
//!
//! A file is a row of boxes. A box begins with its size, as a big-endian
//! 32-bit number that counts the eight bytes of the header, and the four
//! bytes of its type; boxes may hold boxes.

use vstd::prelude::*;
use vstd::string::*;
use crate::error::NightfallError;

verus! {

/// `moof`, the movie fragment box.
pub const MOOF: u32 = 0x6d6f_6f66;

/// `mfhd`, the movie fragment header.
pub const MFHD: u32 = 0x6d66_6864;

/// `traf`, a track fragment.
pub const TRAF: u32 = 0x7472_6166;

/// `tfhd`, the track fragment header.
pub const TFHD: u32 = 0x7466_6864;

/// `tfdt`, the track fragment decode time.
pub const TFDT: u32 = 0x7466_6474;

/// `trun`, the track fragment run.
pub const TRUN: u32 = 0x7472_756e;

/// `moov`, the movie box of an init segment.
pub const MOOV: u32 = 0x6d6f_6f76;

/// The big-endian number in the four bytes at `at`.
pub open spec fn be32(b: Seq<u8>, at: int) -> int {
    b[at] * 0x100_0000 + b[at + 1] * 0x1_0000 + b[at + 2] * 0x100 + b[at + 3]
}

/// The four bytes of `n`, most significant first.
pub open spec fn be_bytes(n: u32) -> Seq<u8> {
    seq![
        (n / 0x100_0000) as u8,
        (n / 0x1_0000 % 0x100) as u8,
        (n / 0x100 % 0x100) as u8,
        (n % 0x100) as u8,
    ]
}

/// A whole box begins at `at` and ends at or before `end`.
pub open spec fn box_fits(b: Seq<u8>, at: int, end: int) -> bool {
    &&& 0 <= at
    &&& end <= b.len()
    &&& at + 8 <= end
    &&& 8 <= be32(b, at)
    &&& at + be32(b, at) <= end
}

/// Where the box at `at` ends.
pub open spec fn box_end(b: Seq<u8>, at: int) -> int {
    at + be32(b, at)
}

/// Where the first box of type `kind` begins, among the boxes that stand
/// in a row from `at` to `end`. The search ends where no whole box follows.
pub open spec fn find_box(b: Seq<u8>, at: int, end: int, kind: u32) -> Option<int>
    decreases end - at,
{
    if box_fits(b, at, end) {
        if be32(b, at + 4) == kind {
            Some(at)
        } else {
            find_box(b, box_end(b, at), end, kind)
        }
    } else {
        None
    }
}

/// How many boxes of type `kind` stand in the row from `at` to `end`.
pub open spec fn count_boxes(b: Seq<u8>, at: int, end: int, kind: u32) -> nat
    decreases end - at,
{
    if box_fits(b, at, end) {
        let here: nat = if be32(b, at + 4) == kind {
            1
        } else {
            0
        };
        here + count_boxes(b, box_end(b, at), end, kind)
    } else {
        0
    }
}

/// The box at `at` holds a box of type `kind`.
pub open spec fn holds(b: Seq<u8>, at: int, kind: u32) -> bool {
    find_box(b, at + 8, box_end(b, at), kind) is Some
}

/// Where the sequence number of a complete fragment stands: in the header
/// of the first movie fragment, provided the fragment holds exactly one
/// track fragment and that one a header, a decode time and a run.
pub open spec fn sequence_offset(b: Seq<u8>) -> Option<int> {
    match find_box(b, 0, b.len() as int, MOOF) {
        Some(moof) => {
            let inner = moof + 8;
            let end = box_end(b, moof);
            match (find_box(b, inner, end, MFHD), find_box(b, inner, end, TRAF)) {
                (Some(mfhd), Some(traf)) => {
                    if be32(b, mfhd) >= 16 && count_boxes(b, inner, end, TRAF) == 1 && holds(
                        b,
                        traf,
                        TFHD,
                    ) && holds(b, traf, TFDT) && holds(b, traf, TRUN) {
                        Some(mfhd + 12)
                    } else {
                        None
                    }
                },
                _ => None,
            }
        },
        None => None,
    }
}

/// `post` is `pre` with the four bytes at `at` replaced by those of `n`.
pub open spec fn stamped(pre: Seq<u8>, post: Seq<u8>, at: int, n: u32) -> bool {
    &&& post.len() == pre.len()
    &&& post.subrange(at, at + 4) == be_bytes(n)
    &&& forall|i: int| 0 <= i < pre.len() && !(at <= i < at + 4) ==> post[i] == pre[i]
}

fn read_be32(b: &Vec<u8>, at: usize) -> (r: u32)
    requires
        at + 4 <= b@.len(),
    ensures
        r == be32(b@, at as int),
{
    let len: usize = b.len();
    assert(at + 4 <= len);
    let b0: u32 = b[at] as u32;
    let b1: u32 = b[at + 1] as u32;
    let b2: u32 = b[at + 2] as u32;
    let b3: u32 = b[at + 3] as u32;
    b0 * 0x100_0000 + b1 * 0x1_0000 + b2 * 0x100 + b3
}

fn write_be32(b: &mut Vec<u8>, at: usize, n: u32)
    requires
        at + 4 <= old(b)@.len(),
    ensures
        stamped(old(b)@, final(b)@, at as int, n),
        be32(final(b)@, at as int) == n,
{
    let len: usize = b.len();
    assert(at + 4 <= len);
    b[at] = (n / 0x100_0000) as u8;
    b[at + 1] = (n / 0x1_0000 % 0x100) as u8;
    b[at + 2] = (n / 0x100 % 0x100) as u8;
    b[at + 3] = (n % 0x100) as u8;
    assert(b@.subrange(at as int, at + 4) =~= be_bytes(n));
}

/// Finds the first box of type `kind` in the row from `from` to `end`.
fn find(b: &Vec<u8>, from: usize, end: usize, kind: u32) -> (r: Option<usize>)
    requires
        from <= end <= b@.len(),
    ensures
        r is Some <==> find_box(b@, from as int, end as int, kind) is Some,
        r is Some ==> r->0 == find_box(b@, from as int, end as int, kind)->0 && box_fits(
            b@,
            r->0 as int,
            end as int,
        ) && from <= r->0,
{
    let mut at: usize = from;
    loop
        invariant
            from <= at <= end <= b@.len(),
            find_box(b@, at as int, end as int, kind) == find_box(b@, from as int, end as int, kind),
        decreases end - at,
    {
        if end - at < 8 {
            return None;
        }
        let size: usize = read_be32(b, at) as usize;
        if size < 8 || size > end - at {
            return None;
        }
        if read_be32(b, at + 4) == kind {
            return Some(at);
        }
        at = at + size;
    }
}

/// Counts the boxes of type `kind` in the row from `from` to `end`.
fn count(b: &Vec<u8>, from: usize, end: usize, kind: u32) -> (r: usize)
    requires
        from <= end <= b@.len(),
    ensures
        r == count_boxes(b@, from as int, end as int, kind),
{
    let mut at: usize = from;
    let mut seen: usize = 0;
    loop
        invariant
            from <= at <= end <= b@.len(),
            seen <= at - from,
            seen + count_boxes(b@, at as int, end as int, kind) == count_boxes(
                b@,
                from as int,
                end as int,
                kind,
            ),
        decreases end - at,
    {
        if end - at < 8 {
            return seen;
        }
        let size: usize = read_be32(b, at) as usize;
        if size < 8 || size > end - at {
            return seen;
        }
        if read_be32(b, at + 4) == kind {
            seen = seen + 1;
        }
        at = at + size;
    }
}

/// Whether the box at `at`, which ends at or before `end`, holds a box of type `kind`.
fn has_child(b: &Vec<u8>, at: usize, end: usize, kind: u32) -> (r: bool)
    requires
        box_fits(b@, at as int, end as int),
    ensures
        r == holds(b@, at as int, kind),
{
    let size: usize = read_be32(b, at) as usize;
    find(b, at + 8, at + size, kind).is_some()
}

/// Finds where the sequence number of the fragment stands, see [`sequence_offset`].
pub fn locate_sequence(b: &Vec<u8>) -> (r: Option<usize>)
    ensures
        r is Some <==> sequence_offset(b@) is Some,
        r is Some ==> r->0 == sequence_offset(b@)->0 && r->0 + 4 <= b@.len(),
{
    let moof = match find(b, 0, b.len(), MOOF) {
        Some(at) => at,
        None => { return None; },
    };
    let inner: usize = moof + 8;
    let end: usize = moof + read_be32(b, moof) as usize;
    let mfhd = match find(b, inner, end, MFHD) {
        Some(at) => at,
        None => { return None; },
    };
    let traf = match find(b, inner, end, TRAF) {
        Some(at) => at,
        None => { return None; },
    };
    if read_be32(b, mfhd) >= 16 && count(b, inner, end, TRAF) == 1 && has_child(b, traf, end, TFHD)
        && has_child(b, traf, end, TFDT) && has_child(b, traf, end, TRUN) {
        Some(mfhd + 12)
    } else {
        None
    }
}

/// Gives the segment in `bytes` the sequence number after `real_segment_in`
/// and returns that number.
///
/// A segment without a complete fragment is refused as partial, and so is
/// nothing else. A counter that cannot go on is an error of its own. A
/// refused segment is left as it was.
pub fn patch_segment(bytes: &mut Vec<u8>, real_segment_in: u32) -> (r: Result<u32, NightfallError>)
    ensures
        sequence_offset(old(bytes)@) is None ==> r is Err && r->Err_0 is PartialSegment,
        sequence_offset(old(bytes)@) is Some && real_segment_in == u32::MAX ==> r is Err
            && r->Err_0 is Io,
        r is Ok <==> sequence_offset(old(bytes)@) is Some && real_segment_in < u32::MAX,
        r is Err ==> final(bytes)@ == old(bytes)@,
        r is Ok ==> r->Ok_0 == real_segment_in + 1 && stamped(
            old(bytes)@,
            final(bytes)@,
            sequence_offset(old(bytes)@)->0,
            r->Ok_0,
        ),
{
    let at = match locate_sequence(bytes) {
        Some(at) => at,
        None => {
            return Err(
                NightfallError::PartialSegment(String::from_str("no complete movie fragment")),
            );
        },
    };
    if real_segment_in == u32::MAX {
        return Err(NightfallError::Io(String::from_str("sequence numbers used up")));
    }
    let next: u32 = real_segment_in + 1;
    write_be32(bytes, at, next);
    Ok(next)
}

/// Where the movie box of an init segment ends.
pub open spec fn movie_end(init: Seq<u8>) -> Option<int> {
    match find_box(init, 0, init.len() as int, MOOV) {
        Some(moov) => Some(box_end(init, moov)),
        None => None,
    }
}

/// The segment with what follows the movie box of the init segment behind it.
pub open spec fn repaired(init: Seq<u8>, segment: Seq<u8>) -> Seq<u8> {
    segment + init.subrange(movie_end(init)->0, init.len() as int)
}

/// Repairs a partial segment from the init segment: what the transcoder
/// wrote behind the movie box of the init segment is moved to the end of
/// the segment, and the segment gets the sequence number after
/// `real_segment_in`, which is returned.
///
/// An init segment without a movie box is an error, a segment that is
/// still no complete fragment is refused as partial, and in both cases, as
/// with a counter that cannot go on, both files are left as they were.
pub fn patch_init_segment(init: &mut Vec<u8>, segment: &mut Vec<u8>, real_segment_in: u32) -> (r:
    Result<u32, NightfallError>)
    requires
        old(init)@.len() + old(segment)@.len() <= usize::MAX,
    ensures
        r is Ok <==> movie_end(old(init)@) is Some && sequence_offset(
            repaired(old(init)@, old(segment)@),
        ) is Some && real_segment_in < u32::MAX,
        movie_end(old(init)@) is None ==> r is Err && r->Err_0 is Io,
        movie_end(old(init)@) is Some && sequence_offset(repaired(old(init)@, old(segment)@))
            is None ==> r is Err && r->Err_0 is PartialSegment,
        r is Err ==> final(init)@ == old(init)@ && final(segment)@ == old(segment)@,
        r is Ok ==> {
            let whole = repaired(old(init)@, old(segment)@);
            &&& r->Ok_0 == real_segment_in + 1
            &&& final(init)@ == old(init)@.subrange(0, movie_end(old(init)@)->0)
            &&& stamped(whole, final(segment)@, sequence_offset(whole)->0, r->Ok_0)
        },
{
    let moov = match find(init, 0, init.len(), MOOV) {
        Some(at) => at,
        None => {
            return Err(NightfallError::Io(String::from_str("init segment without a movie box")));
        },
    };
    let cut: usize = moov + read_be32(init, moov) as usize;
    let before: usize = segment.len();
    let mut i: usize = cut;
    while i < init.len()
        invariant
            cut <= i <= init@.len(),
            init@ == old(init)@,
            before == old(segment)@.len(),
            init@.len() + before <= usize::MAX,
            segment@ == old(segment)@ + init@.subrange(cut as int, i as int),
        decreases init@.len() - i,
    {
        segment.push(init[i]);
        i += 1;
        assert(segment@ =~= old(segment)@ + init@.subrange(cut as int, i as int));
    }
    assert(segment@ == repaired(old(init)@, old(segment)@));
    let found = locate_sequence(segment);
    if found.is_none() || real_segment_in == u32::MAX {
        segment.truncate(before);
        assert(segment@ =~= old(segment)@);
        if found.is_none() {
            return Err(
                NightfallError::PartialSegment(String::from_str("no complete movie fragment")),
            );
        }
        return Err(NightfallError::Io(String::from_str("sequence numbers used up")));
    }
    let at: usize = found.unwrap();
    let next: u32 = real_segment_in + 1;
    write_be32(segment, at, next);
    init.truncate(cut);
    Ok(next)
}


} // verus!
