//! The plan of an FX2 firmware upload.

use vstd::prelude::*;
use vstd::string::*;

use crate::cli::AppError;
use crate::error::ErrorView;

use super::resource::{decode_hex, decoded_hex, protocol, FirmwareSegment};

verus! {

broadcast use vstd::string::group_string_axioms;

/// The vendor request that writes Cypress RAM.
pub const CYPRESS_RAM: u8 = 0xa0;

/// The address of the Cypress CPU control register.
pub const CYPRESS_CPUCS: u16 = 0xe600;

/// The most bytes that one RAM write carries.
pub const RAM_CHUNK: usize = 4096;

/// One write to Cypress RAM.
#[derive(Debug)]
pub struct RamWrite {
    pub address: u16,
    pub data: Vec<u8>,
}

/// One write to Cypress RAM, by views.
#[verifier::ext_equal]
pub struct RamWriteView {
    pub address: u16,
    pub data: Seq<u8>,
}

impl DeepView for RamWrite {
    type V = RamWriteView;

    open spec fn deep_view(&self) -> RamWriteView {
        RamWriteView { address: self.address, data: self.data@ }
    }
}

/// How many RAM writes carry `length` bytes.
pub open spec fn chunk_count(length: nat) -> nat {
    (length + RAM_CHUNK - 1) as nat / RAM_CHUNK as nat
}

/// The bytes of a RAM write: the next ones, as many as one write carries.
pub open spec fn chunk(data: Seq<u8>, i: int) -> Seq<u8> {
    data.subrange(
        i * RAM_CHUNK,
        if (i + 1) * RAM_CHUNK <= data.len() {
            (i + 1) * RAM_CHUNK
        } else {
            data.len() as int
        },
    )
}

/// Where a RAM write of a segment goes: addresses wrap at the end of the address space.
pub open spec fn chunk_address(address: u16, i: int) -> u16 {
    ((address + i * RAM_CHUNK) % 0x1_0000) as u16
}

/// A segment is too large where an offset into it needs more than sixteen bits.
pub open spec fn segment_too_large(data: Seq<u8>) -> bool {
    chunk_count(data.len()) > 16
}

/// The RAM writes of a segment: those of its first sixteen chunks.
pub open spec fn segment_writes(address: u16, data: Seq<u8>) -> Seq<RamWriteView> {
    Seq::new(
        if segment_too_large(data) {
            16
        } else {
            chunk_count(data.len())
        },
        |i: int| RamWriteView { address: chunk_address(address, i), data: chunk(data, i) },
    )
}

/// The RAM writes of segments up to the first that cannot be written whole, and why that one
/// cannot.
pub open spec fn planned(segments: Seq<FirmwareSegment>) -> (Seq<RamWriteView>, Option<ErrorView>)
    decreases segments.len(),
{
    if segments.len() == 0 {
        (Seq::empty(), None)
    } else {
        let (writes, failure) = planned(segments.drop_last());
        let segment = segments.last();
        match failure {
            Some(error) => (writes, Some(error)),
            None => match decoded_hex(segment.data_hex@) {
                Err(error) => (writes, Some(error)),
                Ok(data) => (
                    writes + segment_writes(segment.address, data),
                    if segment_too_large(data) {
                        Some(protocol("FX2 firmware segment is too large"@))
                    } else {
                        None
                    },
                ),
            },
        }
    }
}

/// The upload that holds the CPU in reset while it writes the segments: all RAM writes up to
/// a failure, or all of them and the release of the CPU.
pub open spec fn upload(segments: Seq<FirmwareSegment>) -> (Seq<RamWriteView>, Option<ErrorView>) {
    let (writes, failure) = planned(segments);
    let halt = RamWriteView { address: CYPRESS_CPUCS, data: seq![1u8] };
    let run = RamWriteView { address: CYPRESS_CPUCS, data: seq![0u8] };
    match failure {
        Some(error) => (seq![halt] + writes, Some(error)),
        None => ((seq![halt] + writes).push(run), None),
    }
}

/// The RAM writes of an upload, and the error that follows them where the firmware cannot be
/// written whole.
#[derive(Debug)]
pub struct UploadPlan {
    pub writes: Vec<RamWrite>,
    pub failure: Option<AppError>,
}

/// An optional error by its view.
pub open spec fn failure_view(failure: Option<AppError>) -> Option<ErrorView> {
    match failure {
        Some(error) => Some(error.deep_view()),
        None => None,
    }
}

/// Whether a plan is the upload of the segments.
pub open spec fn plans(plan: UploadPlan, segments: Seq<FirmwareSegment>) -> bool {
    (plan.writes.deep_view(), failure_view(plan.failure)) == upload(segments)
}

/// Adds the RAM writes of a segment, and tells whether all of it was written.
fn write_segment(writes: &mut Vec<RamWrite>, address: u16, data: &[u8]) -> (whole: bool)
    ensures
        final(writes).deep_view() == old(writes).deep_view() + segment_writes(address, data@),
        whole == !segment_too_large(data@),
{
    let ghost before = writes.deep_view();
    let ghost all = segment_writes(address, data@);
    let mut at: usize = 0;
    let mut count: usize = 0;
    assert(writes.deep_view() =~= before + all.take(0));
    while at < data.len()
        invariant
            count <= 16,
            at == if count * 4096 <= data@.len() {
                count * 4096
            } else {
                data@.len() as int
            },
            count <= chunk_count(data@.len()),
            at < data@.len() ==> at == count * 4096,
            all == segment_writes(address, data@),
            before == old(writes).deep_view(),
            writes.deep_view() == before + all.take(count as int),
        decreases data@.len() - at,
    {
        if count == 16 {
            assert(segment_too_large(data@));
            assert(all.take(16) =~= all);
            return false;
        }
        let end: usize = if data.len() - at > RAM_CHUNK {
            at + RAM_CHUNK
        } else {
            data.len()
        };
        let offset: u16 = (count * 4096) as u16;
        let bytes = vstd::slice::slice_to_vec(vstd::slice::slice_subrange(data, at, end));
        let ghost previous = writes.deep_view();
        assert(bytes@ =~= chunk(data@, count as int));
        let target: u16 = address.wrapping_add(offset);
        writes.push(RamWrite { address: target, data: bytes });
        assert(writes@.last().deep_view() == all[count as int]);
        assert(writes.deep_view() =~= previous.push(all[count as int]));
        assert(all.take(count as int).push(all[count as int]) =~= all.take(count + 1));
        assert(writes.deep_view() =~= before + all.take(count + 1));
        at = end;
        count = count + 1;
    }
    assert(all.take(count as int) =~= all);
    true
}

/// Plans the upload of the segments.
pub fn plan_upload(segments: &Vec<FirmwareSegment>) -> (plan: UploadPlan)
    ensures
        plans(plan, segments@),
{
    let mut writes: Vec<RamWrite> = Vec::new();
    let halt: Vec<u8> = vec![1];
    let run: Vec<u8> = vec![0];
    assert(halt@ =~= seq![1u8] && run@ =~= seq![0u8]);
    writes.push(RamWrite { address: CYPRESS_CPUCS, data: halt });
    let ghost first = RamWriteView { address: CYPRESS_CPUCS, data: seq![1u8] };
    assert(writes.deep_view() =~= seq![first] + Seq::empty());
    let mut i: usize = 0;
    assert(segments@.take(0) =~= Seq::empty());
    while i < segments.len()
        invariant
            i <= segments@.len(),
            writes.deep_view() == seq![first] + planned(segments@.take(i as int)).0,
            planned(segments@.take(i as int)).1 is None,
            first == (RamWriteView { address: CYPRESS_CPUCS, data: seq![1u8] }),
        decreases segments@.len() - i,
    {
        let segment = &segments[i];
        proof {
            assert(segments@.take(i + 1).drop_last() =~= segments@.take(i as int));
            assert(segments@.take(i + 1).last() == *segment);
        }
        match decode_hex(&segment.data_hex) {
            Err(error) => {
                proof {
                    lemma_failure_is_final(segments@, i + 1);
                }
                return UploadPlan { writes, failure: Some(error) };
            },
            Ok(data) => {
                let ghost before = planned(segments@.take(i as int)).0;
                let whole = write_segment(&mut writes, segment.address, data.as_slice());
                assert(seq![first] + before + segment_writes(segment.address, data@) =~= seq![first]
                    + (before + segment_writes(segment.address, data@)));
                if !whole {
                    proof {
                        lemma_failure_is_final(segments@, i + 1);
                    }
                    return UploadPlan {
                        writes,
                        failure: Some(
                            AppError::Protocol("FX2 firmware segment is too large".to_owned()),
                        ),
                    };
                }
            },
        }
        i = i + 1;
    }
    assert(segments@.take(i as int) =~= segments@);
    let ghost before = writes.deep_view();
    writes.push(RamWrite { address: CYPRESS_CPUCS, data: run });
    assert(writes.deep_view() =~= before.push(
        RamWriteView { address: CYPRESS_CPUCS, data: seq![0u8] },
    ));
    UploadPlan { writes, failure: None }
}

/// What follows a segment that cannot be written is not written.
proof fn lemma_failure_is_final(segments: Seq<FirmwareSegment>, count: int)
    requires
        0 <= count <= segments.len(),
        planned(segments.take(count)).1 is Some,
    ensures
        planned(segments) == planned(segments.take(count)),
    decreases segments.len() - count,
{
    if count < segments.len() {
        assert(segments.take(count + 1).drop_last() =~= segments.take(count));
        lemma_failure_is_final(segments, count + 1);
    } else {
        assert(segments.take(count) =~= segments);
    }
}

/// The data of RAM writes, one behind the other.
pub open spec fn written(writes: Seq<RamWriteView>) -> Seq<u8>
    decreases writes.len(),
{
    if writes.len() == 0 {
        Seq::empty()
    } else {
        written(writes.drop_last()) + writes.last().data
    }
}

/// A segment that fits is written whole and in order: its RAM writes carry exactly its bytes,
/// and each goes where the one before it ends.
pub proof fn segments_are_written_whole(address: u16, data: Seq<u8>)
    requires
        !segment_too_large(data),
    ensures
        written(segment_writes(address, data)) == data,
        forall|i: int|
            0 <= i < segment_writes(address, data).len() ==> (
            #[trigger] segment_writes(address, data)[i]).address == (address + i * RAM_CHUNK)
                % 0x1_0000 && 1 <= segment_writes(address, data)[i].data.len() <= RAM_CHUNK,
{
    let writes = segment_writes(address, data);
    lemma_written(address, data, writes.len() as int);
    assert(writes.take(writes.len() as int) =~= writes);
    assert(data.take(data.len() as int) =~= data);
}

/// The CPU is held in reset before anything is written, and is released only behind all of
/// the firmware.
pub proof fn uploads_hold_the_cpu_in_reset(segments: Seq<FirmwareSegment>)
    ensures
        upload(segments).0.len() >= 1,
        upload(segments).0[0] == (RamWriteView { address: CYPRESS_CPUCS, data: seq![1u8] }),
        upload(segments).1 is None ==> {
            let writes = upload(segments).0;
            &&& writes.len() >= 2
            &&& writes.last() == (RamWriteView { address: CYPRESS_CPUCS, data: seq![0u8] })
            &&& writes.subrange(1, writes.len() - 1) == planned(segments).0
        },
        upload(segments).1 is Some ==> upload(segments).0.skip(1) == planned(segments).0,
{
    let (writes, failure) = planned(segments);
    let all = upload(segments).0;
    if failure is None {
        assert(all.subrange(1, all.len() - 1) =~= writes);
    } else {
        assert(all.skip(1) =~= writes);
    }
}

/// Segments are planned one behind the other: the writes of a firmware are those of its first
/// segments and then those of the others, up to a segment that cannot be written whole.
pub proof fn plans_join(first: Seq<FirmwareSegment>, second: Seq<FirmwareSegment>)
    ensures
        planned(first).1 is None ==> planned(first + second) == (
            planned(first).0 + planned(second).0,
            planned(second).1,
        ),
        planned(first).1 is Some ==> planned(first + second) == planned(first),
    decreases second.len(),
{
    let whole = first + second;
    if second.len() == 0 {
        assert(whole =~= first);
        assert(planned(first).0 + planned(second).0 =~= planned(first).0);
    } else {
        let rest = second.drop_last();
        assert(whole.drop_last() =~= first + rest);
        plans_join(first, rest);
        if planned(first).1 is None {
            assert(planned(whole).0 =~= planned(first).0 + planned(second).0);
        }
    }
}

/// One segment of at most 65536 bytes is planned whole: its writes carry its bytes in order, all
/// but the last exactly 4096 of them and the last at least one, and each goes to the address where
/// the one before it ends. Of a larger one the first 65536 bytes are planned, and then it fails; of
/// one that is no hexadecimal text nothing is.
pub proof fn one_segment_is_planned(segment: FirmwareSegment)
    ensures
        ({
            let (writes, failure) = planned(seq![segment]);
            match decoded_hex(segment.data_hex@) {
                Err(error) => writes.len() == 0 && failure == Some(error),
                Ok(data) => {
                    &&& failure is None <==> data.len() <= 65_536
                    &&& written(writes) == (if data.len() <= 65_536 {
                        data
                    } else {
                        data.take(65_536)
                    })
                    &&& forall|i: int|
                        0 <= i < writes.len() ==> (#[trigger] writes[i]).address == (
                        segment.address + i * 4096) % 0x1_0000 && 1 <= writes[i].data.len()
                            <= 4096 && (i < writes.len() - 1 ==> writes[i].data.len() == 4096)
                },
            }
        }),
{
    let one = seq![segment];
    assert(one.drop_last() =~= Seq::empty());
    let (writes, failure) = planned(one);
    assert(planned(one.drop_last()) == (Seq::<RamWriteView>::empty(), None::<ErrorView>));
    if let Ok(data) = decoded_hex(segment.data_hex@) {
        let of = segment_writes(segment.address, data);
        assert(writes =~= of);
        assert(chunk_count(data.len()) > 16 <==> data.len() > 65_536);
        lemma_written(segment.address, data, of.len() as int);
        assert(of.take(of.len() as int) =~= of);
        if data.len() <= 65_536 {
            assert(data.take(data.len() as int) =~= data);
        }
    }
}

proof fn lemma_written(address: u16, data: Seq<u8>, count: int)
    requires
        0 <= count <= segment_writes(address, data).len(),
    ensures
        written(segment_writes(address, data).take(count)) == data.take(
            if count * RAM_CHUNK <= data.len() {
                count * RAM_CHUNK
            } else {
                data.len() as int
            },
        ),
    decreases count,
{
    let writes = segment_writes(address, data);
    if count == 0 {
        assert(writes.take(0) =~= Seq::empty());
        assert(data.take(0) =~= Seq::empty());
    } else {
        lemma_written(address, data, count - 1);
        assert(writes.take(count).drop_last() =~= writes.take(count - 1));
        assert(writes.take(count).last().data == chunk(data, count - 1));
        assert(written(writes.take(count)) =~= data.take(
            if count * RAM_CHUNK <= data.len() {
                count * RAM_CHUNK
            } else {
                data.len() as int
            },
        ));
    }
}

}
