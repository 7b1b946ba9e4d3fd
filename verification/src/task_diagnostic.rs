//! The diagnostic stream of a contained task: one JSON document whose
//! records are appended one by one.

use vstd::prelude::*;

verus! {

/// Why a diagnostic cannot be written.
#[derive(Debug, Clone, Copy, PartialEq, Eq, Structural)]
pub enum DiagnosticFailure {
    RecordCountOverflow,
    RecordTooLarge,
    StreamMissing,
    StepClockRegressed,
    SourceOrderMismatch,
}

impl DiagnosticFailure {
    /// The failure in words.
    pub fn message(self) -> (message: &'static str)
        ensures
            message == match self {
                DiagnosticFailure::RecordCountOverflow => "record count overflow",
                DiagnosticFailure::RecordTooLarge => "task diagnostic record size exceeded",
                DiagnosticFailure::StreamMissing => "task diagnostic stream missing",
                DiagnosticFailure::StepClockRegressed => "step monotonic clock regressed",
                DiagnosticFailure::SourceOrderMismatch => "OCR source order mismatch",
            },
    {
        match self {
            DiagnosticFailure::RecordCountOverflow => "record count overflow",
            DiagnosticFailure::RecordTooLarge => "task diagnostic record size exceeded",
            DiagnosticFailure::StreamMissing => "task diagnostic stream missing",
            DiagnosticFailure::StepClockRegressed => "step monotonic clock regressed",
            DiagnosticFailure::SourceOrderMismatch => "OCR source order mismatch",
        }
    }
}

fn append_bytes(target: &mut Vec<u8>, bytes: &[u8])
    ensures
        final(target)@ == old(target)@ + bytes@,
{
    let ghost start = target@;
    let mut index: usize = 0;
    while index < bytes.len()
        invariant
            index <= bytes.len(),
            target@ == start + bytes@.take(index as int),
        decreases bytes.len() - index,
    {
        target.push(bytes[index]);
        assert(bytes@.take(index + 1) =~= bytes@.take(index as int).push(bytes@[index as int]));
        index += 1;
    }
    assert(bytes@.take(bytes@.len() as int) =~= bytes@);
}

/// Collects one encoded record, at most `limit` bytes of it.
#[derive(Debug)]
pub struct RecordWriter {
    pub limit: usize,
    pub bytes: Vec<u8>,
}

impl RecordWriter {
    pub open spec fn wf(&self) -> bool {
        self.bytes@.len() <= self.limit
    }

    pub fn new(limit: usize) -> (writer: Self)
        ensures
            writer.wf(),
            writer.limit == limit,
            writer.bytes@ == Seq::<u8>::empty(),
    {
        RecordWriter { limit, bytes: Vec::new() }
    }

    /// Takes some bytes, or none of them where they would not fit.
    pub fn write(&mut self, bytes: &[u8]) -> (result: Result<usize, DiagnosticFailure>)
        requires
            old(self).wf(),
        ensures
            final(self).wf(),
            final(self).limit == old(self).limit,
            old(self).bytes@.len() + bytes@.len() <= old(self).limit ==> result == Ok::<
                _,
                DiagnosticFailure,
            >(bytes@.len() as usize) && final(self).bytes@ == old(self).bytes@ + bytes@,
            old(self).bytes@.len() + bytes@.len() > old(self).limit ==> result == Err::<usize, _>(
                DiagnosticFailure::RecordTooLarge,
            ) && final(self).bytes@ == old(self).bytes@,
    {
        if bytes.len() > self.limit - self.bytes.len() {
            return Err(DiagnosticFailure::RecordTooLarge);
        }
        append_bytes(&mut self.bytes, bytes);
        Ok(bytes.len())
    }
}

/// What opens the list of records: `,"records":[` and a line feed.
pub open spec fn records_opening() -> Seq<u8> {
    seq![44u8, 34, 114, 101, 99, 111, 114, 100, 115, 34, 58, 91, 10]
}

/// What closes the document: `]}` and a line feed.
pub open spec fn records_closing() -> Seq<u8> {
    seq![93u8, 125, 10]
}

/// Records on lines of their own, a comma before each but the first.
pub open spec fn record_lines(records: Seq<Seq<u8>>) -> Seq<u8>
    decreases records.len(),
{
    if records.len() == 0 {
        Seq::empty()
    } else {
        let line = records.last().push(10);
        record_lines(records.drop_last()) + if records.len() == 1 {
            line
        } else {
            seq![44u8] + line
        }
    }
}

/// The document so far: the header without its closing brace, then the
/// records.
pub open spec fn open_document(header: Seq<u8>, records: Seq<Seq<u8>>) -> Seq<u8> {
    header.drop_last() + records_opening() + record_lines(records)
}

/// A diagnostic stream.
#[derive(Debug)]
pub struct DiagnosticStream {
    pub bytes: Vec<u8>,
    pub records: u64,
}

/// The stream holds a header and some records.
pub open spec fn stream_holds(
    stream: DiagnosticStream,
    header: Seq<u8>,
    records: Seq<Seq<u8>>,
) -> bool {
    stream.bytes@ == open_document(header, records) && stream.records == records.len()
}

impl DiagnosticStream {
    /// Begins a document with an encoded header object.
    pub fn begin(header: &Vec<u8>) -> (stream: Self)
        requires
            header@.len() > 0,
        ensures
            stream_holds(stream, header@, Seq::empty()),
    {
        let mut bytes: Vec<u8> = Vec::new();
        let mut index: usize = 0;
        while index < header.len() - 1
            invariant
                index <= header.len() - 1,
                header@.len() > 0,
                bytes@ == header@.take(index as int),
            decreases header.len() - index,
        {
            bytes.push(header[index]);
            assert(header@.take(index + 1) =~= header@.take(index as int).push(
                header@[index as int],
            ));
            index += 1;
        }
        assert(header@.take(index as int) =~= header@.drop_last());
        bytes.push(44);
        bytes.push(34);
        bytes.push(114);
        bytes.push(101);
        bytes.push(99);
        bytes.push(111);
        bytes.push(114);
        bytes.push(100);
        bytes.push(115);
        bytes.push(34);
        bytes.push(58);
        bytes.push(91);
        bytes.push(10);
        assert(bytes@ =~= open_document(header@, Seq::empty()));
        DiagnosticStream { bytes, records: 0 }
    }

    /// The index of the next record.
    pub fn next_index(&self) -> (result: Result<u64, DiagnosticFailure>)
        ensures
            self.records < u64::MAX ==> result == Ok::<_, DiagnosticFailure>(
                (self.records + 1) as u64,
            ),
            self.records == u64::MAX ==> result == Err::<u64, _>(
                DiagnosticFailure::RecordCountOverflow,
            ),
    {
        match self.records.checked_add(1) {
            Some(index) => Ok(index),
            None => Err(DiagnosticFailure::RecordCountOverflow),
        }
    }

    /// Appends a record that was encoded under the next index.
    pub fn append(&mut self, record: &[u8])
        requires
            old(self).records < u64::MAX,
        ensures
            final(self).records == old(self).records + 1,
            final(self).bytes@ == old(self).bytes@ + if old(self).records == 0 {
                record@.push(10)
            } else {
                seq![44u8] + record@.push(10)
            },
    {
        let ghost start = self.bytes@;
        if self.records != 0 {
            self.bytes.push(44);
        }
        append_bytes(&mut self.bytes, record);
        self.bytes.push(10);
        proof {
            if self.records == 0 {
                assert(self.bytes@ =~= start + record@.push(10));
            } else {
                assert(self.bytes@ =~= start + (seq![44u8] + record@.push(10)));
            }
        }
        self.records = self.records + 1;
    }

    /// Ends the document.
    pub fn seal(self) -> (bytes: Vec<u8>)
        ensures
            bytes@ == self.bytes@ + records_closing(),
    {
        let mut bytes = self.bytes;
        bytes.push(93);
        bytes.push(125);
        bytes.push(10);
        assert(bytes@ =~= self.bytes@ + records_closing());
        bytes
    }
}

/// Appending a record to a stream that holds some records gives a stream that
/// holds them and it.
pub proof fn law_append_extends_document(
    before: DiagnosticStream,
    after: DiagnosticStream,
    header: Seq<u8>,
    records: Seq<Seq<u8>>,
    record: Seq<u8>,
)
    requires
        stream_holds(before, header, records),
        after.records == before.records + 1,
        after.bytes@ == before.bytes@ + if before.records == 0 {
            record.push(10)
        } else {
            seq![44u8] + record.push(10)
        },
    ensures
        stream_holds(after, header, records.push(record)),
{
    let longer = records.push(record);
    assert(longer.drop_last() =~= records);
    assert(longer.last() == record);
    assert(after.bytes@ =~= open_document(header, longer));
}

/// A step that a task is in.
#[derive(Debug, Clone, Copy, PartialEq, Eq, Structural)]
pub struct DiagnosticStep {
    pub index: u32,
    pub action_id: u128,
    pub started_ms: u64,
}

/// What is recorded when a step ends.
#[derive(Debug, Clone, Copy, PartialEq, Eq, Structural)]
pub struct StepElapsed {
    pub step_index: u32,
    pub started_monotonic_ms: u64,
    pub ended_monotonic_ms: u64,
    pub elapsed_ms: u64,
    pub completed: bool,
}

/// Ends the current step, if there is one.
pub fn end_diagnostic_step(step: Option<DiagnosticStep>, now: u64, completed: bool) -> (result:
    Result<Option<StepElapsed>, DiagnosticFailure>)
    ensures
        match step {
            None => result == Ok::<_, DiagnosticFailure>(None::<StepElapsed>),
            Some(step) => if now < step.started_ms {
                result == Err::<Option<StepElapsed>, _>(DiagnosticFailure::StepClockRegressed)
            } else {
                result == Ok::<_, DiagnosticFailure>(
                    Some(
                        StepElapsed {
                            step_index: step.index,
                            started_monotonic_ms: step.started_ms,
                            ended_monotonic_ms: now,
                            elapsed_ms: (now - step.started_ms) as u64,
                            completed,
                        },
                    ),
                )
            },
        },
{
    match step {
        None => Ok(None),
        Some(step) => {
            if now < step.started_ms {
                return Err(DiagnosticFailure::StepClockRegressed);
            }
            Ok(
                Some(
                    StepElapsed {
                        step_index: step.index,
                        started_monotonic_ms: step.started_ms,
                        ended_monotonic_ms: now,
                        elapsed_ms: now - step.started_ms,
                        completed,
                    },
                ),
            )
        },
    }
}

/// `listing` holds each rank once, by increasing source position, equal ones
/// by rank.
pub open spec fn in_source_order(listing: Seq<(usize, usize)>, sources: Seq<usize>) -> bool {
    &&& listing.len() == sources.len()
    &&& forall|i: int|
        0 <= i < listing.len() ==> (#[trigger] listing[i]).0 < sources.len() && listing[i].1
            == sources[listing[i].0 as int]
    &&& forall|i: int, j: int|
        0 <= i < j < listing.len() ==> (#[trigger] listing[i]).1 < (#[trigger] listing[j]).1 || (
        listing[i].1 == listing[j].1 && listing[i].0 < listing[j].0)
}

/// How many entries at the head of a listing come from a source position up
/// to the given one.
pub open spec fn head_upto(listing: Seq<(usize, usize)>, source: usize) -> int
    decreases listing.len(),
{
    if listing.len() == 0 || listing[0].1 > source {
        0
    } else {
        1 + head_upto(listing.skip(1), source)
    }
}

/// The ranks with their source positions, in the order of the sources.
pub open spec fn source_listing(sources: Seq<usize>) -> Seq<(usize, usize)>
    decreases sources.len(),
{
    if sources.len() == 0 {
        Seq::empty()
    } else {
        let before = source_listing(sources.drop_last());
        let source = sources.last();
        before.insert(head_upto(before, source), ((sources.len() - 1) as usize, source))
    }
}

proof fn lemma_head_upto(listing: Seq<(usize, usize)>, source: usize, position: int)
    requires
        0 <= position <= listing.len(),
        forall|i: int| 0 <= i < position ==> (#[trigger] listing[i]).1 <= source,
        position < listing.len() ==> listing[position].1 > source,
    ensures
        head_upto(listing, source) == position,
    decreases listing.len(),
{
    if position > 0 {
        assert(listing[0].1 <= source);
        let rest = listing.skip(1);
        assert forall|i: int| 0 <= i < position - 1 implies (#[trigger] rest[i]).1 <= source by {
            assert(rest[i] == listing[i + 1]);
        }
        lemma_head_upto(rest, source, position - 1);
    }
}

/// Lists ranks with their source positions, in the order of the sources: how
/// the labels of a result are written down.
pub fn source_order(sources: &Vec<usize>) -> (listing: Vec<(usize, usize)>)
    ensures
        listing@ == source_listing(sources@),
        in_source_order(listing@, sources@),
{
    let mut listing: Vec<(usize, usize)> = Vec::new();
    let mut rank: usize = 0;
    while rank < sources.len()
        invariant
            rank <= sources.len(),
            listing@.len() == rank,
            listing@ == source_listing(sources@.take(rank as int)),
            in_source_order(listing@, sources@.take(rank as int)),
        decreases sources.len() - rank,
    {
        let source: usize = sources[rank];
        let mut position: usize = 0;
        while position < listing.len() && listing[position].1 <= source
            invariant
                position <= listing.len(),
                rank < sources.len(),
                listing@.len() == rank,
                listing@ == source_listing(sources@.take(rank as int)),
                in_source_order(listing@, sources@.take(rank as int)),
                forall|i: int| 0 <= i < position ==> (#[trigger] listing@[i]).1 <= source,
            decreases listing.len() - position,
        {
            position += 1;
        }
        let ghost before = listing@;
        listing.insert(position, (rank, source));
        proof {
            let p = position as int;
            let after = listing@;
            let taken = sources@.take(rank + 1);
            assert(after =~= before.insert(p, (rank, source)));
            assert(taken.drop_last() =~= sources@.take(rank as int));
            lemma_head_upto(before, source, p);
            assert forall|i: int| 0 <= i < after.len() implies (#[trigger] after[i]).0 < taken.len()
                && after[i].1 == taken[after[i].0 as int] by {
                if i < p {
                    assert(after[i] == before[i]);
                } else if i > p {
                    assert(after[i] == before[i - 1]);
                }
            }
            assert forall|i: int, j: int| 0 <= i < j < after.len() implies (#[trigger] after[i]).1
                < (#[trigger] after[j]).1 || (after[i].1 == after[j].1 && after[i].0
                < after[j].0) by {
                if j < p {
                    assert(after[i] == before[i] && after[j] == before[j]);
                } else if j == p {
                    assert(after[i] == before[i]);
                    assert(before[i].0 < sources@.take(rank as int).len());
                } else if i < p {
                    assert(after[i] == before[i] && after[j] == before[j - 1]);
                } else if i == p {
                    assert(after[j] == before[j - 1]);
                    assert(before[p].1 > source);
                    if j - 1 > p {
                        assert(before[p].1 <= before[j - 1].1);
                    }
                } else {
                    assert(after[i] == before[i - 1] && after[j] == before[j - 1]);
                }
            }
        }
        rank += 1;
    }
    assert(sources@.take(sources@.len() as int) =~= sources@);
    listing
}

/// The order in which the blocks of a recognised text are written down.
pub fn ocr_block_order(blocks: usize, sources: &Vec<usize>) -> (result: Result<
    Vec<(usize, usize)>,
    DiagnosticFailure,
>)
    ensures
        blocks != sources@.len() ==> (result matches Err(failure) && failure
            == DiagnosticFailure::SourceOrderMismatch),
        blocks == sources@.len() ==> (result matches Ok(listing) && listing@ == source_listing(
            sources@,
        ) && in_source_order(listing@, sources@)),
{
    if blocks != sources.len() {
        return Err(DiagnosticFailure::SourceOrderMismatch);
    }
    Ok(source_order(sources))
}

/// Records are listed by where they came from: for each two, the one with the
/// smaller source comes first, and of equal sources the earlier one.
pub proof fn law_listing_keeps_the_sources_order(sources: Seq<usize>, left: int, right: int)
    requires
        0 <= left < right < sources.len() <= usize::MAX,
    ensures
        source_listing(sources).len() == sources.len(),
        source_listing(sources)[left].1 <= source_listing(sources)[right].1,
        source_listing(sources)[left].1 == source_listing(sources)[right].1 ==> source_listing(
            sources,
        )[left].0 < source_listing(sources)[right].0,
        source_listing(sources)[left].1 == sources[source_listing(sources)[left].0 as int],
{
    lemma_source_listing(sources);
}

proof fn lemma_head_is_upto(listing: Seq<(usize, usize)>, source: usize)
    ensures
        0 <= head_upto(listing, source) <= listing.len(),
        forall|i: int|
            0 <= i < head_upto(listing, source) ==> (#[trigger] listing[i]).1 <= source,
        head_upto(listing, source) < listing.len() ==> listing[head_upto(listing, source)].1
            > source,
    decreases listing.len(),
{
    if listing.len() > 0 && listing[0].1 <= source {
        let rest = listing.skip(1);
        lemma_head_is_upto(rest, source);
        assert forall|i: int| 0 <= i < head_upto(listing, source) implies (
        #[trigger] listing[i]).1 <= source by {
            if i > 0 {
                assert(rest[i - 1] == listing[i]);
            }
        }
    }
}

proof fn lemma_source_listing(sources: Seq<usize>)
    requires
        sources.len() <= usize::MAX,
    ensures
        in_source_order(source_listing(sources), sources),
    decreases sources.len(),
{
    if sources.len() > 0 {
        let before = source_listing(sources.drop_last());
        let source = sources.last();
        let item = ((sources.len() - 1) as usize, source);
        let listing = source_listing(sources);
        let at = head_upto(before, source);
        lemma_source_listing(sources.drop_last());
        lemma_head_is_upto(before, source);
        assert(listing == before.insert(at, item));
        assert forall|i: int| 0 <= i < listing.len() implies #[trigger] listing[i] == (if i < at {
            before[i]
        } else if i == at {
            item
        } else {
            before[i - 1]
        }) by {}
        assert forall|i: int| at <= i < before.len() implies (#[trigger] before[i]).1 > source by {
            if i > at {
                assert(before[at].1 <= before[i].1);
            }
        }
        assert forall|i: int| 0 <= i < before.len() implies (#[trigger] before[i]).0
            < sources.len() - 1 && before[i].1 == sources[before[i].0 as int] by {
            assert(sources.drop_last()[before[i].0 as int] == sources[before[i].0 as int]);
        }
        assert forall|i: int| 0 <= i < listing.len() implies (#[trigger] listing[i]).0
            < sources.len() && listing[i].1 == sources[listing[i].0 as int] by {}
        assert forall|i: int, j: int| 0 <= i < j < listing.len() implies (
        #[trigger] listing[i]).1 < (#[trigger] listing[j]).1 || (listing[i].1 == listing[j].1
            && listing[i].0 < listing[j].0) by {
            if i < at && j < at {
                assert(before[i].1 < before[j].1 || before[i].0 < before[j].0);
            } else if i < at && j > at {
                assert(before[i].1 < before[j - 1].1 || before[i].0 < before[j - 1].0);
            } else if i > at {
                assert(before[i - 1].1 < before[j - 1].1 || before[i - 1].0 < before[j - 1].0);
            }
        }
    }
}

/// A document holds one line per record, and a comma before each but the first.
pub proof fn law_records_stand_in_lines(records: Seq<Seq<u8>>, record: Seq<u8>)
    ensures
        record_lines(Seq::empty()) == Seq::<u8>::empty(),
        records.len() == 0 ==> record_lines(records.push(record)) == record.push(10),
        records.len() > 0 ==> record_lines(records.push(record)) == record_lines(records) + (
        seq![44u8] + record.push(10)),
{
    assert(records.push(record).drop_last() =~= records);
    if records.len() == 0 {
        assert(record_lines(records) == Seq::<u8>::empty());
        assert(records.push(record).last() == record);
        assert(Seq::<u8>::empty() + record.push(10) =~= record.push(10));
    }
}

} // verus!
