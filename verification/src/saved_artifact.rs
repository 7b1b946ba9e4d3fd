//! Recognition on a saved artifact: what proves that an artifact in another
//! state root is a captured frame, and the budgets of reading it.

use vstd::prelude::*;

use crate::error::{request_error, RuntimeErrorCode, RuntimeHostError, RuntimeHostResult};
use crate::text::same_text;

verus! {

/// The bytes of artifacts that one request may verify.
pub const MAX_VERIFIED_SOURCE_BYTES: u64 = 4_294_967_296;

/// A refusal of the request.
pub open spec fn source_refusal(code: &'static str) -> RuntimeHostError {
    request_error(code, "recognize_artifact", RuntimeErrorCode::InvalidRequest)
}

pub fn source_error(code: &'static str) -> (error: RuntimeHostError)
    ensures
        error == source_refusal(code),
{
    RuntimeHostError::request(code, "recognize_artifact", RuntimeErrorCode::InvalidRequest)
}

/// An ASCII letter in lower case, any other byte as it is.
pub open spec fn ascii_lower(byte: u8) -> u8 {
    if 65 <= byte <= 90 {
        (byte + 32) as u8
    } else {
        byte
    }
}

fn lower(byte: u8) -> (lowered: u8)
    ensures
        lowered == ascii_lower(byte),
{
    if 65 <= byte && byte <= 90 {
        byte + 32
    } else {
        byte
    }
}

/// Two canonical paths name one directory. On a system without case in its
/// paths, ASCII case does not count.
pub open spec fn same_path(left: Seq<u8>, right: Seq<u8>, ignore_case: bool) -> bool {
    &&& left.len() == right.len()
    &&& forall|i: int|
        0 <= i < left.len() ==> if ignore_case {
            ascii_lower(#[trigger] left[i]) == ascii_lower(right[i])
        } else {
            left[i] == right[i]
        }
}

pub fn same_root(left: &Vec<u8>, right: &Vec<u8>, ignore_case: bool) -> (same: bool)
    ensures
        same == same_path(left@, right@, ignore_case),
{
    if left.len() != right.len() {
        return false;
    }
    let mut index: usize = 0;
    while index < left.len()
        invariant
            index <= left.len(),
            left.len() == right.len(),
            forall|i: int|
                0 <= i < index ==> if ignore_case {
                    ascii_lower(#[trigger] left@[i]) == ascii_lower(right@[i])
                } else {
                    left@[i] == right@[i]
                },
        decreases left.len() - index,
    {
        let equal = if ignore_case {
            lower(left[index]) == lower(right[index])
        } else {
            left[index] == right[index]
        };
        if !equal {
            assert(ascii_lower(left@[index as int]) != ascii_lower(right@[index as int])
                || left@[index as int] != right@[index as int]);
            return false;
        }
        index += 1;
    }
    true
}

/// The source must be another ledger than the one that takes the result.
pub fn check_source_root(
    source_ledger: &Vec<u8>,
    destination_ledger: &Vec<u8>,
    ignore_case: bool,
) -> (result: RuntimeHostResult<()>)
    ensures
        same_path(source_ledger@, destination_ledger@, ignore_case) ==> result == Err::<(), _>(
            source_refusal("saved_source_is_target"),
        ),
        !same_path(source_ledger@, destination_ledger@, ignore_case) ==> result is Ok,
{
    if same_root(source_ledger, destination_ledger, ignore_case) {
        Err(source_error("saved_source_is_target"))
    } else {
        Ok(())
    }
}

/// The deadline is passed once it is reached.
pub fn check_deadline(now_ms: u64, deadline_ms: u64) -> (result: RuntimeHostResult<()>)
    ensures
        now_ms >= deadline_ms ==> result == Err::<(), _>(
            source_refusal("saved_ocr_deadline_exceeded"),
        ),
        now_ms < deadline_ms ==> result is Ok,
{
    if now_ms >= deadline_ms {
        Err(source_error("saved_ocr_deadline_exceeded"))
    } else {
        Ok(())
    }
}

/// The deadline of a request that starts now.
pub fn request_deadline(now_ms: u64, allowed_ms: u64) -> (result: RuntimeHostResult<u64>)
    ensures
        now_ms + allowed_ms <= u64::MAX ==> result == Ok::<_, RuntimeHostError>(
            (now_ms + allowed_ms) as u64,
        ),
        now_ms + allowed_ms > u64::MAX ==> result == Err::<u64, _>(
            source_refusal("saved_ocr_deadline_overflow"),
        ),
{
    match now_ms.checked_add(allowed_ms) {
        Some(deadline) => Ok(deadline),
        None => Err(source_error("saved_ocr_deadline_overflow")),
    }
}

/// Adds an artifact to what the request verified so far.
pub fn add_verified_bytes(verified_bytes: u64, byte_count: u64) -> (result: RuntimeHostResult<u64>)
    ensures
        verified_bytes + byte_count <= MAX_VERIFIED_SOURCE_BYTES ==> result == Ok::<
            _,
            RuntimeHostError,
        >((verified_bytes + byte_count) as u64),
        verified_bytes + byte_count > MAX_VERIFIED_SOURCE_BYTES ==> result == Err::<u64, _>(
            source_refusal("saved_source_artifact_budget"),
        ),
{
    match verified_bytes.checked_add(byte_count) {
        Some(total) => {
            if total <= MAX_VERIFIED_SOURCE_BYTES {
                Ok(total)
            } else {
                Err(source_error("saved_source_artifact_budget"))
            }
        },
        None => Err(source_error("saved_source_artifact_budget")),
    }
}

/// A package must not exceed the bound on compressed packages.
pub fn check_package_size(byte_count: u64, maximum: u64) -> (result: RuntimeHostResult<()>)
    ensures
        byte_count > maximum ==> result == Err::<(), _>(source_refusal("saved_ocr_package_limit")),
        byte_count <= maximum ==> result is Ok,
{
    if byte_count > maximum {
        Err(source_error("saved_ocr_package_limit"))
    } else {
        Ok(())
    }
}

/// What the evidence reader says of the source ledger as a whole.
#[derive(Debug, Clone, Copy, PartialEq, Eq, Structural)]
pub struct SourceLedger {
    pub corrupt_tail: bool,
    pub read_complete: bool,
    /// Whether the last writer is still active; `None` when its metadata
    /// cannot be read.
    pub writer_active: Option<bool>,
    pub latest_sequence: u64,
}

/// A complete ledger whose writer closed it, up to the sequence asked for.
pub open spec fn source_frozen(ledger: SourceLedger, through_sequence: u64) -> bool {
    !ledger.corrupt_tail && ledger.read_complete && ledger.writer_active == Some(false)
        && through_sequence <= ledger.latest_sequence
}

pub fn check_source_frozen(ledger: &SourceLedger, through_sequence: u64) -> (result:
    RuntimeHostResult<()>)
    ensures
        source_frozen(*ledger, through_sequence) ==> result is Ok,
        !source_frozen(*ledger, through_sequence) ==> result == Err::<(), _>(
            source_refusal("saved_source_incomplete"),
        ),
{
    let writer_closed = match ledger.writer_active {
        Some(active) => !active,
        None => false,
    };
    if ledger.corrupt_tail || !ledger.read_complete || !writer_closed || through_sequence
        > ledger.latest_sequence {
        Err(source_error("saved_source_incomplete"))
    } else {
        Ok(())
    }
}

#[derive(Debug, Clone, Copy, PartialEq, Eq, Structural)]
pub enum SourceEventKind {
    ArtifactCreated,
    ArtifactVerified,
    CaptureCompleted,
    Other,
}

/// An artifact as an event carries it.
#[derive(Debug, Clone)]
pub struct SourceArtifact {
    pub run_id: Option<u128>,
    pub correlation_id: Option<u128>,
    /// Everything else the artifact carries, encoded.
    pub remainder: String,
}

/// The value of a source artifact.
pub struct SourceArtifactView {
    pub run_id: Option<u128>,
    pub correlation_id: Option<u128>,
    pub remainder: Seq<char>,
}

impl View for SourceArtifact {
    type V = SourceArtifactView;

    open spec fn view(&self) -> SourceArtifactView {
        SourceArtifactView {
            run_id: self.run_id,
            correlation_id: self.correlation_id,
            remainder: self.remainder@,
        }
    }
}

fn same_link(left: Option<u128>, right: Option<u128>) -> (same: bool)
    ensures
        same == (left == right),
{
    match (left, right) {
        (None, None) => true,
        (Some(a), Some(b)) => a == b,
        _ => false,
    }
}

impl SourceArtifact {
    pub fn same(&self, other: &Self) -> (same: bool)
        ensures
            same == (self@ == other@),
    {
        same_link(self.run_id, other.run_id) && same_link(
            self.correlation_id,
            other.correlation_id,
        ) && same_text(self.remainder.as_str(), other.remainder.as_str())
    }
}

/// An event of the source ledger.
#[derive(Debug, Clone)]
pub struct SourceEvent {
    pub sequence: u64,
    pub event_id: u128,
    pub kind: SourceEventKind,
    pub frame_id: Option<u128>,
    pub run_id: Option<u128>,
    pub correlation_id: Option<u128>,
    pub request_id: Option<u128>,
    pub artifacts: Vec<SourceArtifact>,
    /// The dimensions of the frame, on a completed capture.
    pub frame: Option<(u32, u32)>,
}

#[derive(Debug, Clone, Copy, PartialEq, Eq, Structural)]
pub struct TerminalEvent {
    pub sequence: u64,
    pub event_id: u128,
}

/// What a request says about the artifact it wants read.
#[derive(Debug, Clone)]
pub struct SavedArtifactSource {
    pub frame_id: u128,
    pub created: TerminalEvent,
    pub verified: TerminalEvent,
    pub captured: TerminalEvent,
    pub artifact: SourceArtifact,
}

/// The event at a position of the ledger is the one that is claimed.
pub open spec fn event_matches(
    events: Seq<SourceEvent>,
    position: TerminalEvent,
    kind: SourceEventKind,
    frame_id: u128,
) -> bool {
    let index = position.sequence - 1;
    &&& 0 <= index < events.len()
    &&& events[index].sequence == position.sequence
    &&& events[index].event_id == position.event_id
    &&& events[index].kind == kind
    &&& events[index].frame_id == Some(frame_id)
}

/// An artifact event belongs to the same observation as the capture.
pub open spec fn same_observation(
    event: SourceEvent,
    captured: SourceEvent,
    artifact: SourceArtifactView,
) -> bool {
    &&& exists|i: int|
        0 <= i < event.artifacts@.len() && (#[trigger] event.artifacts@[i])@ == artifact
    &&& event.run_id == captured.run_id
    &&& event.correlation_id == captured.correlation_id
    &&& event.request_id == captured.request_id
}

/// What the three events prove; the first refusal otherwise.
pub open spec fn source_proof(events: Seq<SourceEvent>, source: SavedArtifactSource) -> Result<
    int,
    RuntimeHostError,
> {
    let created = events[source.created.sequence - 1];
    let verified = events[source.verified.sequence - 1];
    let captured = events[source.captured.sequence - 1];
    if !(event_matches(
        events,
        source.created,
        SourceEventKind::ArtifactCreated,
        source.frame_id,
    ) && event_matches(
        events,
        source.verified,
        SourceEventKind::ArtifactVerified,
        source.frame_id,
    ) && event_matches(
        events,
        source.captured,
        SourceEventKind::CaptureCompleted,
        source.frame_id,
    )) {
        Err(source_refusal("saved_source_event_mismatch"))
    } else if !(same_observation(created, captured, source.artifact@) && same_observation(
        verified,
        captured,
        source.artifact@,
    )) {
        Err(source_refusal("saved_source_artifact_mismatch"))
    } else if source.artifact.run_id != captured.run_id || source.artifact.correlation_id
        != captured.correlation_id {
        Err(source_refusal("saved_source_links_mismatch"))
    } else {
        Ok(source.captured.sequence - 1)
    }
}

fn locate(
    events: &Vec<SourceEvent>,
    position: TerminalEvent,
    kind: SourceEventKind,
    frame_id: u128,
) -> (result: RuntimeHostResult<usize>)
    requires
        position.sequence > 0,
    ensures
        event_matches(events@, position, kind, frame_id) ==> (result matches Ok(index) && index
            == position.sequence - 1 && index < events@.len()),
        !event_matches(events@, position, kind, frame_id) ==> result == Err::<usize, _>(
            source_refusal("saved_source_event_mismatch"),
        ),
{
    let index: u64 = position.sequence - 1;
    if index < events.len() as u64 {
        let event = &events[index as usize];
        if event.sequence == position.sequence && event.event_id == position.event_id && event.kind
            == kind && same_link(event.frame_id, Some(frame_id)) {
            return Ok(index as usize);
        }
    }
    Err(source_error("saved_source_event_mismatch"))
}

fn of_observation(event: &SourceEvent, captured: &SourceEvent, artifact: &SourceArtifact) -> (same:
    bool)
    ensures
        same == same_observation(*event, *captured, artifact@),
{
    if !(same_link(event.run_id, captured.run_id) && same_link(
        event.correlation_id,
        captured.correlation_id,
    ) && same_link(event.request_id, captured.request_id)) {
        return false;
    }
    let mut index: usize = 0;
    while index < event.artifacts.len()
        invariant
            index <= event.artifacts.len(),
            event.run_id == captured.run_id,
            event.correlation_id == captured.correlation_id,
            event.request_id == captured.request_id,
            forall|i: int|
                0 <= i < index ==> (#[trigger] event.artifacts@[i])@ != artifact@,
        decreases event.artifacts.len() - index,
    {
        if event.artifacts[index].same(artifact) {
            assert(event.artifacts@[index as int]@ == artifact@);
            return true;
        }
        index += 1;
    }
    false
}

/// Proves from the source ledger that the artifact is a captured frame, and
/// finds the event that completed the capture.
pub fn prove_source(events: &Vec<SourceEvent>, source: &SavedArtifactSource) -> (result:
    RuntimeHostResult<usize>)
    requires
        source.created.sequence > 0,
        source.verified.sequence > 0,
        source.captured.sequence > 0,
    ensures
        match source_proof(events@, *source) {
            Ok(index) => result matches Ok(found) && found == index && found < events@.len(),
            Err(error) => result == Err::<usize, _>(error),
        },
{
    let created = locate(
        events,
        source.created,
        SourceEventKind::ArtifactCreated,
        source.frame_id,
    )?;
    let verified = locate(
        events,
        source.verified,
        SourceEventKind::ArtifactVerified,
        source.frame_id,
    )?;
    let captured = locate(
        events,
        source.captured,
        SourceEventKind::CaptureCompleted,
        source.frame_id,
    )?;
    if !of_observation(&events[created], &events[captured], &source.artifact) || !of_observation(
        &events[verified],
        &events[captured],
        &source.artifact,
    ) {
        return Err(source_error("saved_source_artifact_mismatch"));
    }
    if !same_link(source.artifact.run_id, events[captured].run_id) || !same_link(
        source.artifact.correlation_id,
        events[captured].correlation_id,
    ) {
        return Err(source_error("saved_source_links_mismatch"));
    }
    Ok(captured)
}

/// The dimensions of the captured frame.
pub fn captured_dimensions(captured: &SourceEvent) -> (result: RuntimeHostResult<(u32, u32)>)
    ensures
        match captured.frame {
            Some(dimensions) => result == Ok::<_, RuntimeHostError>(dimensions),
            None => result == Err::<(u32, u32), _>(source_refusal("saved_source_capture_invalid")),
        },
{
    match captured.frame {
        Some(dimensions) => Ok(dimensions),
        None => Err(source_error("saved_source_capture_invalid")),
    }
}

/// The detail of a refusal that a rule made, in words. Any other refusal has
/// the words of the failure behind it.
pub open spec fn rule_detail(code: Seq<char>) -> Option<Seq<char>> {
    if code == "saved_ocr_deadline_overflow"@ {
        Some("deadline overflow"@)
    } else if code == "saved_source_is_target"@ {
        Some("source and target ledger must differ"@)
    } else if code == "saved_source_artifact_budget"@ {
        Some("source verification byte budget exceeded"@)
    } else if code == "saved_source_incomplete"@ {
        Some("source must have a complete closed ledger and a valid frozen prefix"@)
    } else if code == "saved_source_capture_invalid"@ {
        Some("capture completion payload missing"@)
    } else if code == "saved_ocr_package_limit"@ {
        Some("compressed package limit exceeded"@)
    } else if code == "saved_ocr_provider_unavailable"@ {
        Some("Runtime OCR provider is not configured"@)
    } else if code == "saved_ocr_verified_event_missing"@ {
        Some("artifact verification event missing"@)
    } else if code == "saved_source_event_mismatch"@ {
        Some("source event identity, kind or frame does not match"@)
    } else if code == "saved_source_artifact_mismatch"@ {
        Some("source artifact and frame completion are not the same observation"@)
    } else if code == "saved_source_links_mismatch"@ {
        Some("artifact source links do not match capture"@)
    } else if code == "saved_ocr_deadline_exceeded"@ {
        Some("saved artifact recognition deadline exceeded"@)
    } else {
        None
    }
}

pub fn refusal_detail(code: &str) -> (detail: Option<&'static str>)
    ensures
        match detail {
            Some(words) => rule_detail(code@) == Some(words@),
            None => rule_detail(code@) is None,
        },
{
    if same_text(code, "saved_ocr_deadline_overflow") {
        return Some("deadline overflow");
    }
    if same_text(code, "saved_source_is_target") {
        return Some("source and target ledger must differ");
    }
    if same_text(code, "saved_source_artifact_budget") {
        return Some("source verification byte budget exceeded");
    }
    if same_text(code, "saved_source_incomplete") {
        return Some("source must have a complete closed ledger and a valid frozen prefix");
    }
    if same_text(code, "saved_source_capture_invalid") {
        return Some("capture completion payload missing");
    }
    if same_text(code, "saved_ocr_package_limit") {
        return Some("compressed package limit exceeded");
    }
    if same_text(code, "saved_ocr_provider_unavailable") {
        return Some("Runtime OCR provider is not configured");
    }
    if same_text(code, "saved_ocr_verified_event_missing") {
        return Some("artifact verification event missing");
    }
    if same_text(code, "saved_source_event_mismatch") {
        return Some("source event identity, kind or frame does not match");
    }
    if same_text(code, "saved_source_artifact_mismatch") {
        return Some("source artifact and frame completion are not the same observation");
    }
    if same_text(code, "saved_source_links_mismatch") {
        return Some("artifact source links do not match capture");
    }
    if same_text(code, "saved_ocr_deadline_exceeded") {
        return Some("saved artifact recognition deadline exceeded");
    }
    None
}

/// Two roots are one exactly when their bytes are, with only the case of Latin
/// letters let go where case does not count.
pub proof fn law_roots_differ_in_bytes(left: Seq<u8>, right: Seq<u8>)
    ensures
        same_path(left, right, false) <==> left == right,
        same_path(left, right, false) ==> same_path(left, right, true),
        same_path(left, right, true) <==> same_path(right, left, true),
        left.len() != right.len() ==> !same_path(left, right, true),
{
    if same_path(left, right, false) {
        assert forall|i: int| 0 <= i < left.len() implies left[i] == right[i] by {
            assert(ascii_lower(left[i]) == ascii_lower(left[i]));
        }
        assert(left =~= right);
    }
    if same_path(left, right, true) {
        assert forall|i: int| 0 <= i < right.len() implies ascii_lower(#[trigger] right[i])
            == ascii_lower(left[i]) by {
            assert(ascii_lower(left[i]) == ascii_lower(right[i]));
        }
    }
    if same_path(right, left, true) {
        assert forall|i: int| 0 <= i < left.len() implies ascii_lower(#[trigger] left[i])
            == ascii_lower(right[i]) by {
            assert(ascii_lower(right[i]) == ascii_lower(left[i]));
        }
    }
}

/// Letting case go joins each capital letter with its small one, and no other
/// bytes.
pub proof fn law_case_joins_letters_only(left: u8, right: u8)
    ensures
        ascii_lower(left) == ascii_lower(right) <==> left == right || (65 <= left <= 90 && right
            == left + 32) || (65 <= right <= 90 && left == right + 32),
{
}

/// A source counts as frozen exactly when its ledger was read whole, ends
/// cleanly, is known to have no writer and reaches the sequence asked for.
pub proof fn law_source_is_frozen_when_closed(ledger: SourceLedger, through_sequence: u64)
    ensures
        ledger.writer_active is None || ledger.writer_active == Some(true) ==> !source_frozen(
            ledger,
            through_sequence,
        ),
        ledger.corrupt_tail || !ledger.read_complete ==> !source_frozen(ledger, through_sequence),
        !ledger.corrupt_tail && ledger.read_complete && ledger.writer_active == Some(false) ==> (
        source_frozen(ledger, through_sequence) <==> ledger.latest_sequence >= through_sequence),
{
}

/// A source is proved only when its three events stand where it says, are of
/// their kinds, show its frame, and belong to one observation of one artifact.
pub proof fn law_proved_source_is_one_observation(
    events: Seq<SourceEvent>,
    source: SavedArtifactSource,
)
    ensures
        source_proof(events, source) matches Ok(index) ==> {
            let created = events[source.created.sequence - 1];
            let verified = events[source.verified.sequence - 1];
            let captured = events[index];
            &&& index == source.captured.sequence - 1
            &&& 1 <= source.created.sequence <= events.len()
            &&& 1 <= source.verified.sequence <= events.len()
            &&& 1 <= source.captured.sequence <= events.len()
            &&& created.kind == SourceEventKind::ArtifactCreated
            &&& verified.kind == SourceEventKind::ArtifactVerified
            &&& captured.kind == SourceEventKind::CaptureCompleted
            &&& created.event_id == source.created.event_id
            &&& verified.event_id == source.verified.event_id
            &&& captured.event_id == source.captured.event_id
            &&& created.sequence == source.created.sequence
            &&& verified.sequence == source.verified.sequence
            &&& captured.sequence == source.captured.sequence
            &&& created.frame_id == Some(source.frame_id)
            &&& verified.frame_id == Some(source.frame_id)
            &&& captured.frame_id == Some(source.frame_id)
            &&& created.run_id == captured.run_id
            &&& verified.run_id == captured.run_id
            &&& created.correlation_id == captured.correlation_id
            &&& verified.correlation_id == captured.correlation_id
            &&& created.request_id == captured.request_id
            &&& verified.request_id == captured.request_id
            &&& source.artifact.run_id == captured.run_id
            &&& source.artifact.correlation_id == captured.correlation_id
            &&& (exists|i: int|
                0 <= i < created.artifacts@.len() && (#[trigger] created.artifacts@[i])@
                    == source.artifact@)
            &&& (exists|i: int|
                0 <= i < verified.artifacts@.len() && (#[trigger] verified.artifacts@[i])@
                    == source.artifact@)
        },
{
}

/// Three events that stand where the source says, each showing its frame and
/// its artifact in one run of one request, prove the source.
pub proof fn law_one_observation_proves_its_source(
    events: Seq<SourceEvent>,
    source: SavedArtifactSource,
    created: int,
    verified: int,
    captured: int,
    created_at: int,
    verified_at: int,
)
    requires
        0 <= created < events.len(),
        0 <= verified < events.len(),
        0 <= captured < events.len(),
        source.created == (TerminalEvent {
            sequence: events[created].sequence,
            event_id: events[created].event_id,
        }),
        source.verified == (TerminalEvent {
            sequence: events[verified].sequence,
            event_id: events[verified].event_id,
        }),
        source.captured == (TerminalEvent {
            sequence: events[captured].sequence,
            event_id: events[captured].event_id,
        }),
        events[created].sequence == created + 1,
        events[verified].sequence == verified + 1,
        events[captured].sequence == captured + 1,
        events[created].kind == SourceEventKind::ArtifactCreated,
        events[verified].kind == SourceEventKind::ArtifactVerified,
        events[captured].kind == SourceEventKind::CaptureCompleted,
        events[created].frame_id == Some(source.frame_id),
        events[verified].frame_id == Some(source.frame_id),
        events[captured].frame_id == Some(source.frame_id),
        events[created].run_id == events[captured].run_id,
        events[verified].run_id == events[captured].run_id,
        source.artifact.run_id == events[captured].run_id,
        events[created].correlation_id == events[captured].correlation_id,
        events[verified].correlation_id == events[captured].correlation_id,
        source.artifact.correlation_id == events[captured].correlation_id,
        events[created].request_id == events[captured].request_id,
        events[verified].request_id == events[captured].request_id,
        0 <= created_at < events[created].artifacts@.len(),
        events[created].artifacts@[created_at]@ == source.artifact@,
        0 <= verified_at < events[verified].artifacts@.len(),
        events[verified].artifacts@[verified_at]@ == source.artifact@,
    ensures
        source_proof(events, source) == Ok::<int, RuntimeHostError>(captured),
{
    assert(event_matches(
        events,
        source.created,
        SourceEventKind::ArtifactCreated,
        source.frame_id,
    ));
    assert(event_matches(
        events,
        source.verified,
        SourceEventKind::ArtifactVerified,
        source.frame_id,
    ));
    assert(same_observation(events[created], events[captured], source.artifact@));
    assert(same_observation(events[verified], events[captured], source.artifact@));
}

} // verus!
