//! Which records a task diagnostic gets for what was recognised: their kinds,
//! their numbers and the records that they belong to.

use vstd::prelude::*;

use crate::task_diagnostic::{
    end_diagnostic_step, ocr_block_order, source_listing, source_order, DiagnosticFailure,
    DiagnosticStep, StepElapsed,
};

verus! {

#[derive(Debug, Clone, Copy, PartialEq, Eq, Structural)]
pub enum RecordKind {
    StepStarted,
    StepElapsed,
    Page,
    Target,
    Ocr,
    OcrBlock,
    Nn,
    NnLabel,
    Error,
    Unexecuted,
    Artifact,
    Terminal,
}

/// What a task was doing when a record was written.
#[derive(Debug, Clone, Copy, PartialEq, Eq, Structural)]
pub struct RecordContext {
    pub frame_id: Option<u128>,
    pub step_action_id: Option<u128>,
    pub physical_action_id: Option<u128>,
}

/// Which part of a result a record tells.
#[derive(Debug, Clone, Copy, PartialEq, Eq)]
pub struct RecordPlace {
    pub page: Option<usize>,
    pub target: Option<usize>,
    /// A block or label by its rank and its source position, or an artifact
    /// by its event and its position there.
    pub item: Option<(usize, usize)>,
}

/// A record that is to be written.
#[derive(Debug, Clone, Copy, PartialEq, Eq)]
pub struct PlannedRecord {
    pub index: u64,
    pub kind: RecordKind,
    pub parent_index: Option<u64>,
    pub place: RecordPlace,
    pub context: RecordContext,
}

/// The records to write next, in order, up to the failure if there is one.
#[derive(Debug)]
pub struct RecordPlan {
    /// The number of records written before.
    pub written: u64,
    pub records: Vec<PlannedRecord>,
    pub failure: Option<DiagnosticFailure>,
}

#[verifier::ext_equal]
pub struct RecordPlanView {
    pub written: int,
    pub records: Seq<PlannedRecord>,
    pub failure: Option<DiagnosticFailure>,
}

impl View for RecordPlan {
    type V = RecordPlanView;

    open spec fn view(&self) -> RecordPlanView {
        RecordPlanView {
            written: self.written as int,
            records: self.records@,
            failure: self.failure,
        }
    }
}

/// The number of the last record, planned or written before.
pub open spec fn last_index(plan: RecordPlanView) -> u64 {
    (plan.written + plan.records.len()) as u64
}

/// The records are numbered one after the other, and each belongs to none or
/// to an earlier record of the plan.
pub open spec fn well_numbered(plan: RecordPlanView) -> bool {
    &&& 0 <= plan.written
    &&& plan.written + plan.records.len() <= u64::MAX
    &&& forall|i: int|
        0 <= i < plan.records.len() ==> (#[trigger] plan.records[i]).index == plan.written + i + 1
    &&& forall|i: int|
        0 <= i < plan.records.len() ==> ((#[trigger] plan.records[i]).parent_index matches Some(
            parent,
        ) ==> plan.written < parent < plan.records[i].index)
}

/// A record may belong to one that was planned.
pub open spec fn may_belong(plan: RecordPlanView, parent: Option<u64>) -> bool {
    plan.failure is None ==> (parent matches Some(index) ==> plan.written < index <= plan.written
        + plan.records.len())
}

/// One more record, unless the plan failed or the numbers are used up.
pub open spec fn planned(
    plan: RecordPlanView,
    context: RecordContext,
    kind: RecordKind,
    parent_index: Option<u64>,
    place: RecordPlace,
) -> RecordPlanView {
    if plan.failure is Some {
        plan
    } else if plan.written + plan.records.len() >= u64::MAX {
        RecordPlanView { failure: Some(DiagnosticFailure::RecordCountOverflow), ..plan }
    } else {
        RecordPlanView {
            records: plan.records.push(
                PlannedRecord {
                    index: (plan.written + plan.records.len() + 1) as u64,
                    kind,
                    parent_index,
                    place,
                    context,
                },
            ),
            ..plan
        }
    }
}

/// A recognised text: its blocks and where each comes from.
#[derive(Debug)]
pub struct TextShape {
    pub blocks: usize,
    pub source_order: Vec<usize>,
}

/// An evaluated target: its text, and where each of its labels comes from.
#[derive(Debug)]
pub struct TargetShape {
    pub text: Option<TextShape>,
    pub labels: Option<Vec<usize>>,
}

/// An evaluated page, complete or up to its error.
#[derive(Debug)]
pub struct PageShape {
    pub targets: Vec<TargetShape>,
}

/// The pages that were evaluated; after an error, those that were not.
#[derive(Debug)]
pub struct BatchShape {
    pub pages: Vec<PageShape>,
    /// The number of pages left out because of an error.
    pub unexecuted: Option<usize>,
}

/// What became of a guard.
#[derive(Debug)]
pub enum GuardShape {
    Evaluated(TargetShape),
    Failed,
    Skipped,
}

/// An artifact event: its links and how many artifacts it names.
#[derive(Debug, Clone, Copy, PartialEq, Eq, Structural)]
pub struct ArtifactEventShape {
    pub frame_id: Option<u128>,
    pub action_id: Option<u128>,
    pub artifacts: usize,
}

pub open spec fn nowhere() -> RecordPlace {
    RecordPlace { page: None, target: None, item: None }
}

/// A record for each item of a listing.
pub open spec fn items_planned(
    plan: RecordPlanView,
    context: RecordContext,
    kind: RecordKind,
    parent_index: Option<u64>,
    place: RecordPlace,
    listing: Seq<(usize, usize)>,
) -> RecordPlanView
    decreases listing.len(),
{
    if listing.len() == 0 {
        plan
    } else {
        planned(
            items_planned(plan, context, kind, parent_index, place, listing.drop_last()),
            context,
            kind,
            parent_index,
            RecordPlace { item: Some(listing.last()), ..place },
        )
    }
}

/// The blocks of a text, by their source positions.
pub open spec fn blocks_planned(
    plan: RecordPlanView,
    context: RecordContext,
    parent_index: Option<u64>,
    place: RecordPlace,
    text: TextShape,
) -> RecordPlanView {
    if plan.failure is Some {
        plan
    } else if text.blocks != text.source_order@.len() {
        RecordPlanView { failure: Some(DiagnosticFailure::SourceOrderMismatch), ..plan }
    } else {
        items_planned(
            plan,
            context,
            RecordKind::OcrBlock,
            parent_index,
            place,
            source_listing(text.source_order@),
        )
    }
}

/// A text and its blocks.
pub open spec fn text_planned(
    plan: RecordPlanView,
    context: RecordContext,
    parent_index: Option<u64>,
    place: RecordPlace,
    text: TextShape,
) -> RecordPlanView {
    let headed = planned(plan, context, RecordKind::Ocr, parent_index, place);
    blocks_planned(headed, context, Some(last_index(headed)), place, text)
}

/// A target, its text and its labels.
pub open spec fn target_planned(
    plan: RecordPlanView,
    context: RecordContext,
    parent_index: Option<u64>,
    place: RecordPlace,
    target: TargetShape,
) -> RecordPlanView {
    let headed = planned(plan, context, RecordKind::Target, parent_index, place);
    let index = Some(last_index(headed));
    let with_text = match target.text {
        Some(text) => text_planned(headed, context, index, place, text),
        None => headed,
    };
    match target.labels {
        Some(labels) => {
            let network = planned(with_text, context, RecordKind::Nn, index, place);
            items_planned(
                network,
                context,
                RecordKind::NnLabel,
                Some(last_index(network)),
                place,
                source_listing(labels@),
            )
        },
        None => with_text,
    }
}

/// The targets of a page.
pub open spec fn targets_planned(
    plan: RecordPlanView,
    context: RecordContext,
    parent_index: Option<u64>,
    page: usize,
    targets: Seq<TargetShape>,
) -> RecordPlanView
    decreases targets.len(),
{
    if targets.len() == 0 {
        plan
    } else {
        target_planned(
            targets_planned(plan, context, parent_index, page, targets.drop_last()),
            context,
            parent_index,
            RecordPlace {
                page: Some(page),
                target: Some((targets.len() - 1) as usize),
                item: None,
            },
            targets.last(),
        )
    }
}

/// A page and its targets.
pub open spec fn page_planned(
    plan: RecordPlanView,
    context: RecordContext,
    page: usize,
    shape: PageShape,
) -> RecordPlanView {
    let headed = planned(
        plan,
        context,
        RecordKind::Page,
        None,
        RecordPlace { page: Some(page), target: None, item: None },
    );
    targets_planned(headed, context, Some(last_index(headed)), page, shape.targets@)
}

pub open spec fn pages_planned(
    plan: RecordPlanView,
    context: RecordContext,
    pages: Seq<PageShape>,
) -> RecordPlanView
    decreases pages.len(),
{
    if pages.len() == 0 {
        plan
    } else {
        page_planned(
            pages_planned(plan, context, pages.drop_last()),
            context,
            (pages.len() - 1) as usize,
            pages.last(),
        )
    }
}

/// A record for each of some pages that were not evaluated.
pub open spec fn skipped_planned(
    plan: RecordPlanView,
    context: RecordContext,
    count: nat,
) -> RecordPlanView
    decreases count,
{
    if count == 0 {
        plan
    } else {
        planned(
            skipped_planned(plan, context, (count - 1) as nat),
            context,
            RecordKind::Unexecuted,
            None,
            RecordPlace { page: Some((count - 1) as usize), target: None, item: None },
        )
    }
}

/// The pages that were evaluated, then the error, then the pages that were
/// not.
pub open spec fn batch_planned(
    plan: RecordPlanView,
    context: RecordContext,
    batch: BatchShape,
) -> RecordPlanView {
    let evaluated = pages_planned(plan, context, batch.pages@);
    match batch.unexecuted {
        None => evaluated,
        Some(count) => skipped_planned(
            planned(evaluated, context, RecordKind::Error, None, nowhere()),
            context,
            count as nat,
        ),
    }
}

pub open spec fn guard_planned(
    plan: RecordPlanView,
    context: RecordContext,
    guard: GuardShape,
) -> RecordPlanView {
    match guard {
        GuardShape::Evaluated(target) => target_planned(plan, context, None, nowhere(), target),
        GuardShape::Failed => planned(plan, context, RecordKind::Error, None, nowhere()),
        GuardShape::Skipped => planned(plan, context, RecordKind::Unexecuted, None, nowhere()),
    }
}

/// A record for each artifact of an event.
pub open spec fn event_planned(
    plan: RecordPlanView,
    event: int,
    links: ArtifactEventShape,
    count: nat,
) -> RecordPlanView
    decreases count,
{
    if count == 0 {
        plan
    } else {
        planned(
            event_planned(plan, event, links, (count - 1) as nat),
            RecordContext {
                frame_id: links.frame_id,
                step_action_id: None,
                physical_action_id: links.action_id,
            },
            RecordKind::Artifact,
            None,
            RecordPlace {
                page: None,
                target: None,
                item: Some((event as usize, (count - 1) as usize)),
            },
        )
    }
}

pub open spec fn events_planned(
    plan: RecordPlanView,
    events: Seq<ArtifactEventShape>,
) -> RecordPlanView
    decreases events.len(),
{
    if events.len() == 0 {
        plan
    } else {
        event_planned(
            events_planned(plan, events.drop_last()),
            events.len() - 1,
            events.last(),
            events.last().artifacts as nat,
        )
    }
}

impl RecordPlan {
    /// A plan after some records were written.
    pub fn new(written: u64) -> (plan: Self)
        ensures
            plan@ == (RecordPlanView {
                written: written as int,
                records: Seq::empty(),
                failure: None,
            }),
            well_numbered(plan@),
    {
        let plan = RecordPlan { written, records: Vec::new(), failure: None };
        assert(plan@.records =~= Seq::<PlannedRecord>::empty());
        plan
    }

    fn last(&self) -> (index: u64)
        requires
            well_numbered(self@),
        ensures
            index == last_index(self@),
    {
        self.written + self.records.len() as u64
    }

    fn add_record(
        &mut self,
        context: RecordContext,
        kind: RecordKind,
        parent_index: Option<u64>,
        place: RecordPlace,
    )
        requires
            well_numbered(old(self)@),
            may_belong(old(self)@, parent_index),
        ensures
            final(self)@ == planned(old(self)@, context, kind, parent_index, place),
            well_numbered(final(self)@),
            final(self)@.failure is None ==> may_belong(final(self)@, parent_index) && may_belong(
                final(self)@,
                Some(last_index(final(self)@)),
            ),
    {
        if self.failure.is_some() {
            return;
        }
        match self.last().checked_add(1) {
            Some(index) => {
                self.records.push(
                    PlannedRecord { index, kind, parent_index, place, context },
                );
            },
            None => {
                self.failure = Some(DiagnosticFailure::RecordCountOverflow);
            },
        }
    }

    fn add_items(
        &mut self,
        context: RecordContext,
        kind: RecordKind,
        parent_index: Option<u64>,
        place: RecordPlace,
        listing: &Vec<(usize, usize)>,
    )
        requires
            well_numbered(old(self)@),
            may_belong(old(self)@, parent_index),
        ensures
            final(self)@ == items_planned(
                old(self)@,
                context,
                kind,
                parent_index,
                place,
                listing@,
            ),
            well_numbered(final(self)@),
            may_belong(final(self)@, parent_index),
            final(self)@.written == old(self)@.written,
            final(self)@.records.len() >= old(self)@.records.len(),
            old(self)@.failure is Some ==> final(self)@.failure is Some,
    {
        let ghost before = self@;
        let mut index: usize = 0;
        assert(listing@.take(0) =~= Seq::empty());
        while index < listing.len()
            invariant
                index <= listing.len(),
                self@ == items_planned(
                    before,
                    context,
                    kind,
                    parent_index,
                    place,
                    listing@.take(index as int),
                ),
                well_numbered(self@),
                may_belong(self@, parent_index),
                self@.written == before.written,
                self@.records.len() >= before.records.len(),
                before.failure is Some ==> self@.failure is Some,
            decreases listing.len() - index,
        {
            let item = listing[index];
            assert(listing@.take(index + 1).drop_last() =~= listing@.take(index as int));
            self.add_record(
                context,
                kind,
                parent_index,
                RecordPlace { page: place.page, target: place.target, item: Some(item) },
            );
            index += 1;
        }
        assert(listing@.take(listing@.len() as int) =~= listing@);
    }

    /// Plans a text and its blocks.
    fn add_text(
        &mut self,
        context: RecordContext,
        parent_index: Option<u64>,
        place: RecordPlace,
        text: &TextShape,
    )
        requires
            well_numbered(old(self)@),
            may_belong(old(self)@, parent_index),
        ensures
            final(self)@ == text_planned(old(self)@, context, parent_index, place, *text),
            well_numbered(final(self)@),
            may_belong(final(self)@, parent_index),
            final(self)@.written == old(self)@.written,
            final(self)@.records.len() >= old(self)@.records.len(),
            old(self)@.failure is Some ==> final(self)@.failure is Some,
    {
        self.add_record(context, RecordKind::Ocr, parent_index, place);
        if self.failure.is_some() {
            return;
        }
        let index = self.last();
        match ocr_block_order(text.blocks, &text.source_order) {
            Ok(listing) => {
                self.add_items(context, RecordKind::OcrBlock, Some(index), place, &listing);
            },
            Err(failure) => {
                self.failure = Some(failure);
            },
        }
    }

    /// Plans a target, its text and its labels.
    fn add_target(
        &mut self,
        context: RecordContext,
        parent_index: Option<u64>,
        place: RecordPlace,
        target: &TargetShape,
    )
        requires
            well_numbered(old(self)@),
            may_belong(old(self)@, parent_index),
        ensures
            final(self)@ == target_planned(old(self)@, context, parent_index, place, *target),
            well_numbered(final(self)@),
            may_belong(final(self)@, parent_index),
            final(self)@.written == old(self)@.written,
            final(self)@.records.len() >= old(self)@.records.len(),
            old(self)@.failure is Some ==> final(self)@.failure is Some,
    {
        self.add_record(context, RecordKind::Target, parent_index, place);
        let index = self.last();
        if let Some(text) = &target.text {
            self.add_text(context, Some(index), place, text);
        }
        if let Some(labels) = &target.labels {
            self.add_record(context, RecordKind::Nn, Some(index), place);
            let network = self.last();
            let listing = source_order(labels);
            self.add_items(context, RecordKind::NnLabel, Some(network), place, &listing);
        }
    }

    fn add_page(&mut self, context: RecordContext, page: usize, shape: &PageShape)
        requires
            well_numbered(old(self)@),
        ensures
            final(self)@ == page_planned(old(self)@, context, page, *shape),
            well_numbered(final(self)@),
    {
        self.add_record(
            context,
            RecordKind::Page,
            None,
            RecordPlace { page: Some(page), target: None, item: None },
        );
        let ghost headed = self@;
        let index = self.last();
        let mut target: usize = 0;
        assert(shape.targets@.take(0) =~= Seq::empty());
        while target < shape.targets.len()
            invariant
                target <= shape.targets.len(),
                self@ == targets_planned(
                    headed,
                    context,
                    Some(index),
                    page,
                    shape.targets@.take(target as int),
                ),
                well_numbered(self@),
                may_belong(self@, Some(index)),
            decreases shape.targets.len() - target,
        {
            assert(shape.targets@.take(target + 1).drop_last() =~= shape.targets@.take(
                target as int,
            ));
            self.add_target(
                context,
                Some(index),
                RecordPlace { page: Some(page), target: Some(target), item: None },
                &shape.targets[target],
            );
            target += 1;
        }
        assert(shape.targets@.take(shape.targets@.len() as int) =~= shape.targets@);
    }

    /// Plans the records of a batch of pages.
    pub fn add_batch(&mut self, context: RecordContext, batch: &BatchShape)
        requires
            well_numbered(old(self)@),
        ensures
            final(self)@ == batch_planned(old(self)@, context, *batch),
            well_numbered(final(self)@),
    {
        let ghost before = self@;
        let mut page: usize = 0;
        assert(batch.pages@.take(0) =~= Seq::empty());
        while page < batch.pages.len()
            invariant
                page <= batch.pages.len(),
                self@ == pages_planned(before, context, batch.pages@.take(page as int)),
                well_numbered(self@),
            decreases batch.pages.len() - page,
        {
            assert(batch.pages@.take(page + 1).drop_last() =~= batch.pages@.take(page as int));
            self.add_page(context, page, &batch.pages[page]);
            page += 1;
        }
        assert(batch.pages@.take(batch.pages@.len() as int) =~= batch.pages@);
        if let Some(count) = batch.unexecuted {
            self.add_record(
                context,
                RecordKind::Error,
                None,
                RecordPlace { page: None, target: None, item: None },
            );
            let ghost failed = self@;
            let mut skipped: usize = 0;
            while skipped < count
                invariant
                    skipped <= count,
                    self@ == skipped_planned(failed, context, skipped as nat),
                    well_numbered(self@),
                decreases count - skipped,
            {
                self.add_record(
                    context,
                    RecordKind::Unexecuted,
                    None,
                    RecordPlace { page: Some(skipped), target: None, item: None },
                );
                skipped += 1;
            }
        }
    }

    /// Plans the records of a guard.
    pub fn add_guard(&mut self, context: RecordContext, guard: &GuardShape)
        requires
            well_numbered(old(self)@),
        ensures
            final(self)@ == guard_planned(old(self)@, context, *guard),
            well_numbered(final(self)@),
    {
        let place = RecordPlace { page: None, target: None, item: None };
        match guard {
            GuardShape::Evaluated(target) => self.add_target(context, None, place, target),
            GuardShape::Failed => self.add_record(context, RecordKind::Error, None, place),
            GuardShape::Skipped => self.add_record(context, RecordKind::Unexecuted, None, place),
        }
    }

    /// Plans the records of a text that was read after admission, or of the
    /// error of reading it.
    pub fn add_observed_text(&mut self, context: RecordContext, text: &Option<TextShape>)
        requires
            well_numbered(old(self)@),
        ensures
            final(self)@ == match *text {
                Some(text) => text_planned(old(self)@, context, None, nowhere(), text),
                None => planned(old(self)@, context, RecordKind::Error, None, nowhere()),
            },
            well_numbered(final(self)@),
    {
        let place = RecordPlace { page: None, target: None, item: None };
        match text {
            Some(text) => self.add_text(context, None, place, text),
            None => self.add_record(context, RecordKind::Error, None, place),
        }
    }

    /// Plans the verified artifacts that a page of the task's events names, in
    /// the order of the ledger.
    pub fn add_artifacts(&mut self, events: &Vec<ArtifactEventShape>)
        requires
            well_numbered(old(self)@),
        ensures
            final(self)@ == events_planned(old(self)@, events@),
            well_numbered(final(self)@),
    {
        let ghost before = self@;
        let mut event: usize = 0;
        assert(events@.take(0) =~= Seq::empty());
        while event < events.len()
            invariant
                event <= events.len(),
                self@ == events_planned(before, events@.take(event as int)),
                well_numbered(self@),
            decreases events.len() - event,
        {
            let links = events[event];
            let ghost start = self@;
            let mut artifact: usize = 0;
            while artifact < links.artifacts
                invariant
                    artifact <= links.artifacts,
                    self@ == event_planned(start, event as int, links, artifact as nat),
                    well_numbered(self@),
                decreases links.artifacts - artifact,
            {
                self.add_record(
                    RecordContext {
                        frame_id: links.frame_id,
                        step_action_id: None,
                        physical_action_id: links.action_id,
                    },
                    RecordKind::Artifact,
                    None,
                    RecordPlace { page: None, target: None, item: Some((event, artifact)) },
                );
                artifact += 1;
            }
            assert(events@.take(event + 1).drop_last() =~= events@.take(event as int));
            event += 1;
        }
        assert(events@.take(events@.len() as int) =~= events@);
    }

    /// Plans the result of a diagnostic.
    pub fn add_result(&mut self, context: RecordContext)
        requires
            well_numbered(old(self)@),
        ensures
            final(self)@ == planned(old(self)@, context, RecordKind::Terminal, None, nowhere()),
            well_numbered(final(self)@),
    {
        self.add_record(
            context,
            RecordKind::Terminal,
            None,
            RecordPlace { page: None, target: None, item: None },
        );
    }
}

/// What a task's diagnostic knows of the task.
#[derive(Debug, Clone, Copy, PartialEq, Eq, Structural)]
pub struct TaskDiagnostic {
    pub step: Option<DiagnosticStep>,
    pub physical_action_id: Option<u128>,
    pub frame_id: Option<u128>,
}

/// The context of the records that are written now.
pub open spec fn context_of(diagnostic: TaskDiagnostic) -> RecordContext {
    RecordContext {
        frame_id: diagnostic.frame_id,
        step_action_id: match diagnostic.step {
            Some(step) => Some(step.action_id),
            None => None,
        },
        physical_action_id: diagnostic.physical_action_id,
    }
}

/// The record of a step that ends, if there is one.
pub open spec fn step_end_planned(diagnostic: TaskDiagnostic, plan: RecordPlanView) -> RecordPlanView {
    if diagnostic.step is Some {
        planned(plan, context_of(diagnostic), RecordKind::StepElapsed, None, nowhere())
    } else {
        plan
    }
}

impl TaskDiagnostic {
    pub fn context(&self) -> (context: RecordContext)
        ensures
            context == context_of(*self),
    {
        RecordContext {
            frame_id: self.frame_id,
            step_action_id: match self.step {
                Some(step) => Some(step.action_id),
                None => None,
            },
            physical_action_id: self.physical_action_id,
        }
    }

    /// Ends the step of the task, if it is in one. Nothing ends where the
    /// clock went back, nor where the record cannot be numbered.
    pub fn end_step(&mut self, plan: &mut RecordPlan, now: u64, completed: bool) -> (result: Result<
        Option<StepElapsed>,
        DiagnosticFailure,
    >)
        requires
            well_numbered(old(plan)@),
            old(plan)@.failure is None,
        ensures
            well_numbered(final(plan)@),
            match old(self).step {
                None => result == Ok::<_, DiagnosticFailure>(None::<StepElapsed>) && *final(self)
                    == *old(self) && final(plan)@ == old(plan)@,
                Some(step) => if now < step.started_ms {
                    result == Err::<Option<StepElapsed>, _>(DiagnosticFailure::StepClockRegressed)
                        && *final(self) == *old(self) && final(plan)@ == old(plan)@
                } else {
                    &&& final(plan)@ == step_end_planned(*old(self), old(plan)@)
                    &&& match final(plan)@.failure {
                        Some(failure) => result == Err::<Option<StepElapsed>, _>(failure)
                            && *final(self) == *old(self),
                        None => result == Ok::<_, DiagnosticFailure>(
                            Some(
                                StepElapsed {
                                    step_index: step.index,
                                    started_monotonic_ms: step.started_ms,
                                    ended_monotonic_ms: now,
                                    elapsed_ms: (now - step.started_ms) as u64,
                                    completed,
                                },
                            ),
                        ) && *final(self) == (TaskDiagnostic { step: None, ..*old(self) }),
                    }
                },
            },
    {
        let elapsed = match end_diagnostic_step(self.step, now, completed) {
            Err(failure) => {
                return Err(failure);
            },
            Ok(None) => {
                return Ok(None);
            },
            Ok(Some(elapsed)) => elapsed,
        };
        plan.add_record(
            self.context(),
            RecordKind::StepElapsed,
            None,
            RecordPlace { page: None, target: None, item: None },
        );
        if let Some(failure) = plan.failure {
            return Err(failure);
        }
        self.step = None;
        Ok(Some(elapsed))
    }

    /// Begins a step: the one before it ends uncompleted, and no physical
    /// action is known of the new one.
    pub fn begin_step(&mut self, plan: &mut RecordPlan, index: u32, action_id: u128, now: u64) -> (
    result: Result<Option<StepElapsed>, DiagnosticFailure>)
        requires
            well_numbered(old(plan)@),
            old(plan)@.failure is None,
        ensures
            well_numbered(final(plan)@),
            match old(self).step {
                Some(step) => now < step.started_ms,
                None => false,
            } ==> result == Err::<Option<StepElapsed>, _>(DiagnosticFailure::StepClockRegressed)
                && *final(self) == *old(self) && final(plan)@ == old(plan)@,
            match old(self).step {
                Some(step) => now >= step.started_ms,
                None => true,
            } ==> {
                let ended = step_end_planned(*old(self), old(plan)@);
                let begun = TaskDiagnostic {
                    step: Some(DiagnosticStep { index, action_id, started_ms: now }),
                    physical_action_id: None,
                    frame_id: old(self).frame_id,
                };
                if ended.failure is Some {
                    &&& result == Err::<Option<StepElapsed>, _>(ended.failure->0)
                    &&& *final(self) == *old(self)
                    &&& final(plan)@ == ended
                } else {
                    &&& *final(self) == begun
                    &&& final(plan)@ == planned(
                        ended,
                        context_of(begun),
                        RecordKind::StepStarted,
                        None,
                        nowhere(),
                    )
                    &&& match final(plan)@.failure {
                        Some(failure) => result == Err::<Option<StepElapsed>, _>(failure),
                        None => result == Ok::<_, DiagnosticFailure>(
                            match old(self).step {
                                Some(step) => Some(
                                    StepElapsed {
                                        step_index: step.index,
                                        started_monotonic_ms: step.started_ms,
                                        ended_monotonic_ms: now,
                                        elapsed_ms: (now - step.started_ms) as u64,
                                        completed: false,
                                    },
                                ),
                                None => None,
                            },
                        ),
                    }
                }
            },
    {
        let elapsed = self.end_step(plan, now, false)?;
        self.physical_action_id = None;
        self.step = Some(DiagnosticStep { index, action_id, started_ms: now });
        plan.add_record(
            self.context(),
            RecordKind::StepStarted,
            None,
            RecordPlace { page: None, target: None, item: None },
        );
        match plan.failure {
            Some(failure) => Err(failure),
            None => Ok(elapsed),
        }
    }
}

/// A plan that failed plans nothing more, whatever is added to it.
pub proof fn law_failed_plan_stays(plan: RecordPlanView, context: RecordContext, batch: BatchShape)
    requires
        plan.failure is Some,
    ensures
        batch_planned(plan, context, batch) == plan,
{
    lemma_pages_stay(plan, context, batch.pages@);
    if batch.unexecuted is Some {
        lemma_skipped_stay(plan, context, batch.unexecuted->0 as nat);
    }
}

proof fn lemma_items_stay(
    plan: RecordPlanView,
    context: RecordContext,
    kind: RecordKind,
    parent_index: Option<u64>,
    place: RecordPlace,
    listing: Seq<(usize, usize)>,
)
    requires
        plan.failure is Some,
    ensures
        items_planned(plan, context, kind, parent_index, place, listing) == plan,
    decreases listing.len(),
{
    if listing.len() > 0 {
        lemma_items_stay(plan, context, kind, parent_index, place, listing.drop_last());
    }
}

proof fn lemma_targets_stay(
    plan: RecordPlanView,
    context: RecordContext,
    parent_index: Option<u64>,
    page: usize,
    targets: Seq<TargetShape>,
)
    requires
        plan.failure is Some,
    ensures
        targets_planned(plan, context, parent_index, page, targets) == plan,
    decreases targets.len(),
{
    if targets.len() > 0 {
        lemma_targets_stay(plan, context, parent_index, page, targets.drop_last());
        if let Some(labels) = targets.last().labels {
            lemma_items_stay(
                plan,
                context,
                RecordKind::NnLabel,
                Some(last_index(plan)),
                RecordPlace {
                    page: Some(page),
                    target: Some((targets.len() - 1) as usize),
                    item: None,
                },
                source_listing(labels@),
            );
        }
    }
}

proof fn lemma_pages_stay(plan: RecordPlanView, context: RecordContext, pages: Seq<PageShape>)
    requires
        plan.failure is Some,
    ensures
        pages_planned(plan, context, pages) == plan,
    decreases pages.len(),
{
    if pages.len() > 0 {
        lemma_pages_stay(plan, context, pages.drop_last());
        lemma_targets_stay(
            plan,
            context,
            Some(last_index(plan)),
            (pages.len() - 1) as usize,
            pages.last().targets@,
        );
    }
}

proof fn lemma_skipped_stay(plan: RecordPlanView, context: RecordContext, count: nat)
    requires
        plan.failure is Some,
    ensures
        skipped_planned(plan, context, count) == plan,
    decreases count,
{
    if count > 0 {
        lemma_skipped_stay(plan, context, (count - 1) as nat);
    }
}

/// Each planned record gets the next number, and a plan whose numbers run out
/// fails without a record.
pub proof fn law_records_are_numbered_in_order(
    plan: RecordPlanView,
    context: RecordContext,
    kind: RecordKind,
    parent_index: Option<u64>,
    place: RecordPlace,
)
    requires
        plan.failure is None,
        0 <= plan.written,
    ensures
        plan.written + plan.records.len() < u64::MAX ==> ({
            let after = planned(plan, context, kind, parent_index, place);
            &&& after.failure is None
            &&& after.written == plan.written
            &&& after.records.len() == plan.records.len() + 1
            &&& after.records.drop_last() == plan.records
            &&& after.records.last().index == plan.written + plan.records.len() + 1
            &&& after.records.last().kind == kind
            &&& after.records.last().parent_index == parent_index
            &&& after.records.last().place == place
            &&& after.records.last().context == context
        }),
        plan.written + plan.records.len() >= u64::MAX ==> planned(
            plan,
            context,
            kind,
            parent_index,
            place,
        ).failure is Some && planned(plan, context, kind, parent_index, place).records
            == plan.records,
{
    if plan.written + plan.records.len() < u64::MAX {
        assert(planned(plan, context, kind, parent_index, place).records.drop_last()
            =~= plan.records);
    }
}

/// A text whose blocks are not listed each once is a failure of the plan.
pub proof fn law_blocks_must_be_listed(
    plan: RecordPlanView,
    context: RecordContext,
    parent_index: Option<u64>,
    place: RecordPlace,
    text: TextShape,
)
    requires
        plan.failure is None,
        text.blocks != text.source_order@.len(),
    ensures
        blocks_planned(plan, context, parent_index, place, text).failure == Some(
            DiagnosticFailure::SourceOrderMismatch,
        ),
        blocks_planned(plan, context, parent_index, place, text).records == plan.records,
{
}

/// The items of a list become one record each, in their order, all of one kind
/// under one parent.
pub proof fn law_every_item_is_planned(
    plan: RecordPlanView,
    context: RecordContext,
    kind: RecordKind,
    parent_index: Option<u64>,
    place: RecordPlace,
    listing: Seq<(usize, usize)>,
    index: int,
)
    requires
        plan.failure is None,
        0 <= plan.written,
        plan.written + plan.records.len() + listing.len() <= u64::MAX,
    ensures
        ({
            let after = items_planned(plan, context, kind, parent_index, place, listing);
            &&& after.failure is None
            &&& after.written == plan.written
            &&& after.records.len() == plan.records.len() + listing.len()
            &&& (0 <= index < plan.records.len() ==> after.records[index] == plan.records[index])
            &&& (0 <= index < listing.len() ==> ({
                let record = after.records[plan.records.len() + index];
                record.kind == kind && record.parent_index == parent_index && record.place.item
                    == Some(listing[index]) && record.place.page == place.page && record.place.target
                    == place.target && record.index == plan.written + plan.records.len() + index + 1
            }))
        }),
    decreases listing.len(),
{
    if listing.len() > 0 {
        law_every_item_is_planned(
            plan,
            context,
            kind,
            parent_index,
            place,
            listing.drop_last(),
            index,
        );
    }
}

/// A guard that failed or was skipped is one record that says so; one that was
/// evaluated begins with a record of its target.
pub proof fn law_guard_is_planned_by_its_end(
    plan: RecordPlanView,
    context: RecordContext,
)
    requires
        plan.failure is None,
        0 <= plan.written,
        plan.written + plan.records.len() < u64::MAX,
    ensures
        guard_planned(plan, context, GuardShape::Failed).records.len() == plan.records.len() + 1,
        guard_planned(plan, context, GuardShape::Failed).records.last().kind == RecordKind::Error,
        guard_planned(plan, context, GuardShape::Skipped).records.len() == plan.records.len() + 1,
        guard_planned(plan, context, GuardShape::Skipped).records.last().kind
            == RecordKind::Unexecuted,
{
}

/// Every page that was not reached has a record of its own that says so.
pub proof fn law_skipped_pages_are_planned(
    plan: RecordPlanView,
    context: RecordContext,
    count: nat,
    index: int,
)
    requires
        plan.failure is None,
        0 <= plan.written,
        plan.written + plan.records.len() + count <= u64::MAX,
        count <= usize::MAX,
    ensures
        ({
            let after = skipped_planned(plan, context, count);
            &&& after.failure is None
            &&& after.written == plan.written
            &&& after.records.len() == plan.records.len() + count
            &&& (0 <= index < count ==> after.records[plan.records.len() + index].kind
                == RecordKind::Unexecuted && after.records[plan.records.len() + index].place.page
                == Some(index as usize))
        }),
    decreases count,
{
    if count > 0 {
        law_skipped_pages_are_planned(plan, context, (count - 1) as nat, index);
    }
}

} // verus!
