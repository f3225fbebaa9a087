//! Bounded transaction reader. The end of the input is temporary until
//! finish() is called.
use crate::change_event::events::{event_at, ChangeEvent, Payload};
use crate::change_event::model::{
    ChangeTransaction, RowChange, Source, SourceCursor, FORMAT, HISTORICAL_FORMAT, LEGACY_FORMAT,
    PREVIOUS_FORMAT,
};
use crate::change_event::validate::{parts_fault, validate, ValidatedTransaction};
use crate::json::{same_value, Contract};
use crate::text::{concat4, same};
use vstd::prelude::*;

verus! {

/// How many bytes a transaction may have.
pub const MAX_BYTES: usize = 0x400_0000;

/// Why a reader stopped.
#[derive(Debug, Clone, PartialEq, Eq)]
pub struct ReadError {
    message: String,
}

impl ReadError {
    pub closed spec fn text(&self) -> Seq<char> {
        self.message@
    }

    pub fn new(message: &str) -> (result: Self)
        ensures
            result.text() == message@,
    {
        ReadError { message: message.to_owned() }
    }

    pub fn message(&self) -> (result: &str)
        ensures
            result@ == self.text(),
    {
        self.message.as_str()
    }
}

/// What the events of one transaction have in common.
#[derive(Debug)]
pub struct Opened {
    pub source: Source,
    pub id: String,
    pub begin_cursor: SourceCursor,
    pub commit_cursor: SourceCursor,
}

/// How far a reader has come.
pub struct Progress {
    /// The bytes of a line that has not ended.
    pub line: Seq<u8>,
    /// The size of a line that was handed out and not yet followed.
    pub handed: int,
    /// The transaction that has begun.
    pub opened: Option<Opened>,
    /// Its changes.
    pub changes: Seq<RowChange>,
    /// The size of its lines.
    pub bytes: int,
    pub failed: bool,
}

/// What came of an event.
pub enum Reading {
    /// The transaction goes on.
    Open,
    /// The transaction is complete.
    Complete(Opened, Seq<RowChange>),
    /// The reader stops.
    Stop(Seq<char>),
}

/// A format that can be read from a source of the kind.
pub open spec fn supported(format: Seq<char>, kind: Seq<char>) -> bool {
    format == FORMAT@ || format == PREVIOUS_FORMAT@ || ((format == LEGACY_FORMAT@ || format
        == HISTORICAL_FORMAT@) && kind == "mysql"@)
}

/// The event belongs to the transaction, and to the next place in it.
pub open spec fn continues(opened: Opened, changes: Seq<RowChange>, event: ChangeEvent) -> bool {
    &&& opened.source.doc() == event.source.doc()
    &&& opened.id@ == event.transaction.id@
    &&& opened.begin_cursor.doc() == event.transaction.begin_cursor.doc()
    &&& opened.commit_cursor.doc() == event.transaction.commit_cursor.doc()
    &&& event.transaction.sequence as int == changes.len() + 1
}

/// What comes of an event.
pub open spec fn reading(progress: Progress, event: ChangeEvent) -> Reading {
    if progress.failed {
        Reading::Stop("reader stopped after an earlier error"@)
    } else if !supported(event.format@, event.source.kind@) {
        Reading::Stop(
            "unsupported ChangeEvent format "@ + event.format@ + "; recapture with "@ + FORMAT@,
        )
    } else if progress.opened matches Some(opened) && !continues(opened, progress.changes, event) {
        Reading::Stop("interleaved transaction or inconsistent identity/cursor/sequence"@)
    } else {
        match event.payload {
            Payload::TransactionBegin => if progress.opened is Some || event.transaction.sequence
                != 0 {
                Reading::Stop("nested transaction or invalid begin sequence"@)
            } else {
                Reading::Open
            },
            Payload::RowChange { change } => if progress.opened is Some {
                Reading::Open
            } else {
                Reading::Stop("row without begin"@)
            },
            Payload::TransactionCommit { change_count } => match progress.opened {
                None => Reading::Stop("commit without begin"@),
                Some(opened) => if progress.changes.len() != change_count as int {
                    Reading::Stop("commit change_count mismatch"@)
                } else {
                    match parts_fault(
                        opened.source,
                        opened.id@,
                        opened.begin_cursor,
                        opened.commit_cursor,
                        progress.changes,
                    ) {
                        Some(fault) => Reading::Stop(fault),
                        None => Reading::Complete(opened, progress.changes),
                    }
                },
            },
        }
    }
}

/// How far the reader has come after an event.
pub open spec fn followed(progress: Progress, event: ChangeEvent) -> Progress {
    match reading(progress, event) {
        Reading::Stop(_) => Progress { failed: true, ..progress },
        Reading::Complete(_, _) => Progress {
            opened: None,
            changes: Seq::empty(),
            bytes: 0,
            handed: 0,
            ..progress
        },
        Reading::Open => {
            let bytes = progress.bytes + progress.handed;
            match event.payload {
                Payload::RowChange { change } => Progress {
                    changes: progress.changes.push(*change),
                    bytes,
                    handed: 0,
                    ..progress
                },
                _ => Progress {
                    opened: Some(
                        Opened {
                            source: event.source,
                            id: event.transaction.id,
                            begin_cursor: event.transaction.begin_cursor,
                            commit_cursor: event.transaction.commit_cursor,
                        },
                    ),
                    changes: Seq::empty(),
                    bytes,
                    handed: 0,
                    ..progress
                },
            }
        },
    }
}

fn is_supported(format: &str, kind: &str) -> (result: bool)
    ensures
        result == supported(format@, kind@),
{
    same(format, FORMAT) || same(format, PREVIOUS_FORMAT) || ((same(format, LEGACY_FORMAT) || same(
        format,
        HISTORICAL_FORMAT,
    )) && same(kind, "mysql"))
}

fn does_continue(opened: &Opened, changes: &Vec<RowChange>, event: &ChangeEvent) -> (result: bool)
    ensures
        result == continues(*opened, changes@, *event),
{
    same_value(&opened.source, &event.source) && opened.id == event.transaction.id && same_value(
        &opened.begin_cursor,
        &event.transaction.begin_cursor,
    ) && same_value(&opened.commit_cursor, &event.transaction.commit_cursor)
        && event.transaction.sequence > 0 && event.transaction.sequence - 1 == changes.len()
}

/// How many bytes belong to the first line, its end included.
pub open spec fn line_length(available: Seq<u8>, from: int) -> int
    decreases available.len() - from,
{
    if from < 0 || from >= available.len() {
        available.len() as int
    } else if available[from] == 10 {
        from + 1
    } else {
        line_length(available, from + 1)
    }
}

/// The rest of the line fits.
pub open spec fn fits(progress: Progress, available: Seq<u8>) -> bool {
    progress.bytes + progress.handed + progress.line.len() + line_length(available, 0) <= MAX_BYTES
}

/// The bytes end a line.
pub open spec fn ends_line(bytes: Seq<u8>) -> bool {
    bytes.len() > 0 && bytes.last() == 10
}

/// What a reader took of the bytes that were offered.
#[derive(Debug)]
pub struct Taken {
    /// How many bytes were taken.
    pub consumed: usize,
    /// The line, where it has ended.
    pub line: Option<Vec<u8>>,
}

/// Offer the bytes at hand with take_line, and hand the event that a complete
/// line holds to next_transaction. Only complete, validated commits are
/// returned. Any error permanently stops this reader.
pub struct JsonReader {
    line: Vec<u8>,
    handed: usize,
    opened: Option<Opened>,
    changes: Vec<RowChange>,
    bytes: usize,
    failed: bool,
}

impl JsonReader {
    pub closed spec fn progress(&self) -> Progress {
        Progress {
            line: self.line@,
            handed: self.handed as int,
            opened: self.opened,
            changes: self.changes@,
            bytes: self.bytes as int,
            failed: self.failed,
        }
    }

    #[verifier::type_invariant]
    spec fn bounded(&self) -> bool {
        self.bytes + self.handed + self.line@.len() <= MAX_BYTES
    }

    pub fn new() -> (result: Self)
        ensures
            result.progress() == (Progress {
                line: Seq::empty(),
                handed: 0,
                opened: None,
                changes: Seq::empty(),
                bytes: 0,
                failed: false,
            }),
    {
        let result = JsonReader {
            line: Vec::new(),
            handed: 0,
            opened: None,
            changes: Vec::new(),
            bytes: 0,
            failed: false,
        };
        assert(result.line@ =~= Seq::empty());
        assert(result.changes@ =~= Seq::empty());
        result
    }

    /// Takes the rest of the line out of the bytes at hand.
    pub fn take_line(&mut self, available: &[u8]) -> (result: Result<Taken, ReadError>)
        ensures
            match result {
                Err(error) => {
                    &&& final(self).progress() == (Progress { failed: true, ..old(self).progress() })
                    &&& if old(self).progress().failed {
                        error.text() == "reader stopped after an earlier error"@
                    } else {
                        !fits(old(self).progress(), available@) && error.text()
                            == "JSON transaction exceeds 64 MiB"@
                    }
                },
                Ok(taken) => {
                    let before = old(self).progress();
                    let bytes = before.line + available@.take(taken.consumed as int);
                    &&& !before.failed && fits(before, available@)
                    &&& taken.consumed as int == line_length(available@, 0)
                    &&& match taken.line {
                        Some(line) => ends_line(available@.take(taken.consumed as int)) && line@
                            == bytes && final(self).progress() == (Progress {
                            line: Seq::empty(),
                            handed: before.handed + bytes.len(),
                            ..before
                        }),
                        None => !ends_line(available@.take(taken.consumed as int))
                            && final(self).progress() == (Progress { line: bytes, ..before }),
                    }
                },
            },
    {
        proof {
            use_type_invariant(&*self);
        }
        if self.failed {
            return Err(ReadError::new("reader stopped after an earlier error"));
        }
        let mut length: usize = 0;
        while length < available.len() && available[length] != 10
            invariant
                length <= available@.len(),
                line_length(available@, 0) == line_length(available@, length as int),
                forall|k: int| 0 <= k < length ==> available@[k] != 10,
            decreases available@.len() - length,
        {
            length += 1;
        }
        let complete = length < available.len();
        if complete {
            length += 1;
        }
        if length > MAX_BYTES - (self.bytes + self.handed + self.line.len()) {
            self.failed = true;
            return Err(ReadError::new("JSON transaction exceeds 64 MiB"));
        }
        let ghost before = self.progress();
        let mut line: Vec<u8> = Vec::new();
        std::mem::swap(&mut line, &mut self.line);
        let mut i: usize = 0;
        while i < length
            invariant
                i <= length <= available@.len(),
                line@ == before.line + available@.take(i as int),
            decreases length - i,
        {
            line.push(available[i]);
            assert(available@.take(i + 1) =~= available@.take(i as int).push(available@[i as int]));
            assert(line@ =~= before.line + available@.take(i + 1));
            i += 1;
        }
        assert(complete == ends_line(available@.take(length as int)));
        if complete {
            self.handed = self.handed + line.len();
            assert(self.line@ =~= Seq::empty());
            Ok(Taken { consumed: length, line: Some(line) })
        } else {
            self.line = line;
            Ok(Taken { consumed: length, line: None })
        }
    }

    /// Stops the reader: the line that it handed out holds no event.
    pub fn reject(&mut self, message: &str) -> (result: ReadError)
        ensures
            final(self).progress() == (Progress { failed: true, ..old(self).progress() }),
            result.text() == message@,
    {
        proof {
            use_type_invariant(&*self);
        }
        self.failed = true;
        ReadError::new(message)
    }

    /// Follows the event of the line that was handed out last.
    pub fn next_transaction(&mut self, event: ChangeEvent) -> (result: Result<
        Option<ValidatedTransaction>,
        ReadError,
    >)
        ensures
            match reading(old(self).progress(), event) {
                Reading::Open => result matches Ok(None),
                Reading::Complete(opened, changes) => result matches Ok(Some(validated))
                    && validated.inner().source == opened.source && validated.inner().id
                    == opened.id && validated.inner().begin_cursor == opened.begin_cursor
                    && validated.inner().commit_cursor == opened.commit_cursor
                    && validated.inner().changes@ == changes,
                Reading::Stop(message) => result matches Err(error) && error.text() == message,
            },
            reading(old(self).progress(), event) is Stop ==> final(self).progress().failed,
            !(reading(old(self).progress(), event) is Stop) ==> final(self).progress() == followed(
                old(self).progress(),
                event,
            ),
    {
        proof {
            use_type_invariant(&*self);
        }
        match self.follow(event) {
            Ok(complete) => Ok(complete),
            Err(error) => {
                proof {
                    use_type_invariant(&*self);
                }
                self.failed = true;
                Err(error)
            },
        }
    }

    fn follow(&mut self, event: ChangeEvent) -> (result: Result<
        Option<ValidatedTransaction>,
        ReadError,
    >)
        ensures
            match reading(old(self).progress(), event) {
                Reading::Open => result matches Ok(None),
                Reading::Complete(opened, changes) => result matches Ok(Some(validated))
                    && validated.inner().source == opened.source && validated.inner().id
                    == opened.id && validated.inner().begin_cursor == opened.begin_cursor
                    && validated.inner().commit_cursor == opened.commit_cursor
                    && validated.inner().changes@ == changes,
                Reading::Stop(message) => result matches Err(error) && error.text() == message,
            },
            !(reading(old(self).progress(), event) is Stop) ==> final(self).progress() == followed(
                old(self).progress(),
                event,
            ),
    {
        proof {
            use_type_invariant(&*self);
        }
        if self.failed {
            return Err(ReadError::new("reader stopped after an earlier error"));
        }
        if !is_supported(event.format.as_str(), event.source.kind.as_str()) {
            let message = concat4(
                "unsupported ChangeEvent format ",
                event.format.as_str(),
                "; recapture with ",
                FORMAT,
            );
            return Err(ReadError::new(message.as_str()));
        }
        if let Some(opened) = &self.opened {
            if !does_continue(opened, &self.changes, &event) {
                return Err(
                    ReadError::new(
                        "interleaved transaction or inconsistent identity/cursor/sequence",
                    ),
                );
            }
        }
        let handed: usize = self.handed;
        self.handed = 0;
        self.bytes = self.bytes + handed;
        match event.payload {
            Payload::TransactionBegin => {
                if self.opened.is_some() || event.transaction.sequence != 0 {
                    return Err(ReadError::new("nested transaction or invalid begin sequence"));
                }
                self.opened = Some(
                    Opened {
                        source: event.source,
                        id: event.transaction.id,
                        begin_cursor: event.transaction.begin_cursor,
                        commit_cursor: event.transaction.commit_cursor,
                    },
                );
                self.changes = Vec::new();
                assert(self.changes@ =~= Seq::empty());
                Ok(None)
            },
            Payload::RowChange { change } => {
                if self.opened.is_none() {
                    return Err(ReadError::new("row without begin"));
                }
                let mut changes: Vec<RowChange> = Vec::new();
                std::mem::swap(&mut changes, &mut self.changes);
                changes.push(*change);
                self.changes = changes;
                Ok(None)
            },
            Payload::TransactionCommit { change_count } => {
                let mut pending: Option<Opened> = None;
                std::mem::swap(&mut pending, &mut self.opened);
                let opened = match pending {
                    Some(opened) => opened,
                    None => {
                        return Err(ReadError::new("commit without begin"));
                    },
                };
                let mut changes: Vec<RowChange> = Vec::new();
                std::mem::swap(&mut changes, &mut self.changes);
                if changes.len() != change_count {
                    return Err(ReadError::new("commit change_count mismatch"));
                }
                let transaction = ChangeTransaction {
                    source: opened.source,
                    id: opened.id,
                    begin_cursor: opened.begin_cursor,
                    commit_cursor: opened.commit_cursor,
                    changes,
                };
                match validate(transaction) {
                    Ok(validated) => {
                        self.bytes = 0;
                        assert(self.changes@ =~= Seq::empty());
                        Ok(Some(validated))
                    },
                    Err(error) => Err(ReadError::new(error.message())),
                }
            },
        }
    }

    /// Finite input must end on a newline and a complete commit.
    pub fn finish(&self) -> (result: Result<(), ReadError>)
        ensures
            match result {
                Ok(_) => !self.progress().failed && self.progress().opened is None
                    && self.progress().line.len() == 0,
                Err(error) => (self.progress().failed || self.progress().opened is Some
                    || self.progress().line.len() > 0) && error.text()
                    == "incomplete or failed ChangeEvent transaction at end of input"@,
            },
    {
        if self.failed || self.opened.is_some() || self.line.len() > 0 {
            Err(ReadError::new("incomplete or failed ChangeEvent transaction at end of input"))
        } else {
            Ok(())
        }
    }
}

/// How far the reader has come after the first `count` events.
pub open spec fn followed_all(progress: Progress, events: Seq<ChangeEvent>, count: int) -> Progress
    decreases count,
{
    if count <= 0 {
        progress
    } else {
        followed(followed_all(progress, events, count - 1), events[count - 1])
    }
}

/// The events are those of the transaction, in their order.
pub open spec fn events_of(transaction: ChangeTransaction, events: Seq<ChangeEvent>) -> bool {
    &&& events.len() == transaction.changes@.len() + 2
    &&& forall|k: int|
        #![trigger events[k]]
        0 <= k < events.len() ==> {
            &&& events[k].doc() == event_at(transaction, k)
            &&& match events[k].payload {
                Payload::TransactionBegin => k == 0,
                Payload::RowChange { change } => 0 < k <= transaction.changes@.len() && *change
                    == transaction.changes@[k - 1],
                Payload::TransactionCommit { change_count } => k == events.len() - 1,
            }
        }
}

/// Reading the events of a valid transaction gives back that transaction, and
/// leaves the reader as it was: no event before the commit completes anything,
/// and the commit completes a transaction with the same identity, cursors and
/// changes.
pub proof fn law_reading_gives_back_what_was_written(
    transaction: ChangeTransaction,
    events: Seq<ChangeEvent>,
    progress: Progress,
)
    requires
        parts_fault(
            transaction.source,
            transaction.id@,
            transaction.begin_cursor,
            transaction.commit_cursor,
            transaction.changes@,
        ) is None,
        events_of(transaction, events),
        !progress.failed && progress.opened is None && progress.changes.len() == 0,
    ensures
        forall|k: int|
            0 <= k < events.len() - 1 ==> reading(
                #[trigger] followed_all(progress, events, k),
                events[k],
            ) is Open,
        reading(followed_all(progress, events, events.len() - 1), events.last()) matches
            Reading::Complete(opened, changes) && {
            &&& opened.source.doc() == transaction.source.doc()
            &&& opened.id@ == transaction.id@
            &&& opened.begin_cursor.doc() == transaction.begin_cursor.doc()
            &&& opened.commit_cursor.doc() == transaction.commit_cursor.doc()
            &&& changes == transaction.changes@
        },
        followed_all(progress, events, events.len() as int) == (Progress {
            handed: 0,
            bytes: 0,
            ..progress
        }),
{
    assert forall|k: int| 0 <= k < events.len() implies #[trigger] written(
        transaction,
        events[k],
        k,
    ) by {
        lemma_event_fields(transaction, events[k], k);
    }
    assert forall|k: int| 0 <= k < events.len() - 1 implies reading(
        #[trigger] followed_all(progress, events, k),
        events[k],
    ) is Open by {
        lemma_goes_on(transaction, events, progress, k);
    }
    lemma_completes(transaction, events, progress);
}

proof fn lemma_goes_on(
    transaction: ChangeTransaction,
    events: Seq<ChangeEvent>,
    progress: Progress,
    k: int,
)
    requires
        events_of(transaction, events),
        forall|j: int| 0 <= j < events.len() ==> #[trigger] written(transaction, events[j], j),
        !progress.failed && progress.opened is None && progress.changes.len() == 0,
        0 <= k < events.len() - 1,
    ensures
        reading(followed_all(progress, events, k), events[k]) is Open,
{
    assert(written(transaction, events[k], k));
    if k > 0 {
        lemma_underway(transaction, events, progress, k);
        let before = followed_all(progress, events, k);
        assert(continues(before.opened->0, before.changes, events[k]));
    }
}

proof fn lemma_completes(
    transaction: ChangeTransaction,
    events: Seq<ChangeEvent>,
    progress: Progress,
)
    requires
        parts_fault(
            transaction.source,
            transaction.id@,
            transaction.begin_cursor,
            transaction.commit_cursor,
            transaction.changes@,
        ) is None,
        events_of(transaction, events),
        forall|j: int| 0 <= j < events.len() ==> #[trigger] written(transaction, events[j], j),
        !progress.failed && progress.opened is None && progress.changes.len() == 0,
    ensures
        reading(followed_all(progress, events, events.len() - 1), events.last()) matches
            Reading::Complete(opened, changes) && {
            &&& opened.source.doc() == transaction.source.doc()
            &&& opened.id@ == transaction.id@
            &&& opened.begin_cursor.doc() == transaction.begin_cursor.doc()
            &&& opened.commit_cursor.doc() == transaction.commit_cursor.doc()
            &&& changes == transaction.changes@
        },
        followed_all(progress, events, events.len() as int) == (Progress {
            handed: 0,
            bytes: 0,
            ..progress
        }),
{
    let last = events.len() - 1;
    assert(written(transaction, events[last], last));
    lemma_underway(transaction, events, progress, last);
    let before = followed_all(progress, events, last);
    let opened = before.opened->0;
    lemma_same_parts(opened, transaction);
    assert(before.changes =~= transaction.changes@);
    assert(continues(opened, before.changes, events[last]));
    let after = followed(before, events[last]);
    assert(after == followed_all(progress, events, events.len() as int));
    assert(after.changes =~= progress.changes);
}

/// The event has the identity of the transaction and says what stands at `k`.
spec fn written(transaction: ChangeTransaction, event: ChangeEvent, k: int) -> bool {
    &&& event.format@ == FORMAT@
    &&& event.source.doc() == transaction.source.doc()
    &&& event.transaction.id@ == transaction.id@
    &&& event.transaction.sequence as int == k
    &&& event.transaction.begin_cursor.doc() == transaction.begin_cursor.doc()
    &&& event.transaction.commit_cursor.doc() == transaction.commit_cursor.doc()
    &&& event.payload matches Payload::TransactionCommit { change_count } ==> change_count as int
        == transaction.changes@.len()
}

proof fn lemma_event_fields(transaction: ChangeTransaction, event: ChangeEvent, k: int)
    requires
        event.doc() == event_at(transaction, k),
        0 <= k <= transaction.changes@.len() + 1,
        event.payload is TransactionCommit ==> k == transaction.changes@.len() + 1,
    ensures
        written(transaction, event, k),
{
    let left = event.doc()->Obj_0;
    let right = event_at(transaction, k)->Obj_0;
    assert(left[0] == right[0] && left[1] == right[1] && left[2] == right[2] && left[3]
        == right[3]);
    let here = left[2].1->Obj_0;
    let there = right[2].1->Obj_0;
    assert(here[0] == there[0] && here[1] == there[1] && here[2] == there[2] && here[3]
        == there[3]);
    if let Payload::TransactionCommit { change_count } = event.payload {
        let said = left[3].1->Obj_0;
        let meant = right[3].1->Obj_0;
        assert(said[1] == meant[1]);
    }
}

/// The transaction has begun, and `k - 1` of its changes were read.
spec fn underway(
    transaction: ChangeTransaction,
    events: Seq<ChangeEvent>,
    progress: Progress,
    k: int,
) -> bool {
    &&& !progress.failed
    &&& progress.opened matches Some(opened) && opened.source == events[0].source && opened.id
        == events[0].transaction.id && opened.begin_cursor == events[0].transaction.begin_cursor
        && opened.commit_cursor == events[0].transaction.commit_cursor && opened.source.doc()
        == transaction.source.doc() && opened.id@ == transaction.id@ && opened.begin_cursor.doc()
        == transaction.begin_cursor.doc() && opened.commit_cursor.doc()
        == transaction.commit_cursor.doc()
    &&& progress.changes == transaction.changes@.take(k - 1)
}

proof fn lemma_underway(
    transaction: ChangeTransaction,
    events: Seq<ChangeEvent>,
    progress: Progress,
    k: int,
)
    requires
        events_of(transaction, events),
        forall|j: int| 0 <= j < events.len() ==> #[trigger] written(transaction, events[j], j),
        !progress.failed && progress.opened is None && progress.changes.len() == 0,
        0 < k < events.len(),
    ensures
        underway(transaction, events, followed_all(progress, events, k), k),
        followed_all(progress, events, k).line == progress.line,
    decreases k,
{
    reveal_with_fuel(followed_all, 2);
    assert(written(transaction, events[k - 1], k - 1));
    if k == 1 {
        assert(events[0].payload is TransactionBegin);
        assert(followed_all(progress, events, 1).changes =~= transaction.changes@.take(0));
    } else {
        lemma_underway(transaction, events, progress, k - 1);
        let before = followed_all(progress, events, k - 1);
        assert(continues(before.opened->0, before.changes, events[k - 1]));
        assert(events[k - 1].payload is RowChange);
        assert(transaction.changes@.take(k - 1) =~= transaction.changes@.take(k - 2).push(
            transaction.changes@[k - 2],
        ));
    }
}

/// Parts with one form have one fault.
proof fn lemma_same_parts(opened: Opened, transaction: ChangeTransaction)
    requires
        opened.source.doc() == transaction.source.doc(),
        opened.id@ == transaction.id@,
        opened.begin_cursor.doc() == transaction.begin_cursor.doc(),
        opened.commit_cursor.doc() == transaction.commit_cursor.doc(),
    ensures
        parts_fault(
            opened.source,
            opened.id@,
            opened.begin_cursor,
            opened.commit_cursor,
            transaction.changes@,
        ) == parts_fault(
            transaction.source,
            transaction.id@,
            transaction.begin_cursor,
            transaction.commit_cursor,
            transaction.changes@,
        ),
{
    let left = opened.source.doc()->Obj_0;
    let right = transaction.source.doc()->Obj_0;
    assert(left[0] == right[0] && left[1] == right[1] && left[2] == right[2]);
    lemma_same_cursor(opened.begin_cursor, transaction.begin_cursor);
    lemma_same_cursor(opened.commit_cursor, transaction.commit_cursor);
}

proof fn lemma_same_cursor(left: SourceCursor, right: SourceCursor)
    requires
        left.doc() == right.doc(),
    ensures
        left.format@ == right.format@ && left.value@ == right.value@,
{
    let a = left.doc()->Obj_0;
    let b = right.doc()->Obj_0;
    assert(a[0] == b[0] && a[1] == b[1]);
}

} // verus!
