//! The history of conversations: the records and lines that a session is kept in,
//! how a session is put together from them again, and the list of sessions.

use crate::clock::Timestamp;
use crate::ids::{is_session_file_name, session_file};
use crate::preview::{compact_preview, preview_of};
use crate::sessions::{
    attempt_list, message_list, AttemptModel, AttemptRecord, ConversationSession, MessageModel,
    MetadataModel, SessionMetadata, SessionModel, SessionSummary, StoredMessage,
    SummaryModel,
};
use crate::text::{failure, joined};
use vstd::prelude::*;

verus! {

/// One record of a session.
#[derive(Debug)]
pub enum PersistedRecord {
    Metadata { metadata: SessionMetadata },
    Message { message: StoredMessage },
    Attempt { attempt: AttemptRecord },
}

/// What a record holds.
pub enum RecordModel {
    Metadata(MetadataModel),
    Message(MessageModel),
    Attempt(AttemptModel),
}

impl View for PersistedRecord {
    type V = RecordModel;

    open spec fn view(&self) -> RecordModel {
        match self {
            PersistedRecord::Metadata { metadata } => RecordModel::Metadata(metadata@),
            PersistedRecord::Message { message } => RecordModel::Message(message@),
            PersistedRecord::Attempt { attempt } => RecordModel::Attempt(attempt@),
        }
    }
}

impl Clone for PersistedRecord {
    fn clone(&self) -> (copy: Self)
        ensures
            copy@ == self@,
    {
        match self {
            PersistedRecord::Metadata { metadata } => PersistedRecord::Metadata {
                metadata: metadata.clone(),
            },
            PersistedRecord::Message { message } => PersistedRecord::Message {
                message: message.clone(),
            },
            PersistedRecord::Attempt { attempt } => PersistedRecord::Attempt {
                attempt: attempt.clone(),
            },
        }
    }
}

/// What a list of records holds.
pub open spec fn record_list(records: Seq<PersistedRecord>) -> Seq<RecordModel> {
    records.map_values(|record: PersistedRecord| record@)
}

/// The records of a session: its metadata, its messages and its attempts.
pub open spec fn records_of(session: SessionModel) -> Seq<RecordModel> {
    seq![RecordModel::Metadata(session.metadata)] + session.messages.map_values(
        |message: MessageModel| RecordModel::Message(message),
    ) + session.attempts.map_values(|attempt: AttemptModel| RecordModel::Attempt(attempt))
}

/// The records that a session is saved as, in their order.
pub fn save_session(session: &ConversationSession) -> (records: Vec<PersistedRecord>)
    ensures
        record_list(records@) == records_of(session.model()),
{
    let ghost model = session.model();
    let ghost first = seq![RecordModel::Metadata(model.metadata)];
    let ghost middle = model.messages.map_values(
        |message: MessageModel| RecordModel::Message(message),
    );
    let ghost rest = model.attempts.map_values(
        |attempt: AttemptModel| RecordModel::Attempt(attempt),
    );
    let mut records: Vec<PersistedRecord> = Vec::new();
    records.push(PersistedRecord::Metadata { metadata: session.metadata.clone() });
    assert(record_list(records@) =~= first + middle.take(0));
    let mut i: usize = 0;
    while i < session.messages.len()
        invariant
            i <= session.messages.len(),
            model == session.model(),
            middle == model.messages.map_values(
                |message: MessageModel| RecordModel::Message(message),
            ),
            record_list(records@) == first + middle.take(i as int),
        decreases session.messages.len() - i,
    {
        let ghost before = records@;
        records.push(PersistedRecord::Message { message: session.messages[i].clone() });
        assert(record_list(records@) =~= record_list(before).push(middle[i as int]));
        assert(middle.take(i + 1) =~= middle.take(i as int).push(middle[i as int]));
        assert(record_list(records@) =~= first + middle.take(i + 1));
        i += 1;
    }
    assert(middle.take(middle.len() as int) =~= middle);
    assert(record_list(records@) =~= first + middle + rest.take(0));
    let mut j: usize = 0;
    while j < session.attempts.len()
        invariant
            j <= session.attempts.len(),
            model == session.model(),
            rest == model.attempts.map_values(
                |attempt: AttemptModel| RecordModel::Attempt(attempt),
            ),
            record_list(records@) == first + middle + rest.take(j as int),
        decreases session.attempts.len() - j,
    {
        let ghost before = records@;
        records.push(PersistedRecord::Attempt { attempt: session.attempts[j].clone() });
        assert(record_list(records@) =~= record_list(before).push(rest[j as int]));
        assert(rest.take(j + 1) =~= rest.take(j as int).push(rest[j as int]));
        assert(record_list(records@) =~= first + middle + rest.take(j + 1));
        j += 1;
    }
    assert(rest.take(rest.len() as int) =~= rest);
    records
}

/// The byte that ends a line.
pub const NEWLINE: u8 = 10;

/// The byte that may stand before the end of a line.
pub const RETURN: u8 = 13;

/// The contents of a file that holds the lines.
pub open spec fn payload_of(lines: Seq<Seq<u8>>) -> Seq<u8>
    decreases lines.len(),
{
    if lines.len() == 0 {
        seq![]
    } else {
        payload_of(lines.drop_last()) + lines.last().push(NEWLINE)
    }
}

/// Appends an encoded record as one line.
pub fn write_record(target: &mut Vec<u8>, encoded: &[u8])
    ensures
        final(target)@ == old(target)@ + encoded@.push(NEWLINE),
{
    let mut i: usize = 0;
    while i < encoded.len()
        invariant
            i <= encoded@.len(),
            target@ == old(target)@ + encoded@.take(i as int),
        decreases encoded@.len() - i,
    {
        target.push(encoded[i]);
        assert(encoded@.take(i + 1) =~= encoded@.take(i as int).push(encoded@[i as int]));
        assert(target@ =~= old(target)@ + encoded@.take(i + 1));
        i += 1;
    }
    target.push(NEWLINE);
    assert(encoded@.take(encoded@.len() as int) =~= encoded@);
    assert(target@ =~= old(target)@ + encoded@.push(NEWLINE));
}

/// What a list of byte strings holds.
pub open spec fn line_list(lines: Seq<Vec<u8>>) -> Seq<Seq<u8>> {
    lines.map_values(|line: Vec<u8>| line@)
}

/// The contents of the file of a session, from its encoded records.
pub fn session_payload(encoded: &Vec<Vec<u8>>) -> (payload: Vec<u8>)
    ensures
        payload@ == payload_of(line_list(encoded@)),
{
    let mut payload: Vec<u8> = Vec::new();
    let ghost lines = line_list(encoded@);
    let mut i: usize = 0;
    assert(lines.take(0) =~= seq![]);
    while i < encoded.len()
        invariant
            i <= encoded.len(),
            lines == line_list(encoded@),
            payload@ == payload_of(lines.take(i as int)),
        decreases encoded.len() - i,
    {
        write_record(&mut payload, encoded[i].as_slice());
        assert(lines.take(i + 1).drop_last() =~= lines.take(i as int));
        assert(lines.take(i + 1).last() == encoded@[i as int]@);
        i += 1;
    }
    assert(lines.take(lines.len() as int) =~= lines);
    payload
}

/// A line without the return byte that may end it.
pub open spec fn without_return(line: Seq<u8>) -> Seq<u8> {
    if line.len() > 0 && line.last() == RETURN {
        line.drop_last()
    } else {
        line
    }
}

/// The lines of what is left of a file, when a part of the first line was read
/// already. A line ends with a newline, which a return may stand before; the last
/// line may lack it.
pub open spec fn lines_from(part: Seq<u8>, rest: Seq<u8>) -> Seq<Seq<u8>>
    decreases rest.len(),
{
    if rest.len() == 0 {
        if part.len() == 0 {
            seq![]
        } else {
            seq![part]
        }
    } else if rest[0] == NEWLINE {
        seq![without_return(part)] + lines_from(seq![], rest.drop_first())
    } else {
        lines_from(part.push(rest[0]), rest.drop_first())
    }
}

/// The lines of a file.
pub open spec fn lines_of(payload: Seq<u8>) -> Seq<Seq<u8>> {
    lines_from(seq![], payload)
}

/// The lines that were read of a file. Where reading broke off, the line in which it
/// did is none of them.
pub open spec fn lines_read(payload: Seq<u8>, complete: bool) -> Seq<Seq<u8>> {
    if complete || payload.len() == 0 || payload.last() == NEWLINE {
        lines_of(payload)
    } else {
        lines_of(payload).drop_last()
    }
}

/// The lines of the file of a session, of which the whole or, where reading broke off,
/// a beginning was read.
pub fn session_lines(payload: &[u8], complete: bool) -> (lines: Vec<Vec<u8>>)
    ensures
        line_list(lines@) == lines_read(payload@, complete),
{
    let mut lines: Vec<Vec<u8>> = Vec::new();
    let mut part: Vec<u8> = Vec::new();
    let total: usize = payload.len();
    let mut i: usize = 0;
    assert(payload@.skip(0) =~= payload@);
    assert(line_list(lines@) =~= seq![]);
    assert(part@ =~= seq![]);
    assert(lines_of(payload@) =~= line_list(lines@) + lines_from(part@, payload@.skip(0)));
    while i < total
        invariant
            total == payload@.len(),
            i <= total,
            lines_of(payload@) == line_list(lines@) + lines_from(part@, payload@.skip(i as int)),
            part@.len() > 0 <==> i > 0 && payload@[i - 1] != NEWLINE,
        decreases total - i,
    {
        let byte = payload[i];
        let ghost before = lines@;
        let ghost head = part@;
        let ghost tail = payload@.skip(i + 1);
        assert(payload@.skip(i as int).drop_first() =~= tail);
        assert(payload@.skip(i as int)[0] == byte);
        if byte == NEWLINE {
            if part.len() > 0 && part[part.len() - 1] == RETURN {
                part.pop();
            }
            assert(part@ =~= without_return(head));
            lines.push(part);
            assert(line_list(lines@) =~= line_list(before).push(without_return(head)));
            part = Vec::new();
            assert(part@ =~= seq![]);
            assert(line_list(before) + (seq![without_return(head)] + lines_from(seq![], tail))
                =~= line_list(lines@) + lines_from(seq![], tail));
        } else {
            part.push(byte);
        }
        i += 1;
    }
    assert(payload@.skip(total as int) =~= seq![]);
    if part.len() > 0 {
        let ghost before = lines@;
        let ghost last = part@;
        assert(lines_of(payload@).drop_last() =~= line_list(before));
        if complete {
            lines.push(part);
            assert(line_list(lines@) =~= line_list(before) + seq![last]);
        }
    } else {
        assert(line_list(lines@) =~= line_list(lines@) + seq![]);
    }
    lines
}

/// A byte string that comes back from a file as it was written: it has no newline
/// in it and no return at its end.
pub open spec fn is_one_line(line: Seq<u8>) -> bool {
    &&& forall|i: int| 0 <= i < line.len() ==> #[trigger] line[i] != NEWLINE
    &&& line.len() > 0 ==> line.last() != RETURN
}

/// Reading on to the end of a line.
proof fn lemma_lines_from_line(part: Seq<u8>, line: Seq<u8>, rest: Seq<u8>)
    requires
        forall|i: int| 0 <= i < line.len() ==> #[trigger] line[i] != NEWLINE,
    ensures
        lines_from(part, line + seq![NEWLINE] + rest) == seq![without_return(part + line)]
            + lines_from(seq![], rest),
    decreases line.len(),
{
    let all = line + seq![NEWLINE] + rest;
    if line.len() == 0 {
        assert(all.drop_first() =~= rest);
        assert(part + line =~= part);
    } else {
        assert(all.drop_first() =~= line.drop_first() + seq![NEWLINE] + rest);
        lemma_lines_from_line(part.push(line[0]), line.drop_first(), rest);
        assert(part.push(line[0]) + line.drop_first() =~= part + line);
    }
}

/// The contents of a file, from its first line on.
proof fn lemma_payload_first(lines: Seq<Seq<u8>>)
    requires
        lines.len() > 0,
    ensures
        payload_of(lines) == lines[0] + seq![NEWLINE] + payload_of(lines.drop_first()),
    decreases lines.len(),
{
    let shorter = lines.drop_last();
    if lines.len() == 1 {
        assert(shorter =~= seq![]);
        assert(lines.drop_first() =~= seq![]);
        assert(payload_of(lines) =~= lines[0] + seq![NEWLINE] + payload_of(lines.drop_first()));
    } else {
        lemma_payload_first(shorter);
        assert(lines.drop_first().drop_last() =~= shorter.drop_first());
        assert(payload_of(lines) =~= lines[0] + seq![NEWLINE] + payload_of(lines.drop_first()));
    }
}

/// The lines that a file was written with are the lines that are read from it.
pub proof fn written_lines_are_read_back(lines: Seq<Seq<u8>>)
    requires
        forall|i: int| 0 <= i < lines.len() ==> is_one_line(#[trigger] lines[i]),
    ensures
        lines_of(payload_of(lines)) == lines,
    decreases lines.len(),
{
    if lines.len() > 0 {
        let rest = lines.drop_first();
        lemma_payload_first(lines);
        assert forall|i: int| 0 <= i < rest.len() implies is_one_line(#[trigger] rest[i]) by {
            assert(rest[i] == lines[i + 1]);
        }
        written_lines_are_read_back(rest);
        assert(is_one_line(lines[0]));
        lemma_lines_from_line(seq![], lines[0], payload_of(rest));
        assert(Seq::<u8>::empty() + lines[0] =~= lines[0]);
        assert(lines_of(payload_of(lines)) =~= lines);
    } else {
        assert(lines_of(payload_of(lines)) =~= lines);
    }
}

/// What came of reading one line of the file of a session.
#[derive(Debug)]
pub enum LoadedLine {
    /// The line could not be read, for this reason.
    Unreadable(String),
    /// The line is blank.
    Blank,
    /// The line is no record, for this reason.
    Damaged(String),
    Record(PersistedRecord),
}

/// What of a session was loaded from some lines, or why loading failed.
pub enum LoadModel {
    Loading {
        metadata: Option<MetadataModel>,
        messages: Seq<MessageModel>,
        attempts: Seq<AttemptModel>,
    },
    Failed(Seq<char>),
}

/// What a line adds to what was loaded before it. The last metadata stand.
pub open spec fn load_line(before: LoadModel, line: LoadedLine) -> LoadModel {
    match before {
        LoadModel::Failed(_) => before,
        LoadModel::Loading { metadata, messages, attempts } => match line {
            LoadedLine::Unreadable(reason) => LoadModel::Failed(
                "Could not read this history item: "@ + reason@,
            ),
            LoadedLine::Blank => before,
            LoadedLine::Damaged(reason) => LoadModel::Failed(
                "This history item is damaged: "@ + reason@,
            ),
            LoadedLine::Record(record) => load_record(before, record@),
        },
    }
}

/// What a record adds to what was loaded before it.
pub open spec fn load_record(before: LoadModel, record: RecordModel) -> LoadModel {
    match before {
        LoadModel::Failed(_) => before,
        LoadModel::Loading { metadata, messages, attempts } => match record {
            RecordModel::Metadata(metadata) => LoadModel::Loading {
                metadata: Some(metadata),
                messages,
                attempts,
            },
            RecordModel::Message(message) => LoadModel::Loading {
                metadata,
                messages: messages.push(message),
                attempts,
            },
            RecordModel::Attempt(attempt) => LoadModel::Loading {
                metadata,
                messages,
                attempts: attempts.push(attempt),
            },
        },
    }
}

/// Nothing was loaded yet.
pub open spec fn load_start() -> LoadModel {
    LoadModel::Loading { metadata: None, messages: seq![], attempts: seq![] }
}

/// What was loaded from some lines.
pub open spec fn load_lines(lines: Seq<LoadedLine>) -> LoadModel
    decreases lines.len(),
{
    if lines.len() == 0 {
        load_start()
    } else {
        load_line(load_lines(lines.drop_last()), lines.last())
    }
}

/// What was loaded from some records.
pub open spec fn load_records(records: Seq<RecordModel>) -> LoadModel
    decreases records.len(),
{
    if records.len() == 0 {
        load_start()
    } else {
        load_record(load_records(records.drop_last()), records.last())
    }
}

/// The session that was loaded, or why there is none.
pub open spec fn loaded(load: LoadModel) -> Result<SessionModel, Seq<char>> {
    match load {
        LoadModel::Failed(reason) => Err(reason),
        LoadModel::Loading { metadata: Some(metadata), messages, attempts } => Ok(
            SessionModel { metadata, messages, attempts },
        ),
        LoadModel::Loading { metadata: None, .. } => Err("This history item has no metadata."@),
    }
}

/// The metadata that were loaded, if any.
pub open spec fn metadata_option(metadata: Option<SessionMetadata>) -> Option<MetadataModel> {
    match metadata {
        Some(metadata) => Some(metadata@),
        None => None,
    }
}

/// The session in a file, from the lines of the file or the reason why it could not be
/// opened.
pub open spec fn loaded_file(opened: Result<Vec<LoadedLine>, String>) -> Result<
    SessionModel,
    Seq<char>,
> {
    match opened {
        Ok(lines) => loaded(load_lines(lines@)),
        Err(reason) => Err("Could not open this history item: "@ + reason@),
    }
}

/// Puts a session together from the lines of its file, if the file could be opened.
pub fn load_session(opened: Result<Vec<LoadedLine>, String>) -> (r: Result<
    ConversationSession,
    String,
>)
    ensures
        match r {
            Ok(session) => loaded_file(opened) == Ok::<SessionModel, Seq<char>>(session.model()),
            Err(reason) => loaded_file(opened) == Err::<SessionModel, Seq<char>>(reason@),
        },
{
    let lines = match opened {
        Ok(lines) => lines,
        Err(reason) => {
            return Err(joined("Could not open this history item: ", reason.as_str()));
        },
    };
    let ghost all = lines@;
    let mut metadata: Option<SessionMetadata> = None;
    let mut messages: Vec<StoredMessage> = Vec::new();
    let mut attempts: Vec<AttemptRecord> = Vec::new();
    assert(message_list(messages@) =~= seq![]);
    assert(attempt_list(attempts@) =~= seq![]);
    assert(all.take(0) =~= seq![]);
    for line in it: lines
        invariant
            it.seq() == all,
            loaded_file(opened) == loaded(load_lines(all)),
            load_lines(all.take(it.index() as int)) == (LoadModel::Loading {
                metadata: metadata_option(metadata),
                messages: message_list(messages@),
                attempts: attempt_list(attempts@),
            }),
    {
        let ghost done = all.take(it.index() as int);
        let ghost now = all.take(it.index() + 1);
        assert(now.drop_last() =~= done);
        assert(now.last() == line);
        match line {
            LoadedLine::Unreadable(reason) => {
                proof {
                    lemma_failure_stays(all, it.index() + 1);
                }
                return Err(joined("Could not read this history item: ", reason.as_str()));
            },
            LoadedLine::Blank => {},
            LoadedLine::Damaged(reason) => {
                proof {
                    lemma_failure_stays(all, it.index() + 1);
                }
                return Err(joined("This history item is damaged: ", reason.as_str()));
            },
            LoadedLine::Record(record) => match record {
                PersistedRecord::Metadata { metadata: value } => {
                    metadata = Some(value);
                },
                PersistedRecord::Message { message } => {
                    let ghost before = messages@;
                    messages.push(message);
                    assert(message_list(messages@) =~= message_list(before).push(message@));
                },
                PersistedRecord::Attempt { attempt } => {
                    let ghost before = attempts@;
                    attempts.push(attempt);
                    assert(attempt_list(attempts@) =~= attempt_list(before).push(attempt@));
                },
            },
        }
    }
    assert(all.take(all.len() as int) =~= all);
    match metadata {
        Some(metadata) => Ok(ConversationSession { metadata, messages, attempts }),
        None => Err("This history item has no metadata.".to_owned()),
    }
}

/// Once loading has failed, more lines do not change the reason.
proof fn lemma_failure_stays(lines: Seq<LoadedLine>, n: int)
    requires
        0 <= n <= lines.len(),
        load_lines(lines.take(n)) is Failed,
    ensures
        load_lines(lines) == load_lines(lines.take(n)),
    decreases lines.len() - n,
{
    if n < lines.len() {
        assert(lines.take(n + 1).drop_last() =~= lines.take(n));
        lemma_failure_stays(lines, n + 1);
    } else {
        assert(lines.take(n) =~= lines);
    }
}

/// Records of one kind after records that were loaded: what each of them adds.
proof fn lemma_load_messages(start: Seq<RecordModel>, messages: Seq<MessageModel>)
    requires
        load_records(start) is Loading,
    ensures
        load_records(
            start + messages.map_values(|message: MessageModel| RecordModel::Message(message)),
        ) == (LoadModel::Loading {
            metadata: load_records(start)->metadata,
            messages: load_records(start)->messages + messages,
            attempts: load_records(start)->attempts,
        }),
    decreases messages.len(),
{
    let records = messages.map_values(|message: MessageModel| RecordModel::Message(message));
    if messages.len() == 0 {
        assert(start + records =~= start);
        assert(load_records(start)->messages + messages =~= load_records(start)->messages);
    } else {
        let fewer = messages.drop_last();
        lemma_load_messages(start, fewer);
        assert((start + records).drop_last() =~= start + fewer.map_values(
            |message: MessageModel| RecordModel::Message(message),
        ));
        assert((load_records(start)->messages + fewer).push(messages.last())
            =~= load_records(start)->messages + messages);
    }
}

proof fn lemma_load_attempts(start: Seq<RecordModel>, attempts: Seq<AttemptModel>)
    requires
        load_records(start) is Loading,
    ensures
        load_records(
            start + attempts.map_values(|attempt: AttemptModel| RecordModel::Attempt(attempt)),
        ) == (LoadModel::Loading {
            metadata: load_records(start)->metadata,
            messages: load_records(start)->messages,
            attempts: load_records(start)->attempts + attempts,
        }),
    decreases attempts.len(),
{
    let records = attempts.map_values(|attempt: AttemptModel| RecordModel::Attempt(attempt));
    if attempts.len() == 0 {
        assert(start + records =~= start);
        assert(load_records(start)->attempts + attempts =~= load_records(start)->attempts);
    } else {
        let fewer = attempts.drop_last();
        lemma_load_attempts(start, fewer);
        assert((start + records).drop_last() =~= start + fewer.map_values(
            |attempt: AttemptModel| RecordModel::Attempt(attempt),
        ));
        assert((load_records(start)->attempts + fewer).push(attempts.last())
            =~= load_records(start)->attempts + attempts);
    }
}

/// The records that a session is saved as load as that session.
pub proof fn saved_records_load_back(session: SessionModel)
    ensures
        loaded(load_records(records_of(session))) == Ok::<SessionModel, Seq<char>>(session),
{
    let first = seq![RecordModel::Metadata(session.metadata)];
    let messages = session.messages.map_values(
        |message: MessageModel| RecordModel::Message(message),
    );
    assert(first.drop_last() =~= seq![]);
    assert(load_records(seq![]) == load_start());
    lemma_load_messages(first, session.messages);
    lemma_load_attempts(first + messages, session.attempts);
    assert(Seq::<MessageModel>::empty() + session.messages =~= session.messages);
    assert(Seq::<AttemptModel>::empty() + session.attempts =~= session.attempts);
}

/// Lines that hold records, with blank lines between them, load as the records.
pub proof fn blank_lines_do_not_matter(lines: Seq<LoadedLine>, records: Seq<RecordModel>)
    requires
        forall|i: int|
            0 <= i < lines.len() ==> (#[trigger] lines[i] is Blank || lines[i] is Record),
        records == record_lines(lines),
    ensures
        load_lines(lines) == load_records(records),
    decreases lines.len(),
{
    if lines.len() > 0 {
        let fewer = lines.drop_last();
        assert forall|i: int| 0 <= i < fewer.len() implies (#[trigger] fewer[i] is Blank
            || fewer[i] is Record) by {
            assert(fewer[i] == lines[i]);
        }
        blank_lines_do_not_matter(fewer, record_lines(fewer));
        assert(lines[lines.len() - 1] == lines.last());
        lemma_records_load(record_lines(fewer));
        if lines.last() is Record {
            assert(records.drop_last() =~= record_lines(fewer));
        }
    }
}

/// The records among the lines.
pub open spec fn record_lines(lines: Seq<LoadedLine>) -> Seq<RecordModel>
    decreases lines.len(),
{
    if lines.len() == 0 {
        seq![]
    } else {
        let before = record_lines(lines.drop_last());
        match lines.last() {
            LoadedLine::Record(record) => before.push(record@),
            _ => before,
        }
    }
}

/// Loading records does not fail.
proof fn lemma_records_load(records: Seq<RecordModel>)
    ensures
        load_records(records) is Loading,
    decreases records.len(),
{
    if records.len() > 0 {
        lemma_records_load(records.drop_last());
    }
}

/// A session that is saved and loaded again is the same session, whatever encodes
/// its records, as long as each of them is encoded as one line that decodes to it.
pub proof fn saved_session_loads_back(
    session: SessionModel,
    encode: spec_fn(RecordModel) -> Seq<u8>,
    decode: spec_fn(Seq<u8>) -> RecordModel,
)
    requires
        forall|i: int|
            0 <= i < records_of(session).len() ==> {
                let record = #[trigger] records_of(session)[i];
                is_one_line(encode(record)) && decode(encode(record)) == record
            },
    ensures
        loaded(
            load_records(lines_of(payload_of(records_of(session).map_values(encode))).map_values(decode)),
        ) == Ok::<SessionModel, Seq<char>>(session),
{
    let records = records_of(session);
    let lines = records.map_values(encode);
    assert forall|i: int| 0 <= i < lines.len() implies is_one_line(#[trigger] lines[i]) by {
        assert(lines[i] == encode(records[i]));
    }
    written_lines_are_read_back(lines);
    assert forall|i: int| 0 <= i < lines.len() implies lines.map_values(decode)[i] == records[i] by {
        assert(lines[i] == encode(records[i]));
    }
    assert(lines.map_values(decode) =~= records);
    saved_records_load_back(session);
}

/// What a list of summaries holds.
pub open spec fn summary_list(summaries: Seq<SessionSummary>) -> Seq<SummaryModel> {
    summaries.map_values(|summary: SessionSummary| summary@)
}

/// The summary of a session.
pub open spec fn summary_of(metadata: MetadataModel) -> SummaryModel {
    SummaryModel {
        session_id: metadata.session_id,
        action: metadata.action,
        preview: preview_of(metadata.selected_text),
        updated_at: metadata.updated_at,
    }
}

/// The summaries of the sessions whose files begin with the records. A file that
/// does not begin with metadata has none.
pub open spec fn summaries_of(records: Seq<RecordModel>) -> Seq<SummaryModel>
    decreases records.len(),
{
    if records.len() == 0 {
        seq![]
    } else {
        let before = summaries_of(records.drop_last());
        match records.last() {
            RecordModel::Metadata(metadata) => before.push(summary_of(metadata)),
            _ => before,
        }
    }
}

/// No session in the list was updated before one that comes after it.
pub open spec fn is_newest_first(summaries: Seq<SummaryModel>) -> bool {
    forall|i: int, j: int|
        0 <= i < j < summaries.len() ==> !(#[trigger] summaries[i]).updated_at.before(
            (#[trigger] summaries[j]).updated_at,
        )
}

/// The sessions in the list that were updated at a time.
pub open spec fn updated_at(summaries: Seq<SummaryModel>, time: Timestamp) -> Seq<SummaryModel> {
    summaries.filter(|summary: SummaryModel| summary.updated_at == time)
}

/// `sorted` has the sessions of `summaries`, each as often, the last updated ones
/// first, and sessions that were updated at the same time in the order that they had.
pub open spec fn is_sorted_listing(sorted: Seq<SummaryModel>, summaries: Seq<SummaryModel>) -> bool {
    &&& sorted.to_multiset() == summaries.to_multiset()
    &&& is_newest_first(sorted)
    &&& forall|time: Timestamp| #[trigger] updated_at(sorted, time) == updated_at(summaries, time)
}

/// Putting a session in its place: behind those that were not updated before it,
/// and in front of those that were.
proof fn lemma_place(
    sorted: Seq<SummaryModel>,
    summaries: Seq<SummaryModel>,
    summary: SummaryModel,
    at: int,
)
    requires
        is_sorted_listing(sorted, summaries),
        0 <= at <= sorted.len(),
        forall|i: int| 0 <= i < at ==> !(#[trigger] sorted[i]).updated_at.before(summary.updated_at),
        at < sorted.len() ==> sorted[at].updated_at.before(summary.updated_at),
    ensures
        is_sorted_listing(sorted.insert(at, summary), summaries.push(summary)),
{
    let longer = sorted.insert(at, summary);
    vstd::seq_lib::to_multiset_insert(sorted, at, summary);
    vstd::seq_lib::to_multiset_build(summaries, summary);
    assert forall|j: int| at <= j < sorted.len() implies (#[trigger] sorted[j]).updated_at.before(
        summary.updated_at,
    ) by {
        if j > at {
            assert(!sorted[at].updated_at.before(sorted[j].updated_at));
        }
    }
    assert forall|i: int, j: int| 0 <= i < j < longer.len() implies !(
    #[trigger] longer[i]).updated_at.before((#[trigger] longer[j]).updated_at) by {
        if i < at {
            assert(longer[i] == sorted[i]);
            if j > at {
                assert(longer[j] == sorted[j - 1]);
            }
        } else if i == at {
            assert(longer[j] == sorted[j - 1]);
        } else {
            assert(longer[i] == sorted[i - 1]);
            assert(longer[j] == sorted[j - 1]);
        }
    }
    assert forall|time: Timestamp| #[trigger] updated_at(longer, time) == updated_at(
        summaries.push(summary),
        time,
    ) by {
        let same = |s: SummaryModel| s.updated_at == time;
        let front = sorted.take(at);
        let back = sorted.skip(at);
        assert(sorted =~= front + back);
        assert(longer =~= front.push(summary) + back);
        Seq::filter_distributes_over_add(front, back, same);
        Seq::filter_distributes_over_add(front.push(summary), back, same);
        front.lemma_filter_push(summary, same);
        summaries.lemma_filter_push(summary, same);
        assert(updated_at(sorted, time) == updated_at(summaries, time));
        if summary.updated_at == time {
            lemma_filter_none(back, same);
            assert(back.filter(same) =~= seq![]);
            assert(updated_at(longer, time) =~= updated_at(summaries.push(summary), time));
        }
    }
}

proof fn lemma_filter_none(list: Seq<SummaryModel>, keep: spec_fn(SummaryModel) -> bool)
    requires
        forall|i: int| 0 <= i < list.len() ==> !keep(#[trigger] list[i]),
    ensures
        list.filter(keep).len() == 0,
    decreases list.len(),
{
    reveal(Seq::filter);
    if list.len() > 0 {
        lemma_filter_none(list.drop_last(), keep);
    }
}

/// The list of sessions, from the records that their files begin with: the last
/// updated sessions first.
pub fn list_sessions(records: Vec<PersistedRecord>) -> (summaries: Vec<SessionSummary>)
    ensures
        is_sorted_listing(summary_list(summaries@), summaries_of(record_list(records@))),
{
    let ghost all = record_list(records@);
    let mut summaries: Vec<SessionSummary> = Vec::new();
    proof {
        assert(all.take(0) =~= seq![]);
        assert(summary_list(summaries@) =~= seq![]);
    }
    for record in it: records
        invariant
            all == record_list(it.seq()),
            is_sorted_listing(
                summary_list(summaries@),
                summaries_of(all.take(it.index() as int)),
            ),
    {
        let ghost done = all.take(it.index() as int);
        let ghost now = all.take(it.index() + 1);
        assert(now.drop_last() =~= done);
        assert(now.last() == record@);
        match record {
            PersistedRecord::Metadata { metadata } => {
                let summary = SessionSummary {
                    session_id: metadata.session_id,
                    action: metadata.action,
                    preview: compact_preview(metadata.selected_text.as_str()),
                    updated_at: metadata.updated_at,
                };
                let ghost sorted = summary_list(summaries@);
                let mut at: usize = 0;
                while at < summaries.len() && !summaries[at].updated_at.is_before(
                    &summary.updated_at,
                )
                    invariant
                        at <= summaries@.len(),
                        sorted == summary_list(summaries@),
                        forall|i: int|
                            0 <= i < at ==> !(#[trigger] sorted[i]).updated_at.before(
                                summary.updated_at,
                            ),
                    decreases summaries@.len() - at,
                {
                    assert(sorted[at as int] == summaries@[at as int]@);
                    at += 1;
                }
                proof {
                    if at < summaries@.len() {
                        assert(sorted[at as int] == summaries@[at as int]@);
                    }
                    lemma_place(sorted, summaries_of(done), summary@, at as int);
                }
                let ghost before = summaries@;
                summaries.insert(at, summary);
                assert(summary_list(summaries@) =~= sorted.insert(at as int, summary@));
            },
            _ => {},
        }
    }
    assert(all.take(all.len() as int) =~= all);
    summaries
}

/// How the removal of a file ended.
#[derive(Debug)]
pub enum RemoveOutcome {
    Removed,
    NotFound,
    Failed(String),
}

/// Why a session could not be deleted, if it could not. One that was not there is
/// deleted.
pub open spec fn deletion_failure(outcome: RemoveOutcome) -> Option<Seq<char>> {
    match outcome {
        RemoveOutcome::Removed => None,
        RemoveOutcome::NotFound => None,
        RemoveOutcome::Failed(reason) => Some("Could not delete this history item: "@ + reason@),
    }
}

/// Decides whether a session was deleted.
pub fn delete_session(outcome: RemoveOutcome) -> (r: Result<(), String>)
    ensures
        failure(r) == deletion_failure(outcome),
{
    match outcome {
        RemoveOutcome::Removed => Ok(()),
        RemoveOutcome::NotFound => Ok(()),
        RemoveOutcome::Failed(reason) => Err(
            joined("Could not delete this history item: ", reason.as_str()),
        ),
    }
}

/// The folder of sessions: the contents of each file, by its name.
pub type Folder = Map<Seq<char>, Seq<u8>>;

/// The removal of a file of the folder may end so: a file that is there is removed, one
/// that is not there is not found, and a removal that fails changes nothing.
pub open spec fn may_remove(
    before: Folder,
    name: Seq<char>,
    outcome: RemoveOutcome,
    after: Folder,
) -> bool {
    match outcome {
        RemoveOutcome::Removed => before.dom().contains(name) && after == before.remove(name),
        RemoveOutcome::NotFound => !before.dom().contains(name) && after == before,
        RemoveOutcome::Failed(_) => after == before,
    }
}

/// Opening a file of the folder may end so: only a file that is there is opened.
pub open spec fn may_open(
    folder: Folder,
    name: Seq<char>,
    opened: Result<Vec<LoadedLine>, String>,
) -> bool {
    opened is Ok ==> folder.dom().contains(name)
}

/// The file is looked at for the list of sessions.
pub open spec fn is_listed(folder: Folder, name: Seq<char>) -> bool {
    folder.dom().contains(name) && is_session_file_name(name)
}

/// A session that was deleted is gone: its file is neither loaded nor listed any more,
/// and every other file is as it was. Deleting it again succeeds, too, unless the
/// removal fails, and changes nothing.
pub proof fn deleted_session_is_gone(
    session_id: Seq<char>,
    before: Folder,
    outcome: RemoveOutcome,
    after: Folder,
    opened: Result<Vec<LoadedLine>, String>,
    again: RemoveOutcome,
    later: Folder,
)
    requires
        session_file(session_id) is Some,
        may_remove(before, session_file(session_id)->0, outcome, after),
        deletion_failure(outcome) is None,
        may_open(after, session_file(session_id)->0, opened),
        may_remove(after, session_file(session_id)->0, again, later),
    ensures
        loaded_file(opened) is Err,
        !is_listed(after, session_file(session_id)->0),
        forall|name: Seq<char>|
            name != session_file(session_id)->0 ==> {
                &&& #[trigger] after.dom().contains(name) == before.dom().contains(name)
                &&& after[name] == before[name]
                &&& is_listed(after, name) == is_listed(before, name)
            },
        !(again is Failed) ==> deletion_failure(again) is None,
        later == after,
{
}

/// Records are seen as they are.
pub proof fn records_are_seen_whole(
    metadata: SessionMetadata,
    message: StoredMessage,
    attempt: AttemptRecord,
)
    ensures
        (PersistedRecord::Metadata { metadata })@ == RecordModel::Metadata(metadata@),
        (PersistedRecord::Message { message })@ == RecordModel::Message(message@),
        (PersistedRecord::Attempt { attempt })@ == RecordModel::Attempt(attempt@),
{
}

/// A session is saved as one record of its metadata, then one record for each message and
/// then one for each attempt, in their order, and nothing else.
pub proof fn session_is_saved_in_order(session: SessionModel)
    ensures
        ({
            let records = records_of(session);
            let m = session.messages.len();
            &&& records.len() == 1 + m + session.attempts.len()
            &&& records[0] == RecordModel::Metadata(session.metadata)
            &&& forall|i: int|
                0 <= i < m ==> records[1 + i] == RecordModel::Message(
                    #[trigger] session.messages[i],
                )
            &&& forall|i: int|
                0 <= i < session.attempts.len() ==> records[1 + m + i] == RecordModel::Attempt(
                    #[trigger] session.attempts[i],
                )
        }),
{
}

/// A file holds each line as it is with one newline byte behind it.
pub proof fn each_line_ends_with_a_newline(lines: Seq<Seq<u8>>, line: Seq<u8>)
    ensures
        payload_of(seq![]).len() == 0,
        payload_of(lines.push(line)) == payload_of(lines) + line + seq![10u8],
{
    assert(lines.push(line).drop_last() =~= lines);
    assert(payload_of(lines) + line.push(10u8) =~= payload_of(lines) + line + seq![10u8]);
}

proof fn lemma_lines_from_rest(part: Seq<u8>, rest: Seq<u8>)
    requires
        forall|i: int| 0 <= i < rest.len() ==> #[trigger] rest[i] != NEWLINE,
    ensures
        lines_from(part, rest) == if part.len() + rest.len() == 0 {
            seq![]
        } else {
            seq![part + rest]
        },
    decreases rest.len(),
{
    if rest.len() == 0 {
        assert(part + rest =~= part);
    } else {
        assert forall|i: int| 0 <= i < rest.drop_first().len() implies #[trigger] rest.drop_first()[i]
            != NEWLINE by {
            assert(rest.drop_first()[i] == rest[i + 1]);
        }
        lemma_lines_from_rest(part.push(rest[0]), rest.drop_first());
        assert(part.push(rest[0]) + rest.drop_first() =~= part + rest);
    }
}

/// Any file is read line by line: up to the first newline byte, without that byte and
/// without one return byte before it, and then on from there. What has no newline byte
/// behind it is a line as it is, unless it is empty.
pub proof fn files_are_read_line_by_line(line: Seq<u8>, rest: Seq<u8>)
    requires
        forall|i: int| 0 <= i < line.len() ==> #[trigger] line[i] != 10u8,
    ensures
        lines_of(line + seq![10u8] + rest) == seq![
            if line.len() > 0 && line.last() == 13u8 {
                line.drop_last()
            } else {
                line
            },
        ] + lines_of(rest),
        line.len() > 0 ==> lines_of(line) == seq![line],
        lines_of(seq![]).len() == 0,
{
    lemma_lines_from_line(seq![], line, rest);
    lemma_lines_from_rest(seq![], line);
    assert(Seq::<u8>::empty() + line =~= line);
}

proof fn lemma_lines_from_end(part: Seq<u8>, payload: Seq<u8>, line: Seq<u8>)
    requires
        payload.len() > 0,
        payload.last() == NEWLINE,
        line.len() > 0,
        forall|i: int| 0 <= i < line.len() ==> #[trigger] line[i] != NEWLINE,
    ensures
        lines_from(part, payload + line) == lines_from(part, payload).push(line),
    decreases payload.len(),
{
    let rest = payload.drop_first();
    assert((payload + line).drop_first() =~= rest + line);
    assert((payload + line)[0] == payload[0]);
    if payload.len() == 1 {
        assert(rest =~= seq![]);
        assert(rest + line =~= line);
        lemma_lines_from_rest(seq![], line);
        assert(Seq::<u8>::empty() + line =~= line);
        assert(seq![without_return(part)] + seq![line] =~= (seq![without_return(part)] + lines_from(
            seq![],
            rest,
        )).push(line));
    } else {
        assert(rest.last() == payload.last());
        if payload[0] == NEWLINE {
            lemma_lines_from_end(seq![], rest, line);
            assert(seq![without_return(part)] + lines_from(seq![], rest).push(line) =~= (seq![
                without_return(part),
            ] + lines_from(seq![], rest)).push(line));
        } else {
            lemma_lines_from_end(part.push(payload[0]), rest, line);
        }
    }
}

/// Where reading broke off in a line, the lines before it were read and it was not; a
/// file that was read to its end, or up to the end of a line, gives all its lines.
pub proof fn broken_off_line_is_not_read(payload: Seq<u8>, line: Seq<u8>, complete: bool)
    requires
        payload.len() == 0 || payload.last() == 10u8,
        line.len() > 0,
        forall|i: int| 0 <= i < line.len() ==> #[trigger] line[i] != 10u8,
    ensures
        lines_read(payload, complete) == lines_of(payload),
        lines_read(payload + line, true) == lines_of(payload).push(line),
        lines_read(payload + line, false) == lines_of(payload),
{
    let all = payload + line;
    assert(all.last() == line.last());
    assert(line[line.len() - 1] != 10u8);
    if payload.len() == 0 {
        assert(all =~= line);
        lemma_lines_from_rest(seq![], line);
        assert(Seq::<u8>::empty() + line =~= line);
        assert(lines_of(all) =~= lines_of(payload).push(line));
    } else {
        lemma_lines_from_end(seq![], payload, line);
    }
    assert(lines_of(all).drop_last() =~= lines_of(payload));
}

/// Each line adds what it holds to what was loaded before it: metadata take the place of
/// earlier ones, a message and an attempt come last, a blank line adds nothing.
pub proof fn lines_add_up(
    lines: Seq<LoadedLine>,
    metadata: SessionMetadata,
    message: StoredMessage,
    attempt: AttemptRecord,
)
    requires
        load_lines(lines) is Loading,
    ensures
        load_lines(seq![]) == (LoadModel::Loading {
            metadata: None,
            messages: seq![],
            attempts: seq![],
        }),
        load_lines(lines.push(LoadedLine::Blank)) == load_lines(lines),
        load_lines(lines.push(LoadedLine::Record(PersistedRecord::Metadata { metadata }))) == (
        LoadModel::Loading {
            metadata: Some(metadata@),
            messages: load_lines(lines)->messages,
            attempts: load_lines(lines)->attempts,
        }),
        load_lines(lines.push(LoadedLine::Record(PersistedRecord::Message { message }))) == (
        LoadModel::Loading {
            metadata: load_lines(lines)->metadata,
            messages: load_lines(lines)->messages.push(message@),
            attempts: load_lines(lines)->attempts,
        }),
        load_lines(lines.push(LoadedLine::Record(PersistedRecord::Attempt { attempt }))) == (
        LoadModel::Loading {
            metadata: load_lines(lines)->metadata,
            messages: load_lines(lines)->messages,
            attempts: load_lines(lines)->attempts.push(attempt@),
        }),
{
    assert(lines.push(LoadedLine::Blank).drop_last() =~= lines);
    assert(lines.push(
        LoadedLine::Record(PersistedRecord::Metadata { metadata }),
    ).drop_last() =~= lines);
    assert(lines.push(
        LoadedLine::Record(PersistedRecord::Message { message }),
    ).drop_last() =~= lines);
    assert(lines.push(
        LoadedLine::Record(PersistedRecord::Attempt { attempt }),
    ).drop_last() =~= lines);
}

proof fn lemma_good_lines_load(lines: Seq<LoadedLine>)
    requires
        forall|i: int|
            0 <= i < lines.len() ==> (#[trigger] lines[i] is Blank || lines[i] is Record),
    ensures
        load_lines(lines) is Loading,
    decreases lines.len(),
{
    if lines.len() > 0 {
        let fewer = lines.drop_last();
        assert forall|i: int| 0 <= i < fewer.len() implies (#[trigger] fewer[i] is Blank
            || fewer[i] is Record) by {
            assert(fewer[i] == lines[i]);
        }
        lemma_good_lines_load(fewer);
        assert(lines[lines.len() - 1] == lines.last());
    }
}

/// The first line that could not be read, or is no record, is why a session is not loaded,
/// whatever comes after it.
pub proof fn first_bad_line_is_reported(lines: Vec<LoadedLine>, at: int)
    requires
        0 <= at < lines@.len(),
        forall|i: int| 0 <= i < at ==> (#[trigger] lines@[i] is Blank || lines@[i] is Record),
    ensures
        lines@[at] is Unreadable ==> loaded_file(Ok(lines)) == Err::<SessionModel, Seq<char>>(
            "Could not read this history item: "@ + lines@[at]->Unreadable_0@,
        ),
        lines@[at] is Damaged ==> loaded_file(Ok(lines)) == Err::<SessionModel, Seq<char>>(
            "This history item is damaged: "@ + lines@[at]->Damaged_0@,
        ),
{
    let good = lines@.take(at);
    let upto = lines@.take(at + 1);
    assert forall|i: int| 0 <= i < good.len() implies (#[trigger] good[i] is Blank || good[i]
        is Record) by {
        assert(good[i] == lines@[i]);
    }
    lemma_good_lines_load(good);
    assert(upto.drop_last() =~= good);
    assert(upto.last() == lines@[at]);
    if lines@[at] is Unreadable || lines@[at] is Damaged {
        lemma_failure_stays(lines@, at + 1);
    }
}

/// Where every line is blank or a record, the session is loaded exactly when there were
/// metadata, and it is what the lines added up to.
pub proof fn good_lines_load(lines: Vec<LoadedLine>)
    requires
        forall|i: int|
            0 <= i < lines@.len() ==> (#[trigger] lines@[i] is Blank || lines@[i] is Record),
    ensures
        load_lines(lines@) is Loading,
        load_lines(lines@)->metadata is Some ==> loaded_file(Ok(lines)) == Ok::<
            SessionModel,
            Seq<char>,
        >(
            SessionModel {
                metadata: load_lines(lines@)->metadata->0,
                messages: load_lines(lines@)->messages,
                attempts: load_lines(lines@)->attempts,
            },
        ),
        load_lines(lines@)->metadata is None ==> loaded_file(Ok(lines)) == Err::<
            SessionModel,
            Seq<char>,
        >("This history item has no metadata."@),
{
    lemma_good_lines_load(lines@);
}

/// A file that could not be opened is not loaded, and the reason is passed on.
pub proof fn unopened_file_is_not_loaded(reason: String)
    ensures
        loaded_file(Err(reason)) == Err::<SessionModel, Seq<char>>(
            "Could not open this history item: "@ + reason@,
        ),
{
}

/// The metadata among some records, in their order.
pub open spec fn metadata_among(records: Seq<RecordModel>) -> Seq<MetadataModel> {
    records.filter(|record: RecordModel| record is Metadata).map_values(
        |record: RecordModel| record->Metadata_0,
    )
}

proof fn lemma_summaries(records: Seq<RecordModel>)
    ensures
        summaries_of(records) == metadata_among(records).map_values(
            |metadata: MetadataModel|
                SummaryModel {
                    session_id: metadata.session_id,
                    action: metadata.action,
                    preview: preview_of(metadata.selected_text),
                    updated_at: metadata.updated_at,
                },
        ),
    decreases records.len(),
{
    reveal(Seq::filter);
    let summarize = |metadata: MetadataModel|
        SummaryModel {
            session_id: metadata.session_id,
            action: metadata.action,
            preview: preview_of(metadata.selected_text),
            updated_at: metadata.updated_at,
        };
    if records.len() == 0 {
        assert(summaries_of(records) =~= metadata_among(records).map_values(summarize));
    } else {
        let fewer = records.drop_last();
        lemma_summaries(fewer);
        if records.last() is Metadata {
            assert(metadata_among(records) =~= metadata_among(fewer).push(
                records.last()->Metadata_0,
            ));
        } else {
            assert(metadata_among(records) =~= metadata_among(fewer));
        }
        assert(summaries_of(records) =~= metadata_among(records).map_values(summarize));
    }
}

/// The list has one line for each metadata record that was given, whatever its action, as
/// often as it was given, and no other line. Each line has the identifier, the action, the
/// preview of the selected text and the time of the update of its session.
pub proof fn every_session_is_listed(records: Seq<RecordModel>, list: Seq<SummaryModel>)
    requires
        is_sorted_listing(list, summaries_of(records)),
    ensures
        list.len() == metadata_among(records).len(),
        list.to_multiset() == metadata_among(records).map_values(
            |metadata: MetadataModel|
                SummaryModel {
                    session_id: metadata.session_id,
                    action: metadata.action,
                    preview: preview_of(metadata.selected_text),
                    updated_at: metadata.updated_at,
                },
        ).to_multiset(),
        forall|i: int|
            0 <= i < records.len() && (#[trigger] records[i]) is Metadata ==> list.contains(
                SummaryModel {
                    session_id: records[i]->Metadata_0.session_id,
                    action: records[i]->Metadata_0.action,
                    preview: preview_of(records[i]->Metadata_0.selected_text),
                    updated_at: records[i]->Metadata_0.updated_at,
                },
            ),
{
    lemma_summaries(records);
    let summaries = summaries_of(records);
    list.to_multiset_ensures();
    summaries.to_multiset_ensures();
    let is_metadata = |record: RecordModel| record is Metadata;
    let kept = records.filter(is_metadata);
    assert forall|i: int| 0 <= i < records.len() && (#[trigger] records[i])
        is Metadata implies list.contains(
        SummaryModel {
            session_id: records[i]->Metadata_0.session_id,
            action: records[i]->Metadata_0.action,
            preview: preview_of(records[i]->Metadata_0.selected_text),
            updated_at: records[i]->Metadata_0.updated_at,
        },
    ) by {
        let summary = SummaryModel {
            session_id: records[i]->Metadata_0.session_id,
            action: records[i]->Metadata_0.action,
            preview: preview_of(records[i]->Metadata_0.selected_text),
            updated_at: records[i]->Metadata_0.updated_at,
        };
        broadcast use vstd::seq_lib::group_filter_ensures;

        assert(kept.contains(records[i]));
        let k = choose|k: int| 0 <= k < kept.len() && kept[k] == records[i];
        assert(summaries[k] == summary);
        assert(summaries.contains(summary));
        assert(summaries.to_multiset().count(summary) > 0);
        assert(list.to_multiset().count(summary) > 0);
    }
}

/// The list is newest first: of two lines the earlier one was not updated before the later
/// one, by the seconds or, in the same second, by the nanoseconds. Sessions that were
/// updated at the same time stay in the order in which they were given.
pub proof fn list_is_newest_first(
    records: Seq<RecordModel>,
    list: Seq<SummaryModel>,
    i: int,
    j: int,
    time: Timestamp,
)
    requires
        is_sorted_listing(list, summaries_of(records)),
        0 <= i < j < list.len(),
    ensures
        list[i].updated_at.seconds >= list[j].updated_at.seconds,
        list[i].updated_at.seconds == list[j].updated_at.seconds ==> list[i].updated_at.nanos
            >= list[j].updated_at.nanos,
        list.filter(|summary: SummaryModel| summary.updated_at == time) == summaries_of(
            records,
        ).filter(|summary: SummaryModel| summary.updated_at == time),
{
    assert(!list[i].updated_at.before(list[j].updated_at));
    assert(updated_at(list, time) == updated_at(summaries_of(records), time));
}

/// Lists are seen item by item.
pub proof fn lists_are_seen_whole(
    records: Seq<PersistedRecord>,
    lines: Seq<Vec<u8>>,
    summaries: Seq<SessionSummary>,
    i: int,
)
    ensures
        record_list(records).len() == records.len(),
        0 <= i < records.len() ==> record_list(records)[i] == records[i]@,
        line_list(lines).len() == lines.len(),
        0 <= i < lines.len() ==> line_list(lines)[i] == lines[i]@,
        summary_list(summaries).len() == summaries.len(),
        0 <= i < summaries.len() ==> summary_list(summaries)[i] == summaries[i]@,
{
}

/// A session that is not there is deleted as well as one that is; a removal that fails says
/// why.
pub proof fn only_failed_removals_fail(reason: String)
    ensures
        deletion_failure(RemoveOutcome::Removed) is None,
        deletion_failure(RemoveOutcome::NotFound) is None,
        deletion_failure(RemoveOutcome::Failed(reason)) == Some(
            "Could not delete this history item: "@ + reason@,
        ),
{
}

}
