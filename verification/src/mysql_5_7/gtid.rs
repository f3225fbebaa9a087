//! Sets of global transaction identifiers.
use crate::mysql_5_7::error::{other, CaptureError, CaptureFault};
use crate::text::{
    concat4, contains_text, debug_spelling, debug_text, has_part, split, split_text, texts, trim, trimmed,
};
use mysql_common::packets::Sid;
use std::str::FromStr;
use vstd::prelude::*;

verus! {

/// The transactions of one source: its UUID, a tag where there is one, and
/// intervals of numbers without their ends.
#[derive(Debug)]
pub struct GtidEntry {
    pub uuid: Vec<u8>,
    pub tag: Option<String>,
    pub intervals: Vec<(u64, u64)>,
}

/// What an entry holds.
pub struct Gtids {
    pub uuid: Seq<u8>,
    pub tag: Option<Seq<char>>,
    pub intervals: Seq<(u64, u64)>,
}

impl View for GtidEntry {
    type V = Gtids;

    open spec fn view(&self) -> Gtids {
        Gtids {
            uuid: self.uuid@,
            tag: match self.tag {
                Some(tag) => Some(tag@),
                None => None,
            },
            intervals: self.intervals@,
        }
    }
}

/// The entry that `mysql_common` reads a text as, or the text of its error.
pub uninterp spec fn sid_read(text: Seq<char>) -> Result<Gtids, Seq<char>>;

/// What reading has given.
pub open spec fn entry_of(result: Result<GtidEntry, String>) -> Result<Gtids, Seq<char>> {
    match result {
        Ok(entry) => Ok(entry@),
        Err(message) => Err(message@),
    }
}

/// No number in the text is the last one of sixty-four bits, which has no
/// successor.
pub open spec fn bounded(text: Seq<char>) -> bool {
    !has_part(text, "18446744073709551615"@)
}

/// `Sid::from_str` of `mysql_common`: the source, the tag and the intervals are
/// a function of the text, and so is the text of the error. It adds one to the
/// end of an interval, so the last number of sixty-four bits is left out.
#[verifier::external_body]
fn read_sid(text: &str) -> (result: Result<GtidEntry, String>)
    requires
        bounded(text@),
    ensures
        entry_of(result) == sid_read(text@),
{
    match Sid::from_str(text) {
        Ok(sid) => Ok(
            GtidEntry {
                uuid: sid.uuid().to_vec(),
                tag: sid.tag().map(|tag| tag.as_str().to_owned()),
                intervals: sid.intervals().iter().map(|i| (i.start(), i.end())).collect(),
            },
        ),
        Err(error) => Err(error.to_string()),
    }
}

/// The entries of a set: the parts between commas that are not blank.
pub open spec fn entry_texts(parts: Seq<Seq<char>>) -> Seq<Seq<char>>
    decreases parts.len(),
{
    if parts.len() == 0 {
        Seq::empty()
    } else if trim(parts.last()).len() == 0 {
        entry_texts(parts.drop_last())
    } else {
        entry_texts(parts.drop_last()).push(trim(parts.last()))
    }
}

/// What is wrong with an entry.
pub open spec fn entry_complaint(entry: Seq<char>, message: Seq<char>) -> CaptureFault {
    other("invalid GTID set entry "@ + debug_text(entry) + ": "@ + message)
}

/// What the entries hold, given what each is read as.
pub open spec fn gathered(entries: Seq<Seq<char>>, read: Seq<Result<Gtids, Seq<char>>>) -> Result<
    Seq<Gtids>,
    CaptureFault,
>
    decreases entries.len(),
{
    if entries.len() == 0 {
        Ok(Seq::empty())
    } else {
        match gathered(entries.drop_last(), read.drop_last()) {
            Err(fault) => Err(fault),
            Ok(list) => match read.last() {
                Err(message) => Err(entry_complaint(entries.last(), message)),
                Ok(entry) => Ok(list.push(entry)),
            },
        }
    }
}

/// What each entry is read as.
pub open spec fn reads(entries: Seq<Seq<char>>) -> Seq<Result<Gtids, Seq<char>>> {
    Seq::new(entries.len(), |i: int| sid_read(entries[i]))
}

/// What a set of identifiers holds, or what is wrong with it.
pub open spec fn gtid_set(text: Seq<char>) -> Result<Seq<Gtids>, CaptureFault> {
    gathered(set_entries(text), reads(set_entries(text)))
}

/// What the entries hold.
pub open spec fn entries_view(entries: Seq<GtidEntry>) -> Seq<Gtids> {
    Seq::new(entries.len(), |i: int| entries[i]@)
}

/// What reading a set has given.
pub open spec fn set_of(result: Result<Vec<GtidEntry>, CaptureError>) -> Result<
    Seq<Gtids>,
    CaptureFault,
> {
    match result {
        Ok(entries) => Ok(entries_view(entries@)),
        Err(error) => Err(error.fault()),
    }
}

fn list_entries(text: &str) -> (result: Vec<String>)
    ensures
        texts(result@) == set_entries(text@),
{
    let mut entries: Vec<String> = Vec::new();
    assert(texts(entries@) =~= Seq::empty());
    let kept = trimmed(text);
    if kept.as_str().is_empty() {
        return entries;
    }
    let parts = split_text(text, ',');
    let ghost all = texts(parts@);
    let mut i: usize = 0;
    assert(all.take(0) =~= Seq::empty());
    while i < parts.len()
        invariant
            i <= parts@.len(),
            all == texts(parts@),
            texts(entries@) == entry_texts(all.take(i as int)),
        decreases parts@.len() - i,
    {
        assert(all.take(i + 1).drop_last() =~= all.take(i as int));
        assert(all.take(i + 1).last() == parts@[i as int]@);
        let entry = trimmed(parts[i].as_str());
        if !entry.as_str().is_empty() {
            let ghost before = texts(entries@);
            entries.push(entry);
            assert(texts(entries@) =~= before.push(entry@));
        }
        i += 1;
    }
    assert(all.take(i as int) =~= all);
    entries
}

proof fn lemma_gathered_fault(
    entries: Seq<Seq<char>>,
    read: Seq<Result<Gtids, Seq<char>>>,
    n: int,
)
    requires
        0 <= n <= entries.len() == read.len(),
        gathered(entries.take(n), read.take(n)) is Err,
    ensures
        gathered(entries, read) == gathered(entries.take(n), read.take(n)),
    decreases entries.len() - n,
{
    if n < entries.len() {
        assert(entries.take(n + 1).drop_last() =~= entries.take(n));
        assert(read.take(n + 1).drop_last() =~= read.take(n));
        lemma_gathered_fault(entries, read, n + 1);
    } else {
        assert(entries.take(n) =~= entries);
        assert(read.take(n) =~= read);
    }
}

/// Names an entry that cannot be read.
fn complain(entry: &str, message: &str) -> (result: CaptureError)
    ensures
        result.fault() == entry_complaint(entry@, message@),
{
    let spelling = debug_spelling(entry);
    let text = concat4("invalid GTID set entry ", spelling.as_str(), ": ", message);
    CaptureError::other(text.as_str())
}

/// Gathers entries that have been read.
pub fn gather(entries: &Vec<String>, read: Vec<Result<GtidEntry, String>>) -> (result: Result<
    Vec<GtidEntry>,
    CaptureError,
>)
    requires
        entries@.len() == read@.len(),
    ensures
        set_of(result) == gathered(
            texts(entries@),
            Seq::new(read@.len(), |i: int| entry_of(read@[i])),
        ),
{
    let ghost names = texts(entries@);
    let ghost all = Seq::new(read@.len(), |i: int| entry_of(read@[i]));
    let mut list: Vec<GtidEntry> = Vec::new();
    let count: usize = entries.len();
    let mut i: usize = 0;
    assert(names.take(0) =~= Seq::empty());
    assert(all.take(0) =~= Seq::empty());
    assert(entries_view(list@) =~= Seq::empty());
    for next in iter: read
        invariant
            iter.seq() == read@,
            i == iter.index(),
            count == entries@.len(),
            entries@.len() == read@.len(),
            names == texts(entries@),
            all == Seq::new(read@.len(), |k: int| entry_of(read@[k])),
            gathered(names.take(i as int), all.take(i as int)) == Ok::<_, CaptureFault>(
                entries_view(list@),
            ),
    {
        assert(names.take(i + 1).drop_last() =~= names.take(i as int));
        assert(all.take(i + 1).drop_last() =~= all.take(i as int));
        assert(names.take(i + 1).last() == entries@[i as int]@);
        assert(all.take(i + 1).last() == entry_of(next));
        match next {
            Ok(entry) => {
                let ghost before = entries_view(list@);
                let ghost own = entry@;
                list.push(entry);
                assert(entries_view(list@) =~= before.push(own));
            },
            Err(message) => {
                proof {
                    lemma_gathered_fault(names, all, i + 1);
                }
                return Err(complain(entries[i].as_str(), message.as_str()));
            },
        }
        i += 1;
    }
    assert(names.take(i as int) =~= names);
    assert(all.take(i as int) =~= all);
    Ok(list)
}

/// The entries of a set.
pub open spec fn set_entries(text: Seq<char>) -> Seq<Seq<char>> {
    if trim(text).len() == 0 {
        Seq::empty()
    } else {
        entry_texts(split(text, ','))
    }
}

/// No entry of a set holds the last number of sixty-four bits.
pub open spec fn bounded_set(text: Seq<char>) -> bool {
    forall|i: int| 0 <= i < set_entries(text).len() ==> bounded(#[trigger] set_entries(text)[i])
}

/// Whether no entry of a set holds the last number of sixty-four bits.
pub fn is_bounded_set(text: &str) -> (result: bool)
    ensures
        result == bounded_set(text@),
{
    let entries = list_entries(text);
    let mut i: usize = 0;
    while i < entries.len()
        invariant
            i <= entries@.len(),
            texts(entries@) == set_entries(text@),
            forall|k: int| 0 <= k < i ==> bounded(#[trigger] set_entries(text@)[k]),
        decreases entries@.len() - i,
    {
        assert(set_entries(text@)[i as int] == entries@[i as int]@);
        if contains_text(entries[i].as_str(), "18446744073709551615") {
            return false;
        }
        i += 1;
    }
    true
}

/// Reads a set of identifiers.
pub fn parse_gtid_set(text: &str) -> (result: Result<Vec<GtidEntry>, CaptureError>)
    requires
        bounded_set(text@),
    ensures
        set_of(result) == gtid_set(text@),
{
    let entries = list_entries(text);
    let ghost names = set_entries(text@);
    let mut read: Vec<Result<GtidEntry, String>> = Vec::new();
    let mut i: usize = 0;
    while i < entries.len()
        invariant
            i <= entries@.len(),
            bounded_set(text@),
            names == set_entries(text@),
            texts(entries@) == names,
            read@.len() == i,
            forall|k: int| 0 <= k < i ==> entry_of(#[trigger] read@[k]) == sid_read(names[k]),
        decreases entries@.len() - i,
    {
        assert(names[i as int] == entries@[i as int]@);
        read.push(read_sid(entries[i].as_str()));
        i += 1;
    }
    assert(Seq::new(read@.len(), |k: int| entry_of(read@[k])) =~= reads(names));
    gather(&entries, read)
}

// ---------------------------------------------------------------------------
// What a set holds
// ---------------------------------------------------------------------------

proof fn lemma_entry_texts(parts: Seq<Seq<char>>)
    ensures
        forall|i: int|
            0 <= i < parts.len() && trim(#[trigger] parts[i]).len() > 0 ==> entry_texts(
                parts,
            ).contains(trim(parts[i])),
        forall|k: int|
            0 <= k < entry_texts(parts).len() ==> (#[trigger] entry_texts(parts)[k]).len() > 0
                && exists|i: int|
                0 <= i < parts.len() && trim(#[trigger] parts[i]) == entry_texts(parts)[k],
    decreases parts.len(),
{
    if parts.len() > 0 {
        let shorter = parts.drop_last();
        let before = entry_texts(shorter);
        let list = entry_texts(parts);
        lemma_entry_texts(shorter);
        let last = parts.len() - 1;
        assert(parts.last() == parts[last]);
        assert forall|i: int|
            0 <= i < parts.len() && trim(#[trigger] parts[i]).len() > 0 implies list.contains(
            trim(parts[i]),
        ) by {
            if i < last {
                assert(shorter[i] == parts[i]);
                let k = choose|k: int| 0 <= k < before.len() && before[k] == trim(shorter[i]);
                assert(list[k] == before[k]);
            } else {
                assert(list[list.len() - 1] == trim(parts[last]));
            }
        }
        assert forall|k: int| 0 <= k < list.len() implies (#[trigger] list[k]).len() > 0
            && exists|i: int| 0 <= i < parts.len() && trim(#[trigger] parts[i]) == list[k] by {
            if k < before.len() {
                assert(list[k] == before[k]);
                let i = choose|i: int|
                    0 <= i < shorter.len() && trim(#[trigger] shorter[i]) == before[k];
                assert(shorter[i] == parts[i]);
            } else {
                assert(trim(parts[last]) == list[k]);
            }
        }
    }
}

/// The entries of a set are the parts between its commas, without the white space
/// around them: none that holds anything is left out, and nothing else is taken.
pub proof fn law_the_entries_of_a_set_are_its_parts(text: Seq<char>)
    requires
        trim(text).len() > 0,
    ensures
        forall|i: int|
            0 <= i < split(text, ',').len() && trim(#[trigger] split(text, ',')[i]).len() > 0
                ==> set_entries(text).contains(trim(split(text, ',')[i])),
        forall|k: int|
            0 <= k < set_entries(text).len() ==> (#[trigger] set_entries(text)[k]).len() > 0
                && exists|i: int|
                0 <= i < split(text, ',').len() && trim(#[trigger] split(text, ',')[i])
                    == set_entries(text)[k],
{
    lemma_entry_texts(split(text, ','));
}

/// A set is read entry by entry: where it is read at all, every entry is there as
/// it is read alone and in its order, and one entry that is not read is enough for
/// the set not to be.
pub proof fn law_a_set_is_read_entry_by_entry(
    entries: Seq<Seq<char>>,
    read: Seq<Result<Gtids, Seq<char>>>,
)
    requires
        entries.len() == read.len(),
    ensures
        gathered(entries, read) is Ok <==> forall|i: int|
            0 <= i < read.len() ==> (#[trigger] read[i]) is Ok,
        gathered(entries, read) matches Ok(list) ==> list.len() == read.len() && forall|i: int|
            0 <= i < read.len() ==> (#[trigger] read[i]) == Ok::<_, Seq<char>>(list[i]),
    decreases entries.len(),
{
    if entries.len() > 0 {
        let shorter = read.drop_last();
        law_a_set_is_read_entry_by_entry(entries.drop_last(), shorter);
        let last = read.len() - 1;
        assert(read.last() == read[last]);
        assert(forall|i: int| 0 <= i < last ==> #[trigger] shorter[i] == read[i]);
        if gathered(entries, read) is Ok {
            let list = gathered(entries, read)->Ok_0;
            assert forall|i: int| 0 <= i < read.len() implies (#[trigger] read[i]) == Ok::<
                _,
                Seq<char>,
            >(list[i]) by {
                if i < last {
                    assert(shorter[i] == read[i]);
                }
            }
        } else if forall|i: int| 0 <= i < read.len() ==> (#[trigger] read[i]) is Ok {
            assert forall|i: int| 0 <= i < shorter.len() implies (#[trigger] shorter[i]) is Ok by {
                assert(read[i] is Ok);
            }
        }
    }
}

} // verus!
