//! Server ingestion and index: the filename-to-date index rebuilt from
//! the destination tree at startup, the existence query it answers,
//! and the validation and recording of streamed uploads.

use vstd::prelude::*;

use crate::date::{date_from_path_spec, output_path_spec, Date, DateError};
use crate::scan::{basename, basename_spec, is_image_file, is_image_file_spec, WalkEntry};
use crate::transfer::{
    concat_contents, validate_send, validate_send_spec, ChunkMsg, ExistsResponse, ProtocolError,
};

verus! {

/// Configuration of the server, as plain values.
pub struct Args {
    pub address: String,
    pub directory: String,
}

/// The filename-to-date index: which files the destination already
/// holds, and under which partition. Last write wins.
pub struct ServerIndex {
    entries: Vec<(String, Date)>,
}

/// The mapping an entry list denotes, later entries overriding earlier
/// ones.
spec fn assoc_map(s: Seq<(String, Date)>) -> Map<Seq<char>, Date>
    decreases s.len(),
{
    if s.len() == 0 {
        Map::empty()
    } else {
        assoc_map(s.drop_last()).insert(s.last().0@, s.last().1)
    }
}

impl View for ServerIndex {
    type V = Map<Seq<char>, Date>;

    closed spec fn view(&self) -> Map<Seq<char>, Date> {
        assoc_map(self.entries@)
    }
}

/// A key is in the mapping exactly when some entry bears it.
proof fn lemma_assoc_contains(s: Seq<(String, Date)>, k: Seq<char>)
    ensures
        assoc_map(s).contains_key(k) <==> exists|i: int| 0 <= i < s.len() && (#[trigger] s[i]).0@
            == k,
    decreases s.len(),
{
    if s.len() > 0 {
        lemma_assoc_contains(s.drop_last(), k);
        if s.last().0@ == k {
            assert(s[s.len() - 1].0@ == k);
        } else {
            if assoc_map(s).contains_key(k) {
                let i = choose|i: int|
                    0 <= i < s.drop_last().len() && (#[trigger] s.drop_last()[i]).0@ == k;
                assert(s[i].0@ == k);
            }
            if exists|i: int| 0 <= i < s.len() && (#[trigger] s[i]).0@ == k {
                let i = choose|i: int| 0 <= i < s.len() && (#[trigger] s[i]).0@ == k;
                assert(i < s.len() - 1);
                assert(s.drop_last()[i].0@ == k);
            }
        }
    }
}

/// The mapping returns the date of the last entry bearing the key.
proof fn lemma_assoc_get(s: Seq<(String, Date)>, i: int, k: Seq<char>)
    requires
        0 <= i < s.len(),
        s[i].0@ == k,
        forall|j: int| i < j < s.len() ==> (#[trigger] s[j]).0@ != k,
    ensures
        assoc_map(s).contains_key(k),
        assoc_map(s)[k] == s[i].1,
    decreases s.len(),
{
    if i == s.len() - 1 {
    } else {
        assert(s[s.len() - 1].0@ != k);
        assert(forall|j: int| i < j < s.drop_last().len() ==> (#[trigger] s.drop_last()[j]).0@
            != k);
        lemma_assoc_get(s.drop_last(), i, k);
    }
}

impl ServerIndex {
    /// An index that knows of no files.
    pub fn new() -> (r: Self)
        ensures
            r@ == Map::<Seq<char>, Date>::empty(),
    {
        ServerIndex { entries: Vec::new() }
    }

    /// Record a filename under its date, overriding any earlier record.
    pub fn insert(&mut self, filename: String, date: Date)
        ensures
            final(self)@ == old(self)@.insert(filename@, date),
    {
        self.entries.push((filename, date));
        proof {
            assert(self.entries@.drop_last() =~= old(self).entries@);
        }
    }

    /// Whether a filename is on record.
    pub fn contains(&self, filename: &String) -> (r: bool)
        ensures
            r == self@.contains_key(filename@),
    {
        let n: usize = self.entries.len();
        let mut i: usize = 0;
        while i < n
            invariant
                i <= n == self.entries@.len(),
                forall|j: int| 0 <= j < i ==> (#[trigger] self.entries@[j]).0@ != filename@,
            decreases n - i,
        {
            if self.entries[i].0 == *filename {
                proof {
                    lemma_assoc_contains(self.entries@, filename@);
                }
                return true;
            }
            i = i + 1;
        }
        proof {
            lemma_assoc_contains(self.entries@, filename@);
        }
        false
    }

    /// The date on record for a filename.
    pub fn get(&self, filename: &String) -> (r: Option<Date>)
        ensures
            r == if self@.contains_key(filename@) {
                Some(self@[filename@])
            } else {
                None::<Date>
            },
    {
        let n: usize = self.entries.len();
        let mut i: usize = n;
        while i > 0
            invariant
                i <= n == self.entries@.len(),
                forall|j: int| i <= j < n ==> (#[trigger] self.entries@[j]).0@ != filename@,
            decreases i,
        {
            if self.entries[i - 1].0 == *filename {
                proof {
                    lemma_assoc_get(self.entries@, i - 1, filename@);
                }
                return Some(self.entries[i - 1].1);
            }
            i = i - 1;
        }
        proof {
            lemma_assoc_contains(self.entries@, filename@);
        }
        None
    }
}

/// What the server is told to write durably before it records a
/// filename: the destination path and the file's bytes in stream
/// order.
#[derive(Debug)]
pub struct PendingWrite {
    pub filename: String,
    pub date: Date,
    pub path: String,
    pub contents: Vec<u8>,
}

/// The server: the destination root it writes under and the index of
/// what it already holds.
pub struct ServerState {
    pub directory: String,
    pub index: ServerIndex,
}

impl ServerState {
    /// A server over an empty destination tree.
    pub fn new(directory: String) -> (r: Self)
        ensures
            r.directory == directory,
            r.index@ == Map::<Seq<char>, Date>::empty(),
    {
        ServerState { directory, index: ServerIndex::new() }
    }

    /// Build the index from the destination tree's walk: every image
    /// file is recorded under the date its directory position encodes;
    /// an entry whose position parses as no date aborts the startup.
    pub fn init_from_directory_tree(directory: String, entries: &Vec<WalkEntry>) -> (r: Result<
        Self,
        DateError,
    >)
        ensures
            r is Ok <==> build_index_from(Map::<Seq<char>, Date>::empty(), entries@) is Ok,
            r is Ok ==> (r->Ok_0).index@ == build_index_from(
                Map::<Seq<char>, Date>::empty(),
                entries@,
            )->Ok_0 && (r->Ok_0).directory == directory,
            r is Err ==> Err::<Map<Seq<char>, Date>, DateError>(r->Err_0) == build_index_from(
                Map::<Seq<char>, Date>::empty(),
                entries@,
            ),
    {
        let mut state = ServerState::new(directory);
        let n: usize = entries.len();
        proof {
            assert(entries@.subrange(0, n as int) =~= entries@);
        }
        let mut i: usize = 0;
        while i < n
            invariant
                i <= n == entries@.len(),
                build_index_from(Map::<Seq<char>, Date>::empty(), entries@) == build_index_from(
                    state.index@,
                    entries@.subrange(i as int, n as int),
                ),
                state.directory == directory,
            decreases n - i,
        {
            let ghost rest = entries@.subrange(i as int, n as int);
            proof {
                assert(rest.first() == entries@[i as int]);
                assert(rest.drop_first() =~= entries@.subrange(i + 1, n as int));
            }
            let entry = &entries[i];
            if is_image_file(entry.is_file, entry.path.as_str()) {
                let date = match Date::from_path(entry.path.as_str()) {
                    Ok(d) => d,
                    Err(e) => {
                        return Err(e);
                    },
                };
                let name = basename(entry.path.as_str());
                state.index.insert(name.to_owned(), date);
            }
            i = i + 1;
        }
        proof {
            assert(entries@.subrange(n as int, n as int) =~= Seq::<WalkEntry>::empty());
        }
        Ok(state)
    }

    /// Answer an existence query from the index alone; no side effect.
    pub fn handle_exists(&self, filename: &String) -> (r: ExistsResponse)
        ensures
            r.exists == self.index@.contains_key(filename@),
    {
        ExistsResponse { exists: self.index.contains(filename) }
    }

    /// Validate a streamed upload and lay out the write it asks for:
    /// the destination path under this server's root and the bytes in
    /// stream order. The index is untouched; the caller records the
    /// send only once the write is durable.
    pub fn prepare_send(&self, msgs: &Vec<ChunkMsg>) -> (r: Result<PendingWrite, ProtocolError>)
        ensures
            r is Ok <==> validate_send_spec(msgs@) is Ok,
            r is Err ==> r->Err_0 == validate_send_spec(msgs@)->Err_0,
            r is Ok ==> (r->Ok_0).filename@ == (validate_send_spec(msgs@)->Ok_0).0 && (
            r->Ok_0).date == (validate_send_spec(msgs@)->Ok_0).1 && (r->Ok_0).path@
                == output_path_spec(
                self.directory@,
                (validate_send_spec(msgs@)->Ok_0).1,
                (validate_send_spec(msgs@)->Ok_0).0,
            ) && (r->Ok_0).contents@ == concat_contents(msgs@),
    {
        let (filename, date) = match validate_send(msgs) {
            Ok(p) => p,
            Err(e) => {
                return Err(e);
            },
        };
        let path = date.to_output_file(&self.directory, filename.as_str());
        let mut contents: Vec<u8> = Vec::new();
        let n: usize = msgs.len();
        let mut i: usize = 0;
        while i < n
            invariant
                i <= n == msgs@.len(),
                contents@ =~= concat_contents(msgs@.subrange(0, i as int)),
            decreases n - i,
        {
            let m = &msgs[i];
            let k: usize = m.contents.len();
            let mut j: usize = 0;
            while j < k
                invariant
                    j <= k == m.contents@.len(),
                    m == &msgs@[i as int],
                    i < n == msgs@.len(),
                    contents@ =~= concat_contents(msgs@.subrange(0, i as int))
                        + m.contents@.subrange(0, j as int),
                decreases k - j,
            {
                contents.push(m.contents[j]);
                j = j + 1;
            }
            proof {
                assert(msgs@.subrange(0, i + 1).drop_last() =~= msgs@.subrange(0, i as int));
                assert(msgs@.subrange(0, i + 1).last() == msgs@[i as int]);
                assert(m.contents@.subrange(0, k as int) =~= m.contents@);
                assert(contents@ =~= concat_contents(msgs@.subrange(0, i + 1)));
            }
            i = i + 1;
        }
        proof {
            assert(msgs@.subrange(0, n as int) =~= msgs@);
        }
        Ok(PendingWrite { filename, date, path, contents })
    }

    /// Record a durably written upload in the index.
    pub fn record_send(&mut self, filename: String, date: Date)
        ensures
            final(self).index@ == old(self).index@.insert(filename@, date),
            final(self).directory == old(self).directory,
    {
        self.index.insert(filename, date);
    }
}

/// The index a destination walk builds, or the first failure.
pub open spec fn build_index_from(m: Map<Seq<char>, Date>, entries: Seq<WalkEntry>) -> Result<
    Map<Seq<char>, Date>,
    DateError,
>
    decreases entries.len(),
{
    if entries.len() == 0 {
        Ok(m)
    } else {
        let e = entries.first();
        if !is_image_file_spec(e.is_file, e.path@) {
            build_index_from(m, entries.drop_first())
        } else {
            match date_from_path_spec(e.path@) {
                Err(err) => Err(err),
                Ok(d) => build_index_from(m.insert(basename_spec(e.path@), d), entries.drop_first(
                )),
            }
        }
    }
}

/// What one `Send` stream does to the index: nothing when the stream
/// is rejected, a single insert when it is accepted.
pub open spec fn send_transition(index: Map<Seq<char>, Date>, msgs: Seq<ChunkMsg>) -> (
    Map<Seq<char>, Date>,
    Result<(Seq<char>, Date), ProtocolError>,
) {
    match validate_send_spec(msgs) {
        Err(e) => (index, Err(e)),
        Ok((f, d)) => (index.insert(f, d), Ok((f, d))),
    }
}

/// An existence query for a fresh filename answers "absent" before any
/// send; after a send accepted under that filename it answers
/// "present".
pub proof fn lemma_exists_tracks_send(
    index: Map<Seq<char>, Date>,
    msgs: Seq<ChunkMsg>,
    f: Seq<char>,
)
    requires
        !index.contains_key(f),
    ensures
        validate_send_spec(msgs) is Ok && (validate_send_spec(msgs)->Ok_0).0 == f
            ==> send_transition(index, msgs).0.contains_key(f),
{
}

/// An accepted stream records exactly its filename under its date:
/// afterwards the index holds that pair, answers "present" for it, and
/// every other filename's record is untouched.
pub proof fn lemma_accepted_send_records(
    index: Map<Seq<char>, Date>,
    msgs: Seq<ChunkMsg>,
    other: Seq<char>,
)
    requires
        validate_send_spec(msgs) is Ok,
    ensures
        ({
            let (f, d) = validate_send_spec(msgs)->Ok_0;
            &&& send_transition(index, msgs).0 == index.insert(f, d)
            &&& send_transition(index, msgs).0.contains_key(f)
            &&& send_transition(index, msgs).0[f] == d
            &&& other != f ==> send_transition(index, msgs).0.contains_key(other)
                == index.contains_key(other)
        }),
{
}

/// A rejected stream changes nothing: the index stays as it was, and
/// no write is handed out.
pub proof fn lemma_rejected_send_no_update(index: Map<Seq<char>, Date>, msgs: Seq<ChunkMsg>)
    requires
        validate_send_spec(msgs) is Err,
    ensures
        send_transition(index, msgs).0 == index,
        send_transition(index, msgs).1 is Err,
{
}

/// A stream with no messages at all is rejected.
pub proof fn lemma_empty_stream_rejected(index: Map<Seq<char>, Date>, msgs: Seq<ChunkMsg>)
    requires
        msgs.len() == 0,
    ensures
        send_transition(index, msgs).1 == Err::<(Seq<char>, Date), ProtocolError>(
            ProtocolError::NoInitialMessage,
        ),
        send_transition(index, msgs).0 == index,
{
}

/// A first message without a filename, with an empty filename, or
/// without a valid date is rejected before anything is written.
pub proof fn lemma_invalid_first_message_rejected(index: Map<Seq<char>, Date>, msgs: Seq<ChunkMsg>)
    requires
        msgs.len() > 0,
        msgs[0].filename is None || msgs[0].filename.unwrap()@.len() == 0 || msgs[0].created
            is None || !(msgs[0].created is Some && 1 <= msgs[0].created.unwrap().month <= 12
            && msgs[0].created.unwrap().year <= u16::MAX),
    ensures
        validate_send_spec(msgs) is Err,
        send_transition(index, msgs).0 == index,
{
}

} // verus!
