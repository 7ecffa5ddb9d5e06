//! The wire contract of the streaming transfer: an existence query and
//! a chunked upload whose first message carries the metadata.

use vstd::prelude::*;
use vstd::slice::{slice_subrange, slice_to_vec};

use crate::date::{date_new_spec, Date, DateError};
use crate::metadata::{exif_date, exif_date_spec};

verus! {

/// The existence query: carries only the filename.
#[derive(Debug, Clone)]
pub struct ExistsRequest {
    pub filename: String,
}

/// The existence answer.
#[derive(Debug, Clone, Copy, PartialEq, Eq, Structural)]
pub struct ExistsResponse {
    pub exists: bool,
}

/// A date as transmitted on the wire.
#[derive(Debug, Clone, Copy, PartialEq, Eq, Structural)]
pub struct WireDate {
    pub year: u32,
    pub month: u32,
}

/// One message of a streamed upload. Only the first message of a
/// stream populates `filename` and `created`.
#[derive(Debug, Clone, PartialEq, Eq)]
pub struct ChunkMsg {
    pub filename: Option<String>,
    pub created: Option<WireDate>,
    pub contents: Vec<u8>,
}

/// Rejections of the transfer protocol.
#[derive(Debug, Clone, Copy, PartialEq, Eq, Structural)]
pub enum ProtocolError {
    /// A file with no bytes is not a valid upload.
    EmptyFile,
    /// The date could not be derived or is invalid.
    Date(DateError),
    /// The stream carried no message at all.
    NoInitialMessage,
    /// The first message left the filename unset.
    FilenameUnset,
    /// The first message carried an empty filename.
    FilenameEmpty,
    /// The first message left the date unset.
    CreatedUnset,
}

impl Date {
    /// The wire form of this date.
    pub fn to_wire(&self) -> (w: WireDate)
        ensures
            w.year == self.spec_year() as u32,
            w.month == self.spec_month() as u32,
    {
        WireDate { year: self.year() as u32, month: self.month() as u32 }
    }

    /// Read a date off the wire, validating it.
    pub fn from_wire(w: WireDate) -> (r: Result<Date, DateError>)
        ensures
            r == date_new_spec(w.year as int, w.month as int),
    {
        Self::new(w.year as i64, w.month)
    }
}

/// The bytes carried by a message sequence, in stream order.
pub open spec fn concat_contents(msgs: Seq<ChunkMsg>) -> Seq<u8>
    decreases msgs.len(),
{
    if msgs.len() == 0 {
        Seq::empty()
    } else {
        concat_contents(msgs.drop_last()) + msgs.last().contents@
    }
}

/// One more message appends its bytes.
pub proof fn lemma_concat_push(msgs: Seq<ChunkMsg>, m: ChunkMsg)
    ensures
        concat_contents(msgs.push(m)) == concat_contents(msgs) + m.contents@,
{
    assert(msgs.push(m).drop_last() =~= msgs);
    assert(msgs.push(m).last() == m);
}

/// A well-formed upload stream for a file: the first message carries
/// the filename and the date, later messages carry only bytes, no
/// message is empty or over-size, and together they carry exactly the
/// file.
pub open spec fn chunks_wf(
    msgs: Seq<ChunkMsg>,
    filename: Seq<char>,
    d: Date,
    contents: Seq<u8>,
    chunk_size: int,
) -> bool {
    &&& msgs.len() >= 1
    &&& concat_contents(msgs) == contents
    &&& msgs[0].filename is Some
    &&& msgs[0].filename.unwrap()@ == filename
    &&& msgs[0].created is Some
    &&& msgs[0].created.unwrap().year == d.spec_year() as u32
    &&& msgs[0].created.unwrap().month == d.spec_month() as u32
    &&& forall|k: int| 1 <= k < msgs.len() ==> (#[trigger] msgs[k]).filename is None
        && msgs[k].created is None
    &&& forall|k: int| 0 <= k < msgs.len() ==> 1 <= (#[trigger] msgs[k]).contents@.len()
        <= chunk_size
    &&& forall|k: int| 0 <= k < msgs.len() - 1 ==> (#[trigger] msgs[k]).contents@.len()
        == chunk_size
}

/// A successful upload stream for a file: well-formed chunks under the
/// date that the file's metadata assigns.
pub open spec fn stream_ok(
    msgs: Seq<ChunkMsg>,
    filename: Seq<char>,
    contents: Seq<u8>,
    chunk_size: int,
) -> bool {
    exists|d: Date|
        exif_date_spec(contents, Ok(d)) && #[trigger] chunks_wf(
            msgs,
            filename,
            d,
            contents,
            chunk_size,
        )
}

/// Split a file into an upload stream: the date is derived from the
/// file's embedded metadata, the first message carries it with the
/// filename, and the bytes go out in order in chunks of at most
/// `chunk_size`. A file with no bytes is rejected rather than sent.
pub fn stream_file(filename: String, contents: Vec<u8>, chunk_size: usize) -> (r: Result<
    Vec<ChunkMsg>,
    ProtocolError,
>)
    requires
        chunk_size >= 1,
    ensures
        contents@.len() == 0 <==> r == Err::<Vec<ChunkMsg>, ProtocolError>(
            ProtocolError::EmptyFile,
        ),
        contents@.len() > 0 && r is Err ==> (r->Err_0 matches ProtocolError::Date(de)
            && exif_date_spec(contents@, Err(de))),
        r is Ok ==> stream_ok((r->Ok_0)@, filename@, contents@, chunk_size as int),
{
    if contents.len() == 0 {
        return Err(ProtocolError::EmptyFile);
    }
    let date = match exif_date(&contents) {
        Ok(d) => d,
        Err(e) => {
            return Err(ProtocolError::Date(e));
        },
    };
    let len: usize = contents.len();
    let first_end: usize = if chunk_size <= len {
        chunk_size
    } else {
        len
    };
    let mut msgs: Vec<ChunkMsg> = Vec::new();
    let first = ChunkMsg {
        filename: Some(filename),
        created: Some(date.to_wire()),
        contents: slice_to_vec(slice_subrange(contents.as_slice(), 0, first_end)),
    };
    proof {
        lemma_concat_push(msgs@, first);
    }
    msgs.push(first);
    let mut i: usize = first_end;
    while i < len
        invariant
            1 <= chunk_size,
            len == contents@.len(),
            first_end <= i <= len,
            msgs@.len() >= 1,
            concat_contents(msgs@) =~= contents@.subrange(0, i as int),
            msgs@[0].filename is Some,
            msgs@[0].filename.unwrap()@ == filename@,
            msgs@[0].created is Some,
            msgs@[0].created.unwrap().year == date.spec_year() as u32,
            msgs@[0].created.unwrap().month == date.spec_month() as u32,
            forall|k: int| 1 <= k < msgs@.len() ==> (#[trigger] msgs@[k]).filename is None
                && msgs@[k].created is None,
            forall|k: int| 0 <= k < msgs@.len() ==> 1 <= (#[trigger] msgs@[k]).contents@.len()
                <= chunk_size,
            forall|k: int| 0 <= k < msgs@.len() - 1 ==> (#[trigger] msgs@[k]).contents@.len()
                == chunk_size,
            i < len ==> msgs@[msgs@.len() - 1].contents@.len() == chunk_size,
        decreases len - i,
    {
        let j: usize = if len - i >= chunk_size {
            i + chunk_size
        } else {
            len
        };
        let piece = ChunkMsg {
            filename: None,
            created: None,
            contents: slice_to_vec(slice_subrange(contents.as_slice(), i, j)),
        };
        proof {
            lemma_concat_push(msgs@, piece);
            assert(contents@.subrange(0, i as int) + contents@.subrange(i as int, j as int)
                =~= contents@.subrange(0, j as int));
        }
        msgs.push(piece);
        i = j;
    }
    proof {
        assert(contents@.subrange(0, len as int) =~= contents@);
        assert(stream_ok(msgs@, filename@, contents@, chunk_size as int)) by {
            assert(exif_date_spec(contents@, Ok::<Date, DateError>(date)) && chunks_wf(
                msgs@,
                filename@,
                date,
                contents@,
                chunk_size as int,
            ));
        }
    }
    Ok(msgs)
}

/// What the receiving side requires of a stream before writing
/// anything: a first message with a non-empty filename and a valid
/// date.
pub open spec fn validate_send_spec(msgs: Seq<ChunkMsg>) -> Result<
    (Seq<char>, Date),
    ProtocolError,
> {
    if msgs.len() == 0 {
        Err(ProtocolError::NoInitialMessage)
    } else if msgs[0].filename is None {
        Err(ProtocolError::FilenameUnset)
    } else if msgs[0].filename.unwrap()@.len() == 0 {
        Err(ProtocolError::FilenameEmpty)
    } else if msgs[0].created is None {
        Err(ProtocolError::CreatedUnset)
    } else {
        match date_new_spec(
            msgs[0].created.unwrap().year as int,
            msgs[0].created.unwrap().month as int,
        ) {
            Err(e) => Err(ProtocolError::Date(e)),
            Ok(d) => Ok((msgs[0].filename.unwrap()@, d)),
        }
    }
}

/// Check a stream's first message, handing back the filename and the
/// validated date.
pub fn validate_send(msgs: &Vec<ChunkMsg>) -> (r: Result<(String, Date), ProtocolError>)
    ensures
        r is Ok ==> validate_send_spec(msgs@) is Ok && (r->Ok_0).0@ == (validate_send_spec(
            msgs@,
        )->Ok_0).0 && (r->Ok_0).1 == (validate_send_spec(msgs@)->Ok_0).1,
        r is Err ==> validate_send_spec(msgs@) is Err && r->Err_0 == validate_send_spec(
            msgs@,
        )->Err_0,
{
    if msgs.len() == 0 {
        return Err(ProtocolError::NoInitialMessage);
    }
    let m0 = &msgs[0];
    let filename = match &m0.filename {
        Some(f) => f.clone(),
        None => {
            return Err(ProtocolError::FilenameUnset);
        },
    };
    if filename.as_str().is_empty() {
        return Err(ProtocolError::FilenameEmpty);
    }
    let wire = match &m0.created {
        Some(c) => *c,
        None => {
            return Err(ProtocolError::CreatedUnset);
        },
    };
    match Date::new(wire.year as i64, wire.month) {
        Err(e) => Err(ProtocolError::Date(e)),
        Ok(d) => Ok((filename, d)),
    }
}

} // verus!
