//! The PPHD8 container format and the VAG files extracted from it.
//!
//! A PPHD8 container has three parts:
//! - a **metadata section**, whose words at `0x38` and `0xC` locate the other two;
//! - an **index section**, a run of 16-byte records, one per embedded stream;
//! - the **raw data** of the embedded VAG streams.
//!
//! The container is handled here as the bytes of the whole file; reading them from disk is
//! the caller's business.
use vstd::prelude::*;
use vstd::slice::{slice_subrange, slice_to_vec};
use crate::bytes::{be_bytes, le_u32_at, push_u32_be, read_u32_be, read_u32_le, be_u32_at, lemma_be_round_trip};

verus! {

/// Byte offset of the word that holds the index base.
pub const INDEX_BASE_OFFSET: u64 = 0x38;

/// Byte offset of the word that holds the start of the data section.
pub const DATA_START_OFFSET: u64 = 0xC;

/// The index section starts this many bytes (16 reserved words) after the index base.
pub const INDEX_RESERVED_BYTES: u64 = 64;

/// Size of one record of the index section.
pub const INDEX_RECORD_BYTES: u64 = 16;

/// The channel code written into every extracted VAG file.
pub const VAG_CHANNELS: u32 = 3;

/// Size of the header that precedes the body of a VAG file.
pub const VAG_HEADER_BYTES: usize = 64;

/// A VAG entry of a PPHD8 container, as it comes from the index section.
#[derive(Clone, Copy, Debug, PartialEq, Eq, Structural)]
pub struct VAGFileEntry {
    pub frequency: u32,
    pub size: u32,
    /// How far from the start of the data section this entry's body begins.
    pub offset_from_data_start: u32,
}

/// All that is known of a PPHD8 container once its index has been read.
pub struct PPHD8FileData {
    /// Start of the index section: the word at `0x38`, plus 64.
    start_of_index: u64,
    /// The retained entries, in index order.
    vag_entries: Vec<VAGFileEntry>,
    /// Start of the data section: the word at `0xC`.
    start_of_data: u32,
    /// The whole container.
    data: Vec<u8>,
}

/// The mathematical content of a parsed container.
pub struct ContainerView {
    pub start_of_index: int,
    pub start_of_data: int,
    pub entries: Seq<VAGFileEntry>,
    pub data: Seq<u8>,
}

/// A VAG file extracted from a PPHD8 container.
pub struct VAGFile {
    frequency: u32,
    size: u32,
    channels: u32,
    filename: [u8; 32],
    body: Vec<u8>,
}

/// The mathematical content of a VAG file.
pub struct VAGFileView {
    pub frequency: u32,
    pub size: u32,
    pub channels: u32,
    pub filename: Seq<u8>,
    pub body: Seq<u8>,
}

/// The numeric fields of a VAG header.
#[derive(Clone, Copy, Debug, PartialEq, Eq, Structural)]
pub struct VAGHeader {
    pub channels: u32,
    pub size: u32,
    pub frequency: u32,
}

/// Possible errors when parsing a PPHD8 container or extracting its VAG files.
#[derive(Debug)]
pub enum ParseError {
    /// The container could not be read: it could not be opened, or a read came up short.
    IOError(std::io::Error),
    /// The body of an entry is shorter in the container than the index declares.
    IncompleteVag { entry_index: usize, expected_size: u32, actual_size: u32 },
}

#[verifier::external_type_specification]
#[verifier::external_body]
pub struct ExIoError(std::io::Error);

/// Relies on `std::io::Error::from(ErrorKind)`: the error that a read past the end reports.
#[verifier::external_body]
fn unexpected_eof() -> (r: std::io::Error) {
    std::io::Error::from(std::io::ErrorKind::UnexpectedEof)
}

impl From<std::io::Error> for ParseError {
    fn from(value: std::io::Error) -> (r: ParseError)
        ensures
            r == ParseError::IOError(value),
    {
        ParseError::IOError(value)
    }
}

impl vstd::std_specs::convert::FromSpecImpl<std::io::Error> for ParseError {
    open spec fn obeys_from_spec() -> bool {
        true
    }

    open spec fn from_spec(v: std::io::Error) -> ParseError {
        ParseError::IOError(v)
    }
}

// ---------------------------------------------------------------------------------------
// The container format
// ---------------------------------------------------------------------------------------

/// An index record whose three fields are all `0xFFFFFFFF` marks "no stream here".
pub open spec fn is_null_entry(e: VAGFileEntry) -> bool {
    e.offset_from_data_start == 0xFFFF_FFFF && e.frequency == 0xFFFF_FFFF && e.size == 0xFFFF_FFFF
}

/// The index record that starts at byte `c`: offset, frequency and size, then a padding word.
pub open spec fn record_at(data: Seq<u8>, c: int) -> VAGFileEntry {
    VAGFileEntry {
        offset_from_data_start: le_u32_at(data, c) as u32,
        frequency: le_u32_at(data, c + 4) as u32,
        size: le_u32_at(data, c + 8) as u32,
    }
}

/// The records of the index from byte `c` on, up to the last one whose three words end at or
/// before `data_start`; `None` when one of those words lies past the end of `data`.
pub open spec fn index_records(data: Seq<u8>, c: int, data_start: int) -> Option<Seq<VAGFileEntry>>
    decreases data_start - c + 16,
{
    if c + 12 > data_start {
        Some(Seq::empty())
    } else if c + 12 > data.len() {
        None
    } else {
        match index_records(data, c + 16, data_start) {
            Some(rest) => Some(seq![record_at(data, c)] + rest),
            None => None,
        }
    }
}

/// The records that a container keeps: all but the null entries, in index order.
pub open spec fn retained(records: Seq<VAGFileEntry>) -> Seq<VAGFileEntry> {
    records.filter(|e: VAGFileEntry| !is_null_entry(e))
}

/// Start of the index section of a container whose header can be read.
pub open spec fn spec_start_of_index(data: Seq<u8>) -> int {
    le_u32_at(data, INDEX_BASE_OFFSET as int) + INDEX_RESERVED_BYTES
}

/// Start of the data section of a container whose header can be read.
pub open spec fn spec_start_of_data(data: Seq<u8>) -> int {
    le_u32_at(data, DATA_START_OFFSET as int)
}

/// All the index records of a container, or `None` when the file ends too early.
pub open spec fn container_records(data: Seq<u8>) -> Option<Seq<VAGFileEntry>> {
    if data.len() < INDEX_BASE_OFFSET + 4 {
        None
    } else {
        index_records(data, spec_start_of_index(data), spec_start_of_data(data))
    }
}

/// What parsing the container `data` gives, or `None` when a read comes up short.
pub open spec fn parse_spec(data: Seq<u8>) -> Option<ContainerView> {
    match container_records(data) {
        Some(records) => Some(
            ContainerView {
                start_of_index: spec_start_of_index(data),
                start_of_data: spec_start_of_data(data),
                entries: retained(records),
                data,
            },
        ),
        None => None,
    }
}

/// `Some(prefix + s)` for `Some(s)`, and `None` for `None`.
pub open spec fn prepend(prefix: Seq<VAGFileEntry>, o: Option<Seq<VAGFileEntry>>) -> Option<
    Seq<VAGFileEntry>,
> {
    match o {
        Some(s) => Some(prefix + s),
        None => None,
    }
}

// ---------------------------------------------------------------------------------------
// Extraction
// ---------------------------------------------------------------------------------------

/// Absolute byte offset of the body of `e` in the container.
pub open spec fn body_start(c: ContainerView, e: VAGFileEntry) -> int {
    c.start_of_data + e.offset_from_data_start
}

/// How many bytes of the body of `e` the container holds: its declared size, or fewer where
/// the file ends first.
pub open spec fn available(c: ContainerView, e: VAGFileEntry) -> int {
    let start = body_start(c, e);
    if start >= c.data.len() {
        0
    } else if c.data.len() - start < e.size {
        c.data.len() - start
    } else {
        e.size as int
    }
}

/// Whether the container holds the whole body of `e`.
pub open spec fn is_complete(c: ContainerView, e: VAGFileEntry) -> bool {
    available(c, e) == e.size
}

/// The 32-byte name field of every extracted VAG file: "LD", then zeros.
pub open spec fn vag_filename() -> Seq<u8> {
    seq![0x4Cu8, 0x44u8] + Seq::new(30, |i: int| 0u8)
}

/// The VAG file extracted from a complete entry `e`.
pub open spec fn extracted(c: ContainerView, e: VAGFileEntry) -> VAGFileView {
    VAGFileView {
        frequency: e.frequency,
        size: e.size,
        channels: VAG_CHANNELS,
        filename: vag_filename(),
        body: if e.size == 0 {
            Seq::empty()
        } else {
            c.data.subrange(body_start(c, e), body_start(c, e) + e.size)
        },
    }
}

/// What extracting entry `i` gives: the VAG file, or the error of a short body.
pub open spec fn extract_entry_ok(c: ContainerView, i: int, r: Result<VAGFile, ParseError>) -> bool {
    let e = c.entries[i];
    if is_complete(c, e) {
        r matches Ok(v) && v@ == extracted(c, e)
    } else {
        r matches Err(ParseError::IncompleteVag { entry_index, expected_size, actual_size })
            && entry_index == i && expected_size == e.size && actual_size == available(c, e)
    }
}

/// What extracting every entry gives: all the VAG files in index order when every body is
/// complete, else the error of the first entry whose body is short.
pub open spec fn extract_all_ok(c: ContainerView, r: Result<Vec<VAGFile>, ParseError>) -> bool {
    if forall|i: int| 0 <= i < c.entries.len() ==> is_complete(c, #[trigger] c.entries[i]) {
        r matches Ok(vs) && vs@.len() == c.entries.len() && forall|i: int|
            0 <= i < c.entries.len() ==> (#[trigger] vs@[i])@ == extracted(c, c.entries[i])
    } else {
        exists|j: int|
            0 <= j < c.entries.len() && !is_complete(c, #[trigger] c.entries[j]) && (forall|k: int|
                0 <= k < j ==> is_complete(c, #[trigger] c.entries[k])) && (r matches Err(
                ParseError::IncompleteVag { entry_index, expected_size, actual_size },
            ) && entry_index == j && expected_size == c.entries[j].size && actual_size == available(
                c,
                c.entries[j],
            ))
    }
}

// ---------------------------------------------------------------------------------------
// The VAG format
// ---------------------------------------------------------------------------------------

/// The magic literal "VAGp" that opens a VAG file.
pub open spec fn vag_magic() -> Seq<u8> {
    seq![0x56u8, 0x41u8, 0x47u8, 0x70u8]
}

/// `n` zero bytes.
pub open spec fn zeros(n: nat) -> Seq<u8> {
    Seq::new(n, |i: int| 0u8)
}

/// The 64-byte header of a VAG file: magic, channels, 4 zeros, size, frequency, 12 zeros and
/// the name field, numbers big-endian.
pub open spec fn vag_header_bytes(v: VAGFileView) -> Seq<u8> {
    vag_magic() + be_bytes(v.channels) + zeros(4) + be_bytes(v.size) + be_bytes(v.frequency)
        + zeros(12) + v.filename
}

/// The bytes of a VAG file: its header, then its body.
pub open spec fn vag_bytes(v: VAGFileView) -> Seq<u8> {
    vag_header_bytes(v) + v.body
}

/// The header that `bytes` opens with, if they open with one.
pub open spec fn header_spec(bytes: Seq<u8>) -> Option<VAGHeader> {
    if bytes.len() >= VAG_HEADER_BYTES && bytes.subrange(0, 4) == vag_magic() {
        Some(
            VAGHeader {
                channels: be_u32_at(bytes, 4) as u32,
                size: be_u32_at(bytes, 12) as u32,
                frequency: be_u32_at(bytes, 16) as u32,
            },
        )
    } else {
        None
    }
}


// ---------------------------------------------------------------------------------------
// Views
// ---------------------------------------------------------------------------------------

impl View for PPHD8FileData {
    type V = ContainerView;

    closed spec fn view(&self) -> ContainerView {
        ContainerView {
            start_of_index: self.start_of_index as int,
            start_of_data: self.start_of_data as int,
            entries: self.vag_entries@,
            data: self.data@,
        }
    }
}

impl View for VAGFile {
    type V = VAGFileView;

    closed spec fn view(&self) -> VAGFileView {
        VAGFileView {
            frequency: self.frequency,
            size: self.size,
            channels: self.channels,
            filename: self.filename@,
            body: self.body@,
        }
    }
}

// ---------------------------------------------------------------------------------------
// Byte helpers
// ---------------------------------------------------------------------------------------

/// Appends every byte of `src` to `out`.
fn push_all(out: &mut Vec<u8>, src: &[u8])
    ensures
        final(out)@ == old(out)@ + src@,
{
    let ghost start = out@;
    let mut i: usize = 0;
    while i < src.len()
        invariant
            i <= src@.len(),
            out@ == start + src@.subrange(0, i as int),
        decreases src@.len() - i,
    {
        out.push(src[i]);
        i = i + 1;
        assert(out@ =~= start + src@.subrange(0, i as int));
    }
    assert(src@.subrange(0, i as int) =~= src@);
}

/// Appends `n` zero bytes to `out`.
fn push_zeros(out: &mut Vec<u8>, n: usize)
    ensures
        final(out)@ == old(out)@ + zeros(n as nat),
{
    let ghost start = out@;
    let mut i: usize = 0;
    while i < n
        invariant
            i <= n,
            out@ == start + zeros(i as nat),
        decreases n - i,
    {
        out.push(0u8);
        i = i + 1;
        assert(out@ =~= start + zeros(i as nat));
    }
}

// ---------------------------------------------------------------------------------------
// Container reader and stream extractor
// ---------------------------------------------------------------------------------------

impl PPHD8FileData {
    /// Parses the index of the PPHD8 container whose bytes are `data`.
    ///
    /// The index section starts 64 bytes after the word at `0x38`; the data section starts at
    /// the word at `0xC`. Records are read from the index start on for as long as their three
    /// words end at or before the data section, and null entries are skipped. A read past the
    /// end of `data` is an `IOError`; nothing else is checked.
    pub fn parse_from_bytes(data: Vec<u8>) -> (r: Result<PPHD8FileData, ParseError>)
        ensures
            r is Ok <==> parse_spec(data@) is Some,
            r matches Ok(d) ==> parse_spec(data@) == Some(d@),
            r matches Err(e) ==> e is IOError,
    {
        let base = match read_u32_le(data.as_slice(), INDEX_BASE_OFFSET) {
            Some(v) => v,
            None => return Err(ParseError::IOError(unexpected_eof())),
        };
        assert(data@.len() >= INDEX_BASE_OFFSET + 4);
        let start_of_data = match read_u32_le(data.as_slice(), DATA_START_OFFSET) {
            Some(v) => v,
            None => return Err(ParseError::IOError(unexpected_eof())),
        };
        let start_of_index: u64 = base as u64 + INDEX_RESERVED_BYTES;
        let ghost ds = start_of_data as int;
        let ghost all = index_records(data@, start_of_index as int, ds);

        let mut vag_entries: Vec<VAGFileEntry> = Vec::new();
        let mut cursor: u64 = start_of_index;
        let ghost mut seen: Seq<VAGFileEntry> = Seq::empty();
        assert(prepend(seen, index_records(data@, cursor as int, ds)) =~= all) by {
            if let Some(s) = all {
                assert(seen + s =~= s);
            }
        }
        while cursor + 12 <= start_of_data as u64
            invariant
                cursor < 0x2_0000_0000,
                data@.len() >= INDEX_BASE_OFFSET + 4,
                ds == spec_start_of_data(data@),
                ds == start_of_data as int,
                start_of_index as int == spec_start_of_index(data@),
                all == index_records(data@, start_of_index as int, ds),
                all == prepend(seen, index_records(data@, cursor as int, ds)),
                vag_entries@ == retained(seen),
            decreases ds + 16 - cursor,
        {
            if (data.len() as u64) < 12 || cursor > data.len() as u64 - 12 {
                proof {
                    assert(index_records(data@, cursor as int, ds) is None);
                }
                return Err(ParseError::IOError(unexpected_eof()));
            }
            let offset_from_data_start = read_u32_le(data.as_slice(), cursor).unwrap();
            let frequency = read_u32_le(data.as_slice(), cursor + 4).unwrap();
            let size = read_u32_le(data.as_slice(), cursor + 8).unwrap();
            let entry = VAGFileEntry { frequency, size, offset_from_data_start };
            proof {
                let c = cursor as int;
                assert(entry == record_at(data@, c));
                let rest = index_records(data@, c + 16, ds);
                assert(c + 12 <= ds);
                assert(c + 12 <= data@.len());
                assert(index_records(data@, c, ds) == prepend(seq![entry], rest));
                if let Some(s) = rest {
                    assert(seen + (seq![entry] + s) =~= seen.push(entry) + s);
                }
                reveal(Seq::filter);
                assert(seen.push(entry).drop_last() =~= seen);
                seen = seen.push(entry);
            }
            if !(offset_from_data_start == 0xFFFF_FFFF && frequency == 0xFFFF_FFFF && size
                == 0xFFFF_FFFF) {
                vag_entries.push(entry);
            }
            cursor = cursor + INDEX_RECORD_BYTES;
        }
        proof {
            if let Some(s) = all {
                assert(seen + Seq::<VAGFileEntry>::empty() =~= seen);
            }
        }
        Ok(PPHD8FileData { start_of_index, vag_entries, start_of_data, data })
    }

    /// Start of the index section.
    pub fn start_of_index(&self) -> (r: u64)
        ensures
            r as int == self@.start_of_index,
    {
        self.start_of_index
    }

    /// Start of the data section.
    pub fn start_of_data(&self) -> (r: u32)
        ensures
            r as int == self@.start_of_data,
    {
        self.start_of_data
    }

    /// Number of retained entries.
    pub fn n_files(&self) -> (r: usize)
        ensures
            r as int == self@.entries.len(),
    {
        self.vag_entries.len()
    }

    /// The retained entries, in index order.
    pub fn entries(&self) -> (r: &[VAGFileEntry])
        ensures
            r@ == self@.entries,
    {
        self.vag_entries.as_slice()
    }

    /// Extracts the VAG file of entry `i`: its body is copied from the data section, and the
    /// name field and channel code are the fixed ones of the format. A body that the container
    /// holds only in part gives `IncompleteVag` with the number of bytes it does hold.
    pub fn get_vag_file(&self, i: usize) -> (r: Result<VAGFile, ParseError>)
        requires
            i < self@.entries.len(),
        ensures
            extract_entry_ok(self@, i as int, r),
    {
        let e = self.vag_entries[i];
        let start: u64 = self.start_of_data as u64 + e.offset_from_data_start as u64;
        let len: u64 = self.data.len() as u64;
        let actual: u64 = if start >= len {
            0
        } else if len - start < e.size as u64 {
            len - start
        } else {
            e.size as u64
        };
        if actual != e.size as u64 {
            return Err(
                ParseError::IncompleteVag {
                    entry_index: i,
                    expected_size: e.size,
                    actual_size: actual as u32,
                },
            );
        }
        let body = if e.size == 0 {
            Vec::new()
        } else {
            let s = start as usize;
            slice_to_vec(slice_subrange(self.data.as_slice(), s, s + e.size as usize))
        };
        let mut filename = [0u8; 32];
        filename[0] = 0x4C;
        filename[1] = 0x44;
        assert(filename@ =~= vag_filename());
        Ok(VAGFile { frequency: e.frequency, size: e.size, channels: VAG_CHANNELS, filename, body })
    }

    /// Extracts the VAG files of all entries, in index order; stops at the first entry whose
    /// body is incomplete and returns its error.
    pub fn get_vag_files(&self) -> (r: Result<Vec<VAGFile>, ParseError>)
        ensures
            extract_all_ok(self@, r),
    {
        let mut results: Vec<VAGFile> = Vec::new();
        let mut i: usize = 0;
        while i < self.vag_entries.len()
            invariant
                i <= self@.entries.len(),
                results@.len() == i,
                forall|k: int|
                    0 <= k < i ==> is_complete(self@, #[trigger] self@.entries[k])
                        && results@[k]@ == extracted(self@, self@.entries[k]),
            decreases self@.entries.len() - i,
        {
            match self.get_vag_file(i) {
                Ok(v) => {
                    results.push(v);
                },
                Err(e) => {
                    assert(!is_complete(self@, self@.entries[i as int]));
                    return Err(e);
                },
            }
            i = i + 1;
        }
        Ok(results)
    }
}

// ---------------------------------------------------------------------------------------
// Output encoder
// ---------------------------------------------------------------------------------------

impl VAGFile {
    /// A VAG file with the given fields; the body holds exactly `size` bytes.
    pub fn new(frequency: u32, size: u32, channels: u32, filename: [u8; 32], body: Vec<u8>) -> (r:
        VAGFile)
        requires
            body@.len() == size,
        ensures
            r@ == (VAGFileView { frequency, size, channels, filename: filename@, body: body@ }),
    {
        VAGFile { frequency, size, channels, filename, body }
    }

    pub fn frequency(&self) -> (r: u32)
        ensures
            r == self@.frequency,
    {
        self.frequency
    }

    pub fn size(&self) -> (r: u32)
        ensures
            r == self@.size,
    {
        self.size
    }

    pub fn channels(&self) -> (r: u32)
        ensures
            r == self@.channels,
    {
        self.channels
    }

    pub fn filename(&self) -> (r: &[u8; 32])
        ensures
            r@ == self@.filename,
    {
        &self.filename
    }

    pub fn body(&self) -> (r: &[u8])
        ensures
            r@ == self@.body,
    {
        self.body.as_slice()
    }

    /// The bytes of this file in the VAG format: "VAGp", the channel code, 4 zero bytes, the
    /// size, the frequency, 12 zero bytes, the name field and the body, numbers big-endian.
    pub fn to_bytes(&self) -> (r: Vec<u8>)
        ensures
            r@ == vag_bytes(self@),
    {
        let mut out: Vec<u8> = Vec::new();
        out.push(0x56u8);
        out.push(0x41u8);
        out.push(0x47u8);
        out.push(0x70u8);
        push_u32_be(&mut out, self.channels);
        push_zeros(&mut out, 4);
        push_u32_be(&mut out, self.size);
        push_u32_be(&mut out, self.frequency);
        push_zeros(&mut out, 12);
        push_all(&mut out, self.filename.as_slice());
        push_all(&mut out, self.body.as_slice());
        assert(out@ =~= vag_bytes(self@));
        out
    }

    /// Reads the channel code, size and frequency back from the header that `bytes` open
    /// with; `None` when they are shorter than a header or do not start with "VAGp".
    pub fn read_header(bytes: &[u8]) -> (r: Option<VAGHeader>)
        ensures
            r == header_spec(bytes@),
    {
        if bytes.len() < VAG_HEADER_BYTES {
            return None;
        }
        if !(bytes[0] == 0x56u8 && bytes[1] == 0x41u8 && bytes[2] == 0x47u8 && bytes[3] == 0x70u8) {
            assert(bytes@.subrange(0, 4) != vag_magic()) by {
                if bytes@.subrange(0, 4) == vag_magic() {
                    assert(bytes@[0] == bytes@.subrange(0, 4)[0]);
                    assert(bytes@[1] == bytes@.subrange(0, 4)[1]);
                    assert(bytes@[2] == bytes@.subrange(0, 4)[2]);
                    assert(bytes@[3] == bytes@.subrange(0, 4)[3]);
                }
            }
            return None;
        }
        assert(bytes@.subrange(0, 4) =~= vag_magic());
        let channels = read_u32_be(bytes, 4).unwrap();
        let size = read_u32_be(bytes, 12).unwrap();
        let frequency = read_u32_be(bytes, 16).unwrap();
        Some(VAGHeader { channels, size, frequency })
    }
}

// ---------------------------------------------------------------------------------------
// Laws
// ---------------------------------------------------------------------------------------

/// Number of records of `records` that are not null entries.
pub open spec fn count_non_null(records: Seq<VAGFileEntry>) -> nat
    decreases records.len(),
{
    if records.len() == 0 {
        0
    } else {
        (if is_null_entry(records[0]) {
            0nat
        } else {
            1nat
        }) + count_non_null(records.drop_first())
    }
}

proof fn lemma_retained_len(records: Seq<VAGFileEntry>)
    ensures
        retained(records).len() == count_non_null(records),
    decreases records.len(),
{
    broadcast use Seq::filter_distributes_over_add;

    reveal_with_fuel(Seq::filter, 2);
    if records.len() > 0 {
        let first = seq![records[0]];
        let rest = records.drop_first();
        lemma_retained_len(rest);
        assert(records =~= first + rest);
        assert(retained(first + rest) == retained(first) + retained(rest));
        assert(first.drop_last() =~= Seq::<VAGFileEntry>::empty());
    }
}

/// Every well-formed container keeps one entry for each index record that is not a null
/// entry, and no other.
pub proof fn lemma_entry_count(data: Seq<u8>)
    requires
        parse_spec(data) is Some,
    ensures
        parse_spec(data)->Some_0.entries.len() == count_non_null(container_records(data)->Some_0),
{
    lemma_retained_len(container_records(data)->Some_0);
}

/// Writing a VAG file and reading back the header of its bytes gives its channel code, size
/// and frequency.
pub proof fn lemma_header_round_trip(v: VAGFile)
    ensures
        header_spec(vag_bytes(v@)) == Some(
            VAGHeader { channels: v@.channels, size: v@.size, frequency: v@.frequency },
        ),
{
    broadcast use vstd::array::group_array_axioms;

    let b = vag_bytes(v@);
    assert(v.filename@.len() == 32);
    assert(b.len() >= VAG_HEADER_BYTES);
    assert(b.subrange(0, 4) =~= vag_magic());
    assert(b.subrange(4, 8) =~= be_bytes(v@.channels));
    assert(b.subrange(12, 16) =~= be_bytes(v@.size));
    assert(b.subrange(16, 20) =~= be_bytes(v@.frequency));
    lemma_be_round_trip(v@.channels, b, 4);
    lemma_be_round_trip(v@.size, b, 12);
    lemma_be_round_trip(v@.frequency, b, 16);
}

/// Two extractions of one container have the same outcome: the same VAG files, or the same
/// error.
pub proof fn lemma_extract_all_unique(
    c: ContainerView,
    first: Result<Vec<VAGFile>, ParseError>,
    second: Result<Vec<VAGFile>, ParseError>,
)
    requires
        extract_all_ok(c, first),
        extract_all_ok(c, second),
    ensures
        first is Ok <==> second is Ok,
        first matches Ok(a) ==> second matches Ok(b) && a@.len() == b@.len() && forall|i: int|
            0 <= i < a@.len() ==> (#[trigger] a@[i])@ == b@[i]@,
        first matches Err(ParseError::IncompleteVag { entry_index, expected_size, actual_size })
            ==> second matches Err(ParseError::IncompleteVag { entry_index: j, expected_size: e, actual_size: a })
            && j == entry_index && e == expected_size && a == actual_size,
{
    if !(forall|i: int| 0 <= i < c.entries.len() ==> is_complete(c, #[trigger] c.entries[i])) {
        let j1 = choose|j: int|
            0 <= j < c.entries.len() && !is_complete(c, #[trigger] c.entries[j]) && (forall|k: int|
                0 <= k < j ==> is_complete(c, #[trigger] c.entries[k])) && (first matches Err(
                ParseError::IncompleteVag { entry_index, expected_size, actual_size },
            ) && entry_index == j && expected_size == c.entries[j].size && actual_size
                == available(c, c.entries[j]));
        let j2 = choose|j: int|
            0 <= j < c.entries.len() && !is_complete(c, #[trigger] c.entries[j]) && (forall|k: int|
                0 <= k < j ==> is_complete(c, #[trigger] c.entries[k])) && (second matches Err(
                ParseError::IncompleteVag { entry_index, expected_size, actual_size },
            ) && entry_index == j && expected_size == c.entries[j].size && actual_size
                == available(c, c.entries[j]));
        if j1 < j2 {
            assert(is_complete(c, c.entries[j1]));
        }
        if j2 < j1 {
            assert(is_complete(c, c.entries[j2]));
        }
    }
}

} // verus!
