//! Bookkeeping of a batch of containers extracted together.
//!
//! Every container of a batch goes through the same pipeline: its bytes are parsed, its VAG
//! files are extracted, and each of them is written under a name made by
//! [`output_file_name`]. The work itself may run anywhere; [`BatchStatus`] is where its
//! outcomes land: one terminal state per container, matched by path, and one record per output
//! file that was attempted.
use vstd::prelude::*;
use crate::pphd8parser::{
    extract_all_ok, lemma_extract_all_unique, parse_spec, ParseError, PPHD8FileData, VAGFile,
};

verus! {

// ---------------------------------------------------------------------------------------
// One container
// ---------------------------------------------------------------------------------------

/// What processing the container `data` gives: the error of a short read where its index
/// cannot be parsed, else what extracting its entries gives.
pub open spec fn extract_container_ok(data: Seq<u8>, r: Result<Vec<VAGFile>, ParseError>) -> bool {
    match parse_spec(data) {
        None => r matches Err(e) && e is IOError,
        Some(c) => extract_all_ok(c, r),
    }
}

/// Parses the container `data` and extracts all of its VAG files.
pub fn extract_container(data: Vec<u8>) -> (r: Result<Vec<VAGFile>, ParseError>)
    ensures
        extract_container_ok(data@, r),
{
    match PPHD8FileData::parse_from_bytes(data) {
        Err(e) => Err(e),
        Ok(file) => file.get_vag_files(),
    }
}

/// Extracting the same container twice gives the same outcome, and byte-identical bodies for
/// every entry.
pub proof fn lemma_extraction_idempotent(
    data: Seq<u8>,
    first: Result<Vec<VAGFile>, ParseError>,
    second: Result<Vec<VAGFile>, ParseError>,
)
    requires
        extract_container_ok(data, first),
        extract_container_ok(data, second),
    ensures
        first is Ok <==> second is Ok,
        first matches Ok(a) ==> second matches Ok(b) && a@.len() == b@.len() && forall|i: int|
            0 <= i < a@.len() ==> (#[trigger] a@[i])@.body == b@[i]@.body,
{
    if let Some(c) = parse_spec(data) {
        lemma_extract_all_unique(c, first, second);
    }
}

// ---------------------------------------------------------------------------------------
// Output names
// ---------------------------------------------------------------------------------------

/// The character of the decimal digit `d`.
pub open spec fn digit_char(d: nat) -> char {
    seq!['0', '1', '2', '3', '4', '5', '6', '7', '8', '9'][d as int]
}

/// The decimal digits of `n`, most significant first, without leading zeros.
pub open spec fn decimal(n: nat) -> Seq<char>
    decreases n,
{
    if n < 10 {
        seq![digit_char(n)]
    } else {
        decimal(n / 10).push(digit_char(n % 10))
    }
}

fn digit_str(d: usize) -> (r: &'static str)
    requires
        d < 10,
    ensures
        r@ == seq![digit_char(d as nat)],
{
    proof {
        reveal_strlit("0");
        reveal_strlit("1");
        reveal_strlit("2");
        reveal_strlit("3");
        reveal_strlit("4");
        reveal_strlit("5");
        reveal_strlit("6");
        reveal_strlit("7");
        reveal_strlit("8");
        reveal_strlit("9");
    }
    if d == 0 {
        "0"
    } else if d == 1 {
        "1"
    } else if d == 2 {
        "2"
    } else if d == 3 {
        "3"
    } else if d == 4 {
        "4"
    } else if d == 5 {
        "5"
    } else if d == 6 {
        "6"
    } else if d == 7 {
        "7"
    } else if d == 8 {
        "8"
    } else {
        "9"
    }
}

fn append_decimal(s: &mut String, n: usize)
    ensures
        final(s)@ == old(s)@ + decimal(n as nat),
    decreases n,
{
    if n >= 10 {
        append_decimal(s, n / 10);
    }
    s.append(digit_str(n % 10));
    assert(decimal(n as nat) == if n < 10 {
        seq![digit_char(n as nat)]
    } else {
        decimal((n / 10) as nat).push(digit_char((n % 10) as nat))
    });
}

/// The name of the file written for entry `i` of a container: `prefix`, then
/// `extracted_<i>.vag`.
pub fn output_file_name(prefix: &str, i: usize) -> (r: String)
    ensures
        r@ == prefix@ + "extracted_"@ + decimal(i as nat) + ".vag"@,
{
    let mut name = String::from_str(prefix);
    name.append("extracted_");
    append_decimal(&mut name, i);
    name.append(".vag");
    name
}

// ---------------------------------------------------------------------------------------
// Batch status
// ---------------------------------------------------------------------------------------

/// Where one container of a batch stands. `Success` and `Error` are terminal.
#[derive(Debug)]
pub enum FileState {
    Pending,
    Success,
    Error(ParseError),
}

impl FileState {
    pub fn is_pending(&self) -> (r: bool)
        ensures
            r == (*self is Pending),
    {
        match self {
            FileState::Pending => true,
            _ => false,
        }
    }
}

/// The outcomes gathered so far for a batch: one state per container, and one record per
/// output file that was attempted, with whether it was written.
pub struct BatchStatus {
    paths: Vec<String>,
    states: Vec<FileState>,
    generated_files: Vec<(String, bool)>,
}

/// The mathematical content of a batch's status.
pub struct BatchView {
    pub paths: Seq<String>,
    pub states: Seq<FileState>,
    pub generated_files: Seq<(String, bool)>,
}

impl View for BatchStatus {
    type V = BatchView;

    closed spec fn view(&self) -> BatchView {
        BatchView {
            paths: self.paths@,
            states: self.states@,
            generated_files: self.generated_files@,
        }
    }
}

/// Whether container `i` is the first one with path `p` that is still pending.
pub open spec fn is_first_pending(v: BatchView, p: Seq<char>, i: int) -> bool {
    &&& 0 <= i < v.paths.len()
    &&& i < v.states.len()
    &&& v.paths[i]@ == p
    &&& v.states[i] is Pending
    &&& forall|k: int| 0 <= k < i ==> !(v.paths[k]@ == p && #[trigger] v.states[k] is Pending)
}

/// The status after an outcome `s` arrives for path `p`: it settles the first container with
/// that path that is still pending, and changes nothing where there is none.
pub open spec fn settle(v: BatchView, p: Seq<char>, s: FileState) -> BatchView {
    if exists|i: int| is_first_pending(v, p, i) {
        let i = choose|i: int| is_first_pending(v, p, i);
        BatchView { states: v.states.update(i, s), ..v }
    } else {
        v
    }
}

/// Whether no container of the batch is pending any more.
pub open spec fn all_settled(v: BatchView) -> bool {
    forall|i: int| 0 <= i < v.states.len() ==> !(#[trigger] v.states[i] is Pending)
}

proof fn lemma_first_pending_unique(v: BatchView, p: Seq<char>, i: int, j: int)
    requires
        is_first_pending(v, p, i),
        is_first_pending(v, p, j),
    ensures
        i == j,
{
    if i < j {
        assert(!(v.paths[i]@ == p && v.states[i] is Pending));
    }
    if j < i {
        assert(!(v.paths[j]@ == p && v.states[j] is Pending));
    }
}

impl BatchStatus {
    /// The two per-container sequences have one element per container.
    pub closed spec fn wf(&self) -> bool {
        self.paths@.len() == self.states@.len()
    }

    /// A batch of the containers at `paths`, all pending, with no output file attempted.
    pub fn new(paths: &Vec<String>) -> (r: BatchStatus)
        ensures
            r.wf(),
            r@.paths == paths@,
            r@.states.len() == paths@.len(),
            forall|i: int| 0 <= i < paths@.len() ==> #[trigger] r@.states[i] is Pending,
            r@.generated_files.len() == 0,
    {
        let mut own: Vec<String> = Vec::new();
        let mut states: Vec<FileState> = Vec::new();
        let mut i: usize = 0;
        while i < paths.len()
            invariant
                i <= paths@.len(),
                own@ == paths@.subrange(0, i as int),
                states@.len() == i,
                forall|k: int| 0 <= k < i ==> #[trigger] states@[k] is Pending,
            decreases paths@.len() - i,
        {
            own.push(paths[i].clone());
            states.push(FileState::Pending);
            i = i + 1;
            assert(own@ =~= paths@.subrange(0, i as int));
        }
        assert(own@ =~= paths@);
        BatchStatus { paths: own, states, generated_files: Vec::new() }
    }

    /// Number of containers in the batch.
    pub fn n_files(&self) -> (r: usize)
        requires
            self.wf(),
        ensures
            r == self@.paths.len(),
            r == self@.states.len(),
    {
        self.paths.len()
    }

    /// Path of container `i`.
    pub fn path(&self, i: usize) -> (r: &String)
        requires
            i < self@.paths.len(),
        ensures
            *r == self@.paths[i as int],
    {
        &self.paths[i]
    }

    /// State of container `i`.
    pub fn state(&self, i: usize) -> (r: &FileState)
        requires
            i < self@.states.len(),
        ensures
            *r == self@.states[i as int],
    {
        &self.states[i]
    }

    /// The output files attempted so far, in the order their records arrived.
    pub fn generated_files(&self) -> (r: &[(String, bool)])
        ensures
            r@ == self@.generated_files,
    {
        self.generated_files.as_slice()
    }

    /// The first container with path `path` that is still pending, if any.
    fn find_first_pending(&self, path: &String) -> (r: Option<usize>)
        requires
            self.wf(),
        ensures
            r matches Some(i) ==> is_first_pending(self@, path@, i as int),
            r is None ==> !exists|i: int| is_first_pending(self@, path@, i),
    {
        let mut i: usize = 0;
        while i < self.paths.len()
            invariant
                self.wf(),
                i <= self@.paths.len(),
                forall|k: int|
                    0 <= k < i ==> !(self@.paths[k]@ == path@ && #[trigger] self@.states[k] is Pending),
            decreases self@.paths.len() - i,
        {
            if self.states[i].is_pending() && self.paths[i] == *path {
                return Some(i);
            }
            i = i + 1;
        }
        None
    }

    /// Settles the first pending container with path `path` with the state `s`.
    fn settle_first_pending(&mut self, path: &String, s: FileState)
        requires
            old(self).wf(),
        ensures
            final(self).wf(),
            final(self)@ == settle(old(self)@, path@, s),
    {
        match self.find_first_pending(path) {
            Some(i) => {
                proof {
                    let j = choose|j: int| is_first_pending(self@, path@, j);
                    lemma_first_pending_unique(self@, path@, i as int, j);
                }
                let ghost v = self@;
                self.states.set(i, s);
                assert(self@ == (BatchView { states: v.states.update(i as int, s), ..v }));
            },
            None => {},
        }
    }

    /// Records that the container at `path` was processed: the first container with that path
    /// that is still pending becomes `Success`.
    pub fn record_success(&mut self, path: &String)
        requires
            old(self).wf(),
        ensures
            final(self).wf(),
            final(self)@ == settle(old(self)@, path@, FileState::Success),
    {
        self.settle_first_pending(path, FileState::Success);
    }

    /// Records that the container at `path` failed with `error`: the first container with that
    /// path that is still pending takes that error.
    pub fn record_error(&mut self, path: &String, error: ParseError)
        requires
            old(self).wf(),
        ensures
            final(self).wf(),
            final(self)@ == settle(old(self)@, path@, FileState::Error(error)),
    {
        self.settle_first_pending(path, FileState::Error(error));
    }

    /// Records an attempt to write the output file at `path`, and whether it succeeded.
    pub fn record_generated(&mut self, path: String, ok: bool)
        requires
            old(self).wf(),
        ensures
            final(self).wf(),
            final(self)@.paths == old(self)@.paths,
            final(self)@.states == old(self)@.states,
            final(self)@.generated_files == old(self)@.generated_files.push((path, ok)),
    {
        self.generated_files.push((path, ok));
    }

    /// Whether every container of the batch has reached a terminal state.
    pub fn is_work_done(&self) -> (r: bool)
        requires
            self.wf(),
        ensures
            r == all_settled(self@),
    {
        let mut i: usize = 0;
        while i < self.states.len()
            invariant
                i <= self@.states.len(),
                forall|k: int| 0 <= k < i ==> !(#[trigger] self@.states[k] is Pending),
            decreases self@.states.len() - i,
        {
            if self.states[i].is_pending() {
                return false;
            }
            i = i + 1;
        }
        true
    }
}

/// An outcome never reopens a container: every container that had reached a terminal state
/// keeps it, and only the container that the outcome settles changes.
pub proof fn lemma_settle_keeps_terminal(v: BatchView, p: Seq<char>, s: FileState, i: int)
    requires
        0 <= i < v.states.len(),
        !(v.states[i] is Pending),
    ensures
        settle(v, p, s).states[i] == v.states[i],
        settle(v, p, s).paths == v.paths,
        settle(v, p, s).states.len() == v.states.len(),
{
    if exists|j: int| is_first_pending(v, p, j) {
        let j = choose|j: int| is_first_pending(v, p, j);
        assert(j != i);
    }
}

} // verus!
