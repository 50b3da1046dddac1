//! Fetching the local model: four files, each streamed to a partial file and
//! renamed once it is whole, so that a half-finished download never looks ready.
//! The decisions are here; the caller asks the disk and the network.
use crate::clock::Duration;
use vstd::prelude::*;

verus! {

pub const BASE_URL: &'static str = "https://huggingface.co/istupakov/parakeet-tdt-0.6b-v3-onnx/resolve/main";

/// The directory of the model, below that of all models.
pub const MODEL_DIR: &'static str = "parakeet-tdt-0.6b-v3-int8";

/// How many files the model has.
pub const FILE_COUNT: usize = 4;

/// Chunks are reported once more than this many milliseconds have passed.
pub const REPORT_MS: u64 = 100;

/// The name of the file at `i`.
pub open spec fn file_at(i: int) -> Seq<char> {
    if i == 0 {
        "encoder-model.int8.onnx"@
    } else if i == 1 {
        "decoder_joint-model.int8.onnx"@
    } else if i == 2 {
        "nemo128.onnx"@
    } else {
        "vocab.txt"@
    }
}

/// The name of the file at `i`.
pub fn required_file(i: usize) -> (s: &'static str)
    requires
        i < FILE_COUNT,
    ensures
        s@ == file_at(i as int),
{
    if i == 0 {
        "encoder-model.int8.onnx"
    } else if i == 1 {
        "decoder_joint-model.int8.onnx"
    } else if i == 2 {
        "nemo128.onnx"
    } else {
        "vocab.txt"
    }
}

/// The model is there when all of its files are; `found` says which are.
pub fn is_present(found: &Vec<bool>) -> (r: bool)
    requires
        found@.len() == FILE_COUNT,
    ensures
        r == (forall|i: int| 0 <= i < FILE_COUNT ==> #[trigger] found@[i]),
{
    let mut i: usize = 0;
    while i < FILE_COUNT
        invariant
            i <= FILE_COUNT,
            found@.len() == FILE_COUNT,
            forall|k: int| 0 <= k < i ==> #[trigger] found@[k],
        decreases FILE_COUNT - i,
    {
        if !found[i] {
            return false;
        }
        i += 1;
    }
    true
}

/// How far a download has come.
#[derive(Debug, Clone)]
pub struct Progress {
    pub file_index: usize,
    pub file_count: usize,
    pub file_name: String,
    pub bytes_done: u64,
    pub bytes_total: Option<u64>,
}

/// What a [`Progress`] says.
pub struct ProgressView {
    pub file_index: int,
    pub bytes_done: u64,
    pub bytes_total: Option<u64>,
}

impl Progress {
    /// This reports on the file that `v` speaks of, by its name, out of all.
    pub open spec fn says(&self, v: ProgressView) -> bool {
        &&& self.file_index == v.file_index
        &&& self.file_count == FILE_COUNT
        &&& self.file_name@ == file_at(v.file_index)
        &&& self.bytes_done == v.bytes_done
        &&& self.bytes_total == v.bytes_total
    }
}

/// Where the download of the current file stands.
#[derive(Debug, Clone, Copy, PartialEq, Eq)]
pub enum Stage {
    /// Is it there already?
    Check,
    /// It has been asked for.
    Request,
    /// It is coming in.
    Stream { total: Option<u64>, done: u64 },
    /// It is whole, under its partial name.
    Rename { total: Option<u64>, done: u64 },
    /// All files are there.
    Done,
    /// Given up.
    Failed,
}

/// What the caller found.
#[derive(Debug, Clone)]
pub enum Event {
    /// The file is there, with this size where that is known.
    Present { size: Option<u64> },
    /// The file is not there.
    Missing,
    /// The server sends it, with this length where it says so.
    Accepted { total: Option<u64> },
    /// The server does not; `status` says why.
    Refused { status: String },
    /// A piece arrived and was written; the last report was `since_report` ago.
    Chunk { bytes: u64, since_report: Duration },
    /// Nothing more comes.
    End,
    /// The partial file has its final name.
    Renamed,
}

/// What the caller is to do next.
#[derive(Debug, Clone, PartialEq, Eq)]
pub enum Action {
    /// See whether this file is there.
    Check { file: &'static str },
    /// Ask for this.
    Get { url: String },
    /// Read on.
    Read,
    /// Give the partial file its final name.
    Rename,
    /// All files are there.
    Finish,
    /// Give up.
    Fail { message: String },
}

/// What an [`Action`] holds.
pub enum ActionView {
    Check { file: Seq<char> },
    Get { url: Seq<char> },
    Read,
    Rename,
    Finish,
    Fail { message: Seq<char> },
}

impl View for Action {
    type V = ActionView;

    open spec fn view(&self) -> ActionView {
        match self {
            Action::Check { file } => ActionView::Check { file: file@ },
            Action::Get { url } => ActionView::Get { url: url@ },
            Action::Read => ActionView::Read,
            Action::Rename => ActionView::Rename,
            Action::Finish => ActionView::Finish,
            Action::Fail { message } => ActionView::Fail { message: message@ },
        }
    }
}

/// The address of the file at `i`.
pub open spec fn url_of(i: int) -> Seq<char> {
    BASE_URL@ + "/"@ + file_at(i)
}

/// A download in progress.
#[derive(Debug, Clone, Copy, PartialEq, Eq)]
pub struct Download {
    pub index: usize,
    pub stage: Stage,
}

/// This event can happen here.
pub open spec fn expects(d: Download, ev: Event) -> bool {
    &&& d.index < FILE_COUNT
    &&& match d.stage {
        Stage::Check => ev is Present || ev is Missing,
        Stage::Request => ev is Accepted || ev is Refused,
        Stage::Stream { done, .. } => match ev {
            Event::Chunk { bytes, .. } => done + bytes <= u64::MAX,
            Event::End => true,
            _ => false,
        },
        Stage::Rename { .. } => ev is Renamed,
        _ => false,
    }
}

/// On to the next file, or done where this was the last one.
pub open spec fn onward(i: int) -> Download {
    if i + 1 < FILE_COUNT {
        Download { index: (i + 1) as usize, stage: Stage::Check }
    } else {
        Download { index: i as usize, stage: Stage::Done }
    }
}

/// The download after an event.
pub open spec fn advanced(d: Download, ev: Event) -> Download {
    match (d.stage, ev) {
        (Stage::Check, Event::Present { .. }) => onward(d.index as int),
        (Stage::Check, _) => Download { stage: Stage::Request, ..d },
        (Stage::Request, Event::Accepted { total }) => Download {
            stage: Stage::Stream { total, done: 0 },
            ..d
        },
        (Stage::Request, _) => Download { stage: Stage::Failed, ..d },
        (Stage::Stream { total, done }, Event::Chunk { bytes, .. }) => Download {
            stage: Stage::Stream { total, done: (done + bytes) as u64 },
            ..d
        },
        (Stage::Stream { total, done }, _) => Download { stage: Stage::Rename { total, done }, ..d },
        (Stage::Rename { .. }, _) => onward(d.index as int),
        _ => d,
    }
}

/// What is to be done where the download stands.
pub open spec fn next_action(d: Download, ev: Event) -> ActionView {
    match advanced(d, ev).stage {
        Stage::Check => ActionView::Check { file: file_at(advanced(d, ev).index as int) },
        Stage::Request => ActionView::Get { url: url_of(d.index as int) },
        Stage::Stream { .. } => ActionView::Read,
        Stage::Rename { .. } => ActionView::Rename,
        Stage::Done => ActionView::Finish,
        Stage::Failed => ActionView::Fail {
            message: "download "@ + url_of(d.index as int) + " failed: HTTP "@ + (match ev {
                Event::Refused { status } => status@,
                _ => Seq::empty(),
            }),
        },
    }
}

/// What an event is worth reporting: a file that was there or that is whole now,
/// and in between a chunk once in a while.
pub open spec fn reported(d: Download, ev: Event) -> Option<ProgressView> {
    match (d.stage, ev) {
        (Stage::Check, Event::Present { size }) => Some(
            ProgressView {
                file_index: d.index as int,
                bytes_done: match size {
                    Some(n) => n,
                    None => 0,
                },
                bytes_total: size,
            },
        ),
        (Stage::Stream { total, done }, Event::Chunk { bytes, since_report }) => if since_report.nanos
            > REPORT_MS * 1_000_000 {
            Some(
                ProgressView {
                    file_index: d.index as int,
                    bytes_done: (done + bytes) as u64,
                    bytes_total: total,
                },
            )
        } else {
            None
        },
        (Stage::Rename { total, done }, _) => Some(
            ProgressView {
                file_index: d.index as int,
                bytes_done: done,
                bytes_total: match total {
                    Some(n) => Some(n),
                    None => Some(done),
                },
            },
        ),
        _ => None,
    }
}

fn file_url(i: usize) -> (s: String)
    requires
        i < FILE_COUNT,
    ensures
        s@ == url_of(i as int),
{
    let mut s = BASE_URL.to_owned();
    s.push_str("/");
    s.push_str(required_file(i));
    s
}

impl Download {
    /// At the first file.
    pub fn new() -> (r: (Download, Action))
        ensures
            r.0 == (Download { index: 0, stage: Stage::Check }),
            r.1@ == (ActionView::Check { file: file_at(0) }),
    {
        (Download { index: 0, stage: Stage::Check }, Action::Check { file: required_file(0) })
    }

    fn report(&self, bytes_done: u64, bytes_total: Option<u64>) -> (p: Progress)
        requires
            self.index < FILE_COUNT,
        ensures
            p.says(ProgressView { file_index: self.index as int, bytes_done, bytes_total }),
    {
        Progress {
            file_index: self.index,
            file_count: FILE_COUNT,
            file_name: required_file(self.index).to_owned(),
            bytes_done,
            bytes_total,
        }
    }

    /// Goes on to the next file.
    fn go_on(&mut self) -> (a: Action)
        requires
            old(self).index < FILE_COUNT,
        ensures
            *final(self) == onward(old(self).index as int),
            a@ == (match final(self).stage {
                Stage::Check => ActionView::Check { file: file_at(final(self).index as int) },
                _ => ActionView::Finish,
            }),
    {
        if self.index + 1 < FILE_COUNT {
            self.index = self.index + 1;
            self.stage = Stage::Check;
            Action::Check { file: required_file(self.index) }
        } else {
            self.stage = Stage::Done;
            Action::Finish
        }
    }

    /// Takes what the caller found and says what to report and what to do next.
    pub fn on(&mut self, ev: Event) -> (r: (Option<Progress>, Action))
        requires
            expects(*old(self), ev),
        ensures
            *final(self) == advanced(*old(self), ev),
            r.1@ == next_action(*old(self), ev),
            match reported(*old(self), ev) {
                Some(v) => r.0 matches Some(p) && p.says(v),
                None => r.0 is None,
            },
    {
        match (self.stage, ev) {
            (Stage::Check, Event::Present { size }) => {
                let done: u64 = match size {
                    Some(n) => n,
                    None => 0,
                };
                let progress = self.report(done, size);
                (Some(progress), self.go_on())
            },
            (Stage::Check, _) => {
                self.stage = Stage::Request;
                (None, Action::Get { url: file_url(self.index) })
            },
            (Stage::Request, Event::Accepted { total }) => {
                self.stage = Stage::Stream { total, done: 0 };
                (None, Action::Read)
            },
            (Stage::Request, Event::Refused { status }) => {
                self.stage = Stage::Failed;
                let mut message = "download ".to_owned();
                message.push_str(file_url(self.index).as_str());
                message.push_str(" failed: HTTP ");
                message.push_str(status.as_str());
                (None, Action::Fail { message })
            },
            (Stage::Stream { total, done }, Event::Chunk { bytes, since_report }) => {
                let done: u64 = done + bytes;
                self.stage = Stage::Stream { total, done };
                if since_report.nanos > REPORT_MS * 1_000_000 {
                    (Some(self.report(done, total)), Action::Read)
                } else {
                    (None, Action::Read)
                }
            },
            (Stage::Stream { total, done }, _) => {
                self.stage = Stage::Rename { total, done };
                (None, Action::Rename)
            },
            (Stage::Rename { total, done }, _) => {
                let whole = match total {
                    Some(n) => Some(n),
                    None => Some(done),
                };
                let progress = self.report(done, whole);
                (Some(progress), self.go_on())
            },
            _ => (None, Action::Finish),
        }
    }
}

/// A file gets its final name only once nothing more of it comes.
pub proof fn law_only_whole_files_are_renamed(d: Download, ev: Event)
    requires
        expects(d, ev),
        next_action(d, ev) is Rename,
    ensures
        d.stage is Stream,
        ev is End,
{
}

/// A download finishes only behind its last file, which was there or has just
/// been renamed; and it never skips a file.
pub proof fn law_no_file_is_skipped(d: Download, ev: Event)
    requires
        expects(d, ev),
    ensures
        advanced(d, ev).stage is Done ==> d.index == FILE_COUNT - 1 && (ev is Present
            || ev is Renamed),
        advanced(d, ev).index == d.index || advanced(d, ev).index == d.index + 1 && (ev is Present
            || ev is Renamed),
        advanced(d, ev).index < FILE_COUNT,
{
}

/// What is reported never runs backwards within a file.
pub proof fn law_progress_never_shrinks(d: Download, total: Option<u64>, done: u64, ev: Event)
    requires
        expects(d, ev),
        d.stage == (Stage::Stream { total, done }),
    ensures
        advanced(d, ev).stage matches Stage::Stream { done: n, .. } ==> n >= done,
        reported(d, ev) matches Some(p) ==> p.bytes_done >= done,
{
}

/// A file that is there is not fetched: it is reported with its size, and the next one is
/// looked at, or the download is over behind the last. One that is missing is asked for, at
/// its own address, and nothing is reported of it yet.
pub proof fn law_only_what_is_missing_is_fetched(d: Download, size: Option<u64>)
    requires
        d.stage == Stage::Check,
        d.index < 4,
    ensures
        ({
            let there = Event::Present { size };
            &&& d.index < 3 ==> advanced(d, there) == (Download {
                index: (d.index + 1) as usize,
                stage: Stage::Check,
            }) && next_action(d, there) == (ActionView::Check { file: file_at(d.index + 1) })
            &&& d.index == 3 ==> advanced(d, there).stage == Stage::Done && next_action(d, there)
                == ActionView::Finish
            &&& reported(d, there) == Some(
                ProgressView {
                    file_index: d.index as int,
                    bytes_done: match size {
                        Some(n) => n,
                        None => 0,
                    },
                    bytes_total: size,
                },
            )
            &&& advanced(d, Event::Missing) == (Download { stage: Stage::Request, ..d })
            &&& next_action(d, Event::Missing) == (ActionView::Get {
                url: "https://huggingface.co/istupakov/parakeet-tdt-0.6b-v3-onnx/resolve/main"@
                    + "/"@ + file_at(d.index as int),
            })
            &&& reported(d, Event::Missing) is None
        }),
{
}

/// What comes in adds up, chunk by chunk, from nothing. A chunk is reported where more than
/// a tenth of a second has passed since the last report, with all that is there by then.
pub proof fn law_chunks_add_up(
    d: Download,
    total: Option<u64>,
    done: u64,
    bytes: u64,
    since_report: Duration,
)
    requires
        done + bytes <= u64::MAX,
    ensures
        d.stage == Stage::Request ==> advanced(d, Event::Accepted { total }) == (Download {
            stage: Stage::Stream { total, done: 0 },
            ..d
        }) && next_action(d, Event::Accepted { total }) == ActionView::Read,
        d.stage == (Stage::Stream { total, done }) ==> {
            let chunk = Event::Chunk { bytes, since_report };
            let sum = (done + bytes) as u64;
            &&& advanced(d, chunk) == (Download {
                stage: Stage::Stream { total, done: sum },
                ..d
            })
            &&& next_action(d, chunk) == ActionView::Read
            &&& since_report.nanos > 100_000_000 ==> reported(d, chunk) == Some(
                ProgressView {
                    file_index: d.index as int,
                    bytes_done: sum,
                    bytes_total: total,
                },
            )
            &&& since_report.nanos <= 100_000_000 ==> reported(d, chunk) is None
            &&& advanced(d, Event::End) == (Download { stage: Stage::Rename { total, done }, ..d })
            &&& next_action(d, Event::End) == ActionView::Rename
            &&& reported(d, Event::End) is None
        },
{
}

/// A file that has its final name is reported as whole, by the length that was announced
/// or else by what came in, and the download goes on to the next one.
pub proof fn law_a_whole_file_is_reported(d: Download, total: Option<u64>, done: u64)
    requires
        d.stage == (Stage::Rename { total, done }),
        d.index < 4,
    ensures
        reported(d, Event::Renamed) == Some(
            ProgressView {
                file_index: d.index as int,
                bytes_done: done,
                bytes_total: if total is Some {
                    total
                } else {
                    Some(done)
                },
            },
        ),
        d.index < 3 ==> advanced(d, Event::Renamed) == (Download {
            index: (d.index + 1) as usize,
            stage: Stage::Check,
        }),
        d.index == 3 ==> advanced(d, Event::Renamed).stage == Stage::Done,
{
}

/// A file that the server refuses ends the download, with the server's word for why.
pub proof fn law_a_refusal_ends_the_download(d: Download, status: String)
    requires
        d.stage == Stage::Request,
    ensures
        advanced(d, Event::Refused { status }) == (Download { stage: Stage::Failed, ..d }),
        next_action(d, Event::Refused { status }) == (ActionView::Fail {
            message: "download "@ + url_of(d.index as int) + " failed: HTTP "@ + status@,
        }),
        reported(d, Event::Refused { status }) is None,
{
}

/// The model's four files, each under a name of its own.
pub proof fn law_the_files_are_different(i: int, j: int)
    requires
        0 <= i < 4,
        0 <= j < 4,
        file_at(i) == file_at(j),
    ensures
        i == j,
        file_at(0) == "encoder-model.int8.onnx"@,
        file_at(1) == "decoder_joint-model.int8.onnx"@,
        file_at(2) == "nemo128.onnx"@,
        file_at(3) == "vocab.txt"@,
{
    reveal_strlit("encoder-model.int8.onnx");
    reveal_strlit("decoder_joint-model.int8.onnx");
    reveal_strlit("nemo128.onnx");
    reveal_strlit("vocab.txt");
    assert(file_at(0).len() == 23 && file_at(1).len() == 29);
    assert(file_at(2).len() == 12 && file_at(3).len() == 9);
}

/// What can happen at each stage of a download, and nothing else: a look finds the file or
/// does not, a request is accepted or refused, a stream goes on or ends, and a whole file
/// gets its name. Behind the end nothing more happens.
pub proof fn law_what_can_happen_when(d: Download, ev: Event)
    requires
        d.index < 4,
    ensures
        d.stage is Check ==> (expects(d, ev) <==> ev is Present || ev is Missing),
        d.stage is Request ==> (expects(d, ev) <==> ev is Accepted || ev is Refused),
        d.stage is Rename ==> (expects(d, ev) <==> ev is Renamed),
        d.stage is Stream && ev is End ==> expects(d, ev),
        d.stage is Stream && !(ev is End) && !(ev is Chunk) ==> !expects(d, ev),
        d.stage matches Stage::Stream { done, .. } ==> (ev matches Event::Chunk { bytes, .. } ==> (
        expects(d, ev) <==> done + bytes <= u64::MAX)),
        d.stage is Done || d.stage is Failed ==> !expects(d, ev),
{
}

} // verus!
