//! The download of the local model as the settings show it. Whatever way a
//! download ends, the state stops running.
use crate::clock;
use crate::clock::{share_of, Duration, WHOLE};
use crate::text;
use crate::text::{chars_of, decimal};
use crate::transcribe::parakeet_download::Progress;
use vstd::prelude::*;

verus! {

/// What the settings show of a download.
pub struct DownloadState {
    pub model_present: bool,
    pub running: bool,
    pub progress: Option<Progress>,
    pub finished: Option<Result<(), String>>,
}

/// How a download came to its end.
pub enum Ending {
    /// It returned.
    Returned(Result<(), String>),
    /// It crashed, with what it said where it said something.
    Crashed(Option<String>),
}

/// What the row of the local model shows.
#[derive(Clone, Copy, Debug, PartialEq, Eq, Structural)]
pub enum ModelRow {
    Installed,
    Running,
    Offer,
}

/// A download that has just been started: any previous attempt is forgotten.
pub open spec fn started(s: DownloadState) -> DownloadState {
    DownloadState { running: true, progress: None, finished: None, ..s }
}

/// `after` is `before` once the download has ended: it no longer runs, and what it
/// returned is kept. A crash is kept as an error, like any other failure.
pub open spec fn ended(
    before: DownloadState,
    ending: Ending,
    model_present: bool,
    after: DownloadState,
) -> bool {
    &&& after.finished matches Some(r) && match ending {
        Ending::Returned(result) => r == result,
        Ending::Crashed(message) => r matches Err(e) && e@ == crash_text(message),
    }
    &&& after == (DownloadState {
        model_present,
        running: false,
        finished: after.finished,
        ..before
    })
}

/// What the row of the local model shows.
pub open spec fn row_of(s: DownloadState) -> ModelRow {
    if s.running {
        ModelRow::Running
    } else if s.model_present {
        ModelRow::Installed
    } else {
        ModelRow::Offer
    }
}

impl DownloadState {
    pub fn new(model_present: bool) -> (s: Self)
        ensures
            s == (DownloadState { model_present, running: false, progress: None, finished: None }),
    {
        DownloadState { model_present, running: false, progress: None, finished: None }
    }

    /// Enters the progress state, forgetting any previous attempt.
    pub fn start(&mut self)
        ensures
            *final(self) == started(*old(self)),
    {
        self.running = true;
        self.finished = None;
        self.progress = None;
    }

    /// Takes a progress report.
    pub fn report(&mut self, progress: Progress)
        ensures
            *final(self) == (DownloadState { progress: Some(progress), ..*old(self) }),
    {
        self.progress = Some(progress);
    }

    /// The download ended; `model_present` says whether the model is there now. A
    /// crash ends it with an error, like any other failure.
    pub fn finish(&mut self, ending: Ending, model_present: bool)
        ensures
            ended(*old(self), ending, model_present, *final(self)),
    {
        self.running = false;
        self.model_present = model_present;
        self.finished = Some(
            match ending {
                Ending::Returned(result) => result,
                Ending::Crashed(message) => Err(crash_error(message)),
            },
        );
    }

    /// The error of the last attempt, where it failed.
    pub fn error(&self) -> (r: Option<&str>)
        ensures
            match self.finished {
                Some(Err(e)) => r matches Some(s) && s@ == e@,
                _ => r is None,
            },
    {
        match &self.finished {
            Some(Err(e)) => Some(e.as_str()),
            _ => None,
        }
    }

    /// What the row of the local model shows.
    pub fn row(&self) -> (r: ModelRow)
        ensures
            r == row_of(*self),
    {
        if self.model_present && !self.running {
            ModelRow::Installed
        } else if self.running {
            ModelRow::Running
        } else {
            ModelRow::Offer
        }
    }
}

/// What a crash leaves behind as the error of a download.
pub open spec fn crash_text(message: Option<String>) -> Seq<char> {
    "Download crashed: "@ + (match message {
        Some(m) => m@,
        None => "unknown error"@,
    })
}

fn crash_error(message: Option<String>) -> (e: String)
    ensures
        e@ == crash_text(message),
{
    let mut e = "Download crashed: ".to_owned();
    match message {
        Some(m) => e.push_str(m.as_str()),
        None => e.push_str("unknown error"),
    }
    e
}

/// How much of the current file is there, in billionths. Of a file of unknown or
/// no length nothing is.
pub open spec fn within_file(done: u64, total: Option<u64>) -> int {
    match total {
        Some(n) => if n > 0 {
            clock::share(done as int, n as int)
        } else {
            0
        },
        None => 0,
    }
}

/// How much of the whole download is there, in billionths: every file counts the
/// same.
pub open spec fn whole_download(p: Progress) -> int {
    let count: int = if p.file_count > 1 {
        p.file_count as int
    } else {
        1
    };
    let share = (p.file_index * WHOLE + within_file(p.bytes_done, p.bytes_total)) / count;
    if share > WHOLE {
        WHOLE as int
    } else {
        share
    }
}

/// How much of the whole download is there, in billionths.
pub fn progress_fraction(p: &Progress) -> (s: u64)
    ensures
        s == whole_download(*p),
        s <= WHOLE,
{
    let count: u128 = if p.file_count > 1 {
        p.file_count as u128
    } else {
        1
    };
    let within: u64 = match p.bytes_total {
        Some(total) if total > 0 => share_of(
            Duration { nanos: p.bytes_done },
            Duration { nanos: total },
        ),
        _ => 0,
    };
    let sum: u128 = p.file_index as u128 * WHOLE as u128 + within as u128;
    let share: u128 = sum / count;
    if share > WHOLE as u128 {
        WHOLE
    } else {
        share as u64
    }
}

/// A number of bytes in tenths of a megabyte, rounded half to even.
pub open spec fn tenths(bytes: int) -> int {
    let whole = bytes * 10 / 1_048_576;
    let rest = bytes * 10 % 1_048_576;
    if rest > 524_288 || (rest == 524_288 && whole % 2 == 1) {
        whole + 1
    } else {
        whole
    }
}

/// A text filled up to six characters with spaces in front.
pub open spec fn padded(s: Seq<char>) -> Seq<char>
    decreases 6 - s.len(),
{
    if s.len() >= 6 {
        s
    } else {
        padded(seq![' '] + s)
    }
}

/// A number of bytes in megabytes with one digit behind the point, at least six
/// characters wide.
pub open spec fn megabytes(bytes: int) -> Seq<char> {
    padded(
        text::decimal_text((tenths(bytes) / 10) as nat) + "."@ + text::decimal_text(
            (tenths(bytes) % 10) as nat,
        ),
    )
}

fn pad(s: String) -> (r: String)
    ensures
        r@ == padded(s@),
{
    let mut width: usize = chars_of(s.as_str()).len();
    let ghost whole = padded(s@);
    let mut r = s;
    while width < 6
        invariant
            width == r@.len(),
            padded(r@) == whole,
        decreases 6 - width,
    {
        let mut wider = " ".to_owned();
        wider.push_str(r.as_str());
        proof {
            reveal_strlit(" ");
            assert(wider@ =~= seq![' '] + r@);
        }
        r = wider;
        width += 1;
    }
    r
}

fn megabyte_text(bytes: u64) -> (r: String)
    ensures
        r@ == megabytes(bytes as int),
{
    let scaled: u128 = bytes as u128 * 10;
    let whole: u128 = scaled / 1_048_576;
    let rest: u128 = scaled % 1_048_576;
    let t: u64 = if rest > 524_288 || (rest == 524_288 && whole % 2 == 1) {
        (whole + 1) as u64
    } else {
        whole as u64
    };
    let mut s = decimal(t / 10);
    s.push_str(".");
    s.push_str(decimal(t % 10).as_str());
    pad(s)
}

/// What the progress line says: which file of how many, and how much of it is
/// there, out of how much where that is known.
pub open spec fn progress_text(p: Progress) -> Seq<char> {
    let head = text::decimal_text((p.file_index + 1) as nat) + "/"@ + text::decimal_text(
        p.file_count as nat,
    ) + "  "@ + megabytes(p.bytes_done as int);
    match p.bytes_total {
        Some(total) => if total > 0 {
            head + " / "@ + megabytes(total as int) + " MB"@
        } else {
            head + " MB"@
        },
        None => head + " MB"@,
    }
}

/// The progress line.
pub fn format_progress_label(p: &Progress) -> (s: String)
    requires
        p.file_index < usize::MAX,
    ensures
        s@ == progress_text(*p),
{
    let mut s = decimal((p.file_index + 1) as u64);
    s.push_str("/");
    s.push_str(decimal(p.file_count as u64).as_str());
    s.push_str("  ");
    s.push_str(megabyte_text(p.bytes_done).as_str());
    if let Some(total) = p.bytes_total {
        if total > 0 {
            s.push_str(" / ");
            s.push_str(megabyte_text(total).as_str());
        }
    }
    s.push_str(" MB");
    s
}

/// However a download ends, by returning or by crashing, the row no longer shows it as
/// running: the model is there or is offered again. A crash leaves an error. Starting
/// again forgets the attempt, and shows that it runs.
pub proof fn law_a_download_always_ends(
    running: DownloadState,
    ending: Ending,
    model_present: bool,
    after: DownloadState,
)
    requires
        ended(running, ending, model_present, after),
    ensures
        row_of(after) == (if model_present {
            ModelRow::Installed
        } else {
            ModelRow::Offer
        }),
        ending is Crashed ==> after.finished matches Some(Err(_)),
        row_of(started(after)) == ModelRow::Running,
        started(after).finished is None && started(after).progress is None,
        started(after).model_present == model_present,
{
}

/// How much of a file is there: nothing where its length is not known or is zero, all of
/// it where that much came in, and else the part that did, rounded down.
pub proof fn law_how_much_of_a_file_is_there(done: u64, total: u64)
    ensures
        within_file(done, None) == 0,
        within_file(done, Some(0)) == 0,
        total > 0 && done >= total ==> within_file(done, Some(total)) == 1_000_000_000,
        total > 0 && done < total ==> within_file(done, Some(total)) * total <= done
            * 1_000_000_000 < (within_file(done, Some(total)) + 1) * total,
{
    if total > 0 && done < total {
        clock::law_a_share_is_rounded_down(done as int, total as int);
    }
}

/// Every file counts the same: the whole is as many files as are over and the part of the
/// current one, out of all, rounded down, and never more than the whole.
pub proof fn law_every_file_counts_the_same(p: Progress)
    requires
        p.file_count > 0,
    ensures
        p.file_index < p.file_count ==> {
            let there = p.file_index * 1_000_000_000 + within_file(p.bytes_done, p.bytes_total);
            whole_download(p) * p.file_count <= there < (whole_download(p) + 1) * p.file_count
        },
        p.file_index >= p.file_count ==> whole_download(p) == 1_000_000_000,
{
    let n = p.file_count as int;
    let part = within_file(p.bytes_done, p.bytes_total);
    let there = p.file_index * 1_000_000_000 + part;
    let q = there / n;
    match p.bytes_total {
        Some(total) => if total > 0 {
            clock::law_shares_run_forward(0, p.bytes_done as int, total as int);
        },
        None => {},
    }
    assert(0 <= part <= 1_000_000_000);
    vstd::arithmetic::div_mod::lemma_fundamental_div_mod(there, n);
    vstd::arithmetic::div_mod::lemma_mod_bound(there, n);
    assert(q * n <= there < (q + 1) * n) by (nonlinear_arith)
        requires
            there == n * q + there % n,
            0 <= there % n < n,
    ;
    if p.file_index < p.file_count {
        assert(there <= n * 1_000_000_000);
        assert(q <= 1_000_000_000) by (nonlinear_arith)
            requires
                q * n <= there,
                there <= n * 1_000_000_000,
                n > 0,
        ;
    } else {
        assert(there >= n * 1_000_000_000);
        assert(q >= 1_000_000_000) by (nonlinear_arith)
            requires
                there < (q + 1) * n,
                there >= n * 1_000_000_000,
                n > 0,
        ;
    }
}

/// A size is told to the nearest tenth of a megabyte; one that lies just between two is
/// told as the even one.
pub proof fn law_sizes_are_rounded_to_the_nearest(bytes: int)
    requires
        0 <= bytes,
    ensures
        -524_288 <= tenths(bytes) * 1_048_576 - bytes * 10 <= 524_288,
        tenths(bytes) * 1_048_576 - bytes * 10 == 524_288 || tenths(bytes) * 1_048_576 - bytes * 10
            == -524_288 ==> tenths(bytes) % 2 == 0,
{
}

/// A short text gets spaces in front until it is six characters wide, and a longer one is
/// left as it is: what it says is always at its end.
pub proof fn law_padding_goes_in_front(s: Seq<char>)
    ensures
        padded(s).len() == (if s.len() < 6 {
            6
        } else {
            s.len()
        }),
        padded(s).skip(padded(s).len() - s.len()) == s,
        forall|i: int| 0 <= i < padded(s).len() - s.len() ==> #[trigger] padded(s)[i] == ' ',
    decreases 6 - s.len(),
{
    if s.len() >= 6 {
        assert(s.skip(0) =~= s);
    } else {
        let wider = seq![' '] + s;
        law_padding_goes_in_front(wider);
        let p = padded(s);
        let n = p.len() - s.len();
        assert(p.skip(n) =~= s) by {
            assert(p.skip(n - 1) == wider);
            assert(p.skip(n) =~= wider.skip(1));
            assert(wider.skip(1) =~= s);
        }
        assert forall|i: int| 0 <= i < n implies #[trigger] p[i] == ' ' by {
            if i == n - 1 {
                assert(p[i] == p.skip(n - 1)[0]);
                assert(wider[0] == ' ');
            }
        }
    }
}

/// What the progress line says: the number of the file, counted from one, out of how many,
/// and what of it is there; then what there will be, where that is known to be something.
pub proof fn law_what_the_progress_line_says(p: Progress, total: u64)
    ensures
        ({
            let head = text::decimal_text((p.file_index + 1) as nat) + "/"@ + text::decimal_text(
                p.file_count as nat,
            ) + "  "@ + megabytes(p.bytes_done as int);
            &&& p.bytes_total is None ==> progress_text(p) == head + " MB"@
            &&& p.bytes_total == Some(0u64) ==> progress_text(p) == head + " MB"@
            &&& p.bytes_total == Some(total) && total > 0 ==> progress_text(p) == head + " / "@
                + megabytes(total as int) + " MB"@
        }),
{
}

/// A size reads as a whole number, a point and one digit, behind any padding.
pub proof fn law_a_size_has_one_digit_behind_the_point(bytes: int)
    requires
        0 <= bytes,
    ensures
        ({
            let s = megabytes(bytes);
            let t = tenths(bytes);
            &&& s.len() >= 6
            &&& s[s.len() - 2] == '.'
            &&& s.last() as int == '0' as int + t % 10
        }),
{
    let t = tenths(bytes);
    reveal_strlit(".");
    let s = text::decimal_text((t / 10) as nat) + "."@ + text::decimal_text((t % 10) as nat);
    let last = text::decimal_text((t % 10) as nat);
    law_sizes_are_rounded_to_the_nearest(bytes);
    assert(last.len() == 1);
    law_padding_goes_in_front(s);
    let p = padded(s);
    let n = p.len() - s.len();
    text::law_decimals_read_back((t / 10) as nat);
    assert(s.len() >= 3);
    assert(p[p.len() - 1] == p.skip(n)[s.len() - 1]);
    assert(p[p.len() - 2] == p.skip(n)[s.len() - 2]);
    assert(s[s.len() - 2] == '.');
}

/// A crash is told in its own words, and as an unknown error where it had none.
pub proof fn law_what_a_crash_says(message: String)
    ensures
        crash_text(Some(message)) == "Download crashed: "@ + message@,
        crash_text(None) == "Download crashed: "@ + "unknown error"@,
{
}

/// The row shows a running download whatever is there, and else whether the model is.
pub proof fn law_what_the_row_shows(s: DownloadState)
    ensures
        row_of(s) == ModelRow::Running <==> s.running,
        row_of(s) == ModelRow::Installed <==> !s.running && s.model_present,
        row_of(s) == ModelRow::Offer <==> !s.running && !s.model_present,
{
}

/// Before the point stands the whole number of megabytes, in decimal.
pub proof fn law_a_size_begins_with_whole_megabytes(bytes: int)
    requires
        0 <= bytes,
    ensures
        ({
            let s = megabytes(bytes);
            let whole = text::decimal_text((tenths(bytes) / 10) as nat);
            &&& whole.len() + 2 <= s.len()
            &&& s.subrange(s.len() - 2 - whole.len(), s.len() - 2) == whole
        }),
{
    let t = tenths(bytes);
    reveal_strlit(".");
    let whole = text::decimal_text((t / 10) as nat);
    let last = text::decimal_text((t % 10) as nat);
    law_sizes_are_rounded_to_the_nearest(bytes);
    assert(last.len() == 1);
    let s = whole + "."@ + last;
    law_padding_goes_in_front(s);
    let p = padded(s);
    let n = p.len() - s.len();
    assert(p.subrange(p.len() - 2 - whole.len(), p.len() - 2) =~= whole) by {
        assert forall|k: int| 0 <= k < whole.len() implies p[n + k] == whole[k] by {
            assert(p[n + k] == p.skip(n)[k]);
            assert(s[k] == whole[k]);
        }
    }
}

} // verus!
