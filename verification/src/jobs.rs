//! Background work in flight and what it last reported.

use vstd::prelude::*;

use crate::sizes::{fmt_size, size_text};
use crate::text::{concat, decimal, decimal_of, string_of};
use crate::updater::AvailableRelease;
use crate::ytdlp::opt;

verus! {

/// What a worker thread reports back.
#[derive(Debug)]
pub enum Msg {
    /// A video was described: its title, and how many formats it comes in.
    Info { title: String, formats: usize },
    Progress { downloaded: u64, total: u64 },
    Downloaded(String),
    Exported(String),
    /// Export aborted via Cancel; carries the partial output path to delete.
    ExportCanceled(String),
    Error(String),
}

/// What asking a worker's channel gives.
#[derive(Debug)]
pub enum Reply {
    Msg(Msg),
    /// Nothing yet.
    Empty,
    /// The worker is gone.
    Disconnected,
}

/// What to do about a reply, beyond what the jobs took note of.
#[derive(Clone, Copy, PartialEq, Eq, Structural, Debug)]
pub enum Next {
    /// Ask again at once.
    AskAgain,
    /// Ask again in the next frame.
    Wait,
    /// Show what the described video can be downloaded as.
    ShowInfo,
    /// Open the file that was downloaded.
    Open,
    /// Show the file that was saved in its folder, if that is wanted.
    Reveal,
    /// Delete the file that was left incomplete.
    Remove,
    /// The job is over.
    Finished,
}

/// Where the app-update check stands; drives the Settings button and its caption.
#[derive(Debug)]
pub enum UpdateState {
    Idle,
    Checking,
    UpToDate,
    Available(AvailableRelease),
    Failed(String),
}

/// Background work in flight and what it last reported: the shared worker, and the
/// two updates that deliberately stand apart from it.
#[derive(Debug)]
pub struct Jobs {
    /// A fetch, download or export still reports. Starting another would strand it.
    pub is_busy: bool,
    pub status: String,
    /// Path of the most recently saved export; drives the "Open folder" button
    /// next to the status line. `None` until a save succeeds.
    pub saved_path: Option<String>,
    /// Full text of the last failed operation (yt-dlp fetch/download or export),
    /// shown in a dismissable error panel; `None` once cleared or after a success.
    pub last_error: Option<String>,
    /// Active download progress as `(downloaded, total)` bytes, if downloading.
    pub progress: Option<(u64, u64)>,
    /// True while an export (compile + save) runs on the worker thread; drives
    /// an indeterminate progress bar since the encode reports no fraction.
    pub exporting: bool,
    /// Destination of the in-progress export, polled for its growing size to show
    /// a "X so far" readout next to the bar; `None` when not exporting.
    pub export_path: Option<String>,
    /// True while a background `yt-dlp -U` is running.
    pub ytdlp_updating: bool,
    /// Cached `yt-dlp --version` for the Settings panel; fetched lazily, and
    /// cleared after an update so it refetches.
    pub ytdlp_version: Option<String>,
    /// Outcome of the last app-update check, shown in Settings.
    pub update_state: UpdateState,
}

impl Jobs {
    /// Whether the two updates stand where they stood in `other`.
    pub open spec fn same_updates(self, other: Jobs) -> bool {
        &&& self.ytdlp_updating == other.ytdlp_updating
        &&& self.ytdlp_version == other.ytdlp_version
        &&& self.update_state == other.update_state
    }

    /// Whether nothing is being exported.
    pub open spec fn no_export(self) -> bool {
        !self.exporting && self.export_path is None
    }

    /// Nothing in flight, nothing reported.
    pub fn new() -> (jobs: Jobs)
        ensures
            !jobs.is_busy,
            jobs.status@.len() == 0,
            jobs.saved_path is None,
            jobs.last_error is None,
            jobs.progress is None,
            jobs.no_export(),
            !jobs.ytdlp_updating,
            jobs.ytdlp_version is None,
            jobs.update_state is Idle,
    {
        Jobs {
            is_busy: false,
            status: String::new(),
            saved_path: None,
            last_error: None,
            progress: None,
            exporting: false,
            export_path: None,
            ytdlp_updating: false,
            ytdlp_version: None,
            update_state: UpdateState::Idle,
        }
    }

    /// Report a completed step, clearing any previous error and the progress bar.
    pub fn succeed(&mut self, status: String)
        ensures
            final(self).status@ == status@,
            *final(self) == (Jobs {
                status: final(self).status,
                last_error: None,
                progress: None,
                ..*old(self)
            }),
    {
        self.status = status;
        self.last_error = None;
        self.progress = None;
    }

    /// The export is over.
    pub fn finish_export(&mut self)
        ensures
            *final(self) == (Jobs { exporting: false, export_path: None, ..*old(self) }),
    {
        self.exporting = false;
        self.export_path = None;
    }

    /// Starts fetching a video's description.
    pub fn start_fetch(&mut self)
        ensures
            final(self).status@ == "fetching…"@,
            *final(self) == (Jobs { is_busy: true, status: final(self).status, ..*old(self) }),
    {
        self.status = "fetching…".to_owned();
        self.is_busy = true;
    }

    /// Starts a download.
    pub fn start_download(&mut self)
        ensures
            final(self).status@ == "downloading…"@,
            *final(self) == (Jobs {
                is_busy: true,
                status: final(self).status,
                progress: Some((0, 0)),
                ..*old(self)
            }),
    {
        self.status = "downloading…".to_owned();
        self.progress = Some((0, 0));
        self.is_busy = true;
    }

    /// Starts an export into `path`.
    pub fn start_export(&mut self, path: String)
        ensures
            final(self).status@ == "exporting…"@,
            *final(self) == (Jobs {
                is_busy: true,
                status: final(self).status,
                exporting: true,
                saved_path: None,
                export_path: Some(path),
                ..*old(self)
            }),
    {
        self.status = "exporting…".to_owned();
        self.exporting = true;
        self.saved_path = None;
        self.export_path = Some(path);
        self.is_busy = true;
    }

    /// Forgets whatever is in flight, because another video is being opened.
    pub fn abandon(&mut self)
        ensures
            *final(self) == (Jobs {
                is_busy: false,
                saved_path: None,
                last_error: None,
                progress: None,
                exporting: false,
                export_path: None,
                ..*old(self)
            }),
    {
        self.is_busy = false;
        self.saved_path = None;
        self.last_error = None;
        self.progress = None;
        self.exporting = false;
        self.export_path = None;
    }

    /// Takes note that the open file can't be decoded.
    pub fn decode_failed(&mut self, error: String)
        ensures
            final(self).status@ == "decode error"@,
            opt(final(self).last_error) == Some(error@),
            *final(self) == (Jobs {
                status: final(self).status,
                last_error: final(self).last_error,
                ..*old(self)
            }),
    {
        self.status = "decode error".to_owned();
        self.last_error = Some(error);
    }

    /// Takes note that the running export was told to stop. It stays in flight until
    /// it says that it did.
    pub fn cancel_export(&mut self)
        ensures
            final(self).status@ == "canceling…"@,
            *final(self) == (Jobs { status: final(self).status, ..*old(self) }),
    {
        self.status = "canceling…".to_owned();
    }

    /// What a worker's reply leads to.
    pub open spec fn next_of(reply: Reply) -> Next {
        match reply {
            Reply::Empty => Next::Wait,
            Reply::Disconnected => Next::Finished,
            Reply::Msg(msg) => match msg {
                Msg::Progress { .. } => Next::AskAgain,
                Msg::Info { .. } => Next::ShowInfo,
                Msg::Downloaded(_) => Next::Open,
                Msg::Exported(_) => Next::Reveal,
                Msg::ExportCanceled(_) => Next::Remove,
                Msg::Error(_) => Next::Finished,
            },
        }
    }

    /// The status line after a message, where it changes it.
    pub open spec fn status_of(msg: Msg) -> Option<Seq<char>> {
        match msg {
            Msg::Progress { .. } => None,
            Msg::Info { title, formats } => Some(
                title@ + " — "@ + decimal(formats as nat) + " formats"@,
            ),
            Msg::Downloaded(path) => Some("downloaded: "@ + path@),
            Msg::Exported(path) => Some("saved: "@ + path@),
            Msg::ExportCanceled(_) => Some("export canceled"@),
            Msg::Error(_) => Some("error"@),
        }
    }

    /// Whether taking `reply` leads from this to `after`.
    pub open spec fn takes(self, after: Jobs, reply: Reply) -> bool {
        match reply {
            Reply::Empty => after == self,
            Reply::Disconnected => after == (Jobs { is_busy: false, ..self }),
            Reply::Msg(msg) => {
                &&& after.same_updates(self)
                &&& after.status@ == (match Jobs::status_of(msg) {
                    Some(text) => text,
                    None => self.status@,
                })
                &&& after.is_busy == (msg is Progress && self.is_busy)
                &&& after.progress == (match msg {
                    Msg::Progress { downloaded, total } => Some((downloaded, total)),
                    _ => None,
                })
                &&& msg is Exported || msg is ExportCanceled || msg is Error ==> after.no_export()
                &&& msg is Progress || msg is Info || msg is Downloaded ==> after.exporting
                    == self.exporting && after.export_path == self.export_path
                &&& match msg {
                    Msg::Exported(path) => opt(after.saved_path) == Some(path@),
                    _ => after.saved_path == self.saved_path,
                }
                &&& match msg {
                    Msg::Error(e) => opt(after.last_error) == Some(e@),
                    Msg::Progress { .. } | Msg::ExportCanceled(_) => after.last_error
                        == self.last_error,
                    _ => after.last_error is None,
                }
            },
        }
    }

    /// Takes a reply of the worker. Every message but one of progress is its last.
    pub fn poll(&mut self, reply: &Reply) -> (next: Next)
        ensures
            next == Jobs::next_of(*reply),
            old(self).takes(*final(self), *reply),
            final(self).same_updates(*old(self)),
            final(self).is_busy == (if next == Next::Wait || next == Next::AskAgain {
                old(self).is_busy
            } else {
                false
            }),
            match *reply {
                Reply::Empty => *final(self) == *old(self),
                Reply::Disconnected => *final(self) == (Jobs { is_busy: false, ..*old(self) }),
                Reply::Msg(msg) => {
                    &&& final(self).status@ == (match Jobs::status_of(msg) {
                        Some(text) => text,
                        None => old(self).status@,
                    })
                    &&& match msg {
                        Msg::Progress { downloaded, total } => *final(self) == (Jobs {
                            progress: Some((downloaded, total)),
                            ..*old(self)
                        }),
                        Msg::Info { .. } | Msg::Downloaded(_) => final(self).progress is None
                            && final(self).last_error is None && final(self).saved_path
                            == old(self).saved_path && final(self).exporting
                            == old(self).exporting && final(self).export_path
                            == old(self).export_path,
                        Msg::Exported(path) => final(self).progress is None
                            && final(self).last_error is None && final(self).no_export() && opt(
                            final(self).saved_path,
                        ) == Some(path@),
                        Msg::ExportCanceled(_) => final(self).progress is None
                            && final(self).last_error == old(self).last_error
                            && final(self).no_export() && final(self).saved_path
                            == old(self).saved_path,
                        Msg::Error(e) => final(self).progress is None && opt(
                            final(self).last_error,
                        ) == Some(e@) && final(self).no_export() && final(self).saved_path
                            == old(self).saved_path,
                    }
                },
            },
    {
        let msg = match reply {
            Reply::Empty => {
                return Next::Wait;
            },
            Reply::Disconnected => {
                self.is_busy = false;
                return Next::Finished;
            },
            Reply::Msg(msg) => msg,
        };
        match msg {
            Msg::Progress { downloaded, total } => {
                self.progress = Some((*downloaded, *total));
                Next::AskAgain
            },
            Msg::Info { title, formats } => {
                self.is_busy = false;
                let mut status = concat(title.as_str(), " — ");
                status.append(string_of(&decimal_of(*formats as u64)).as_str());
                status.append(" formats");
                self.succeed(status);
                Next::ShowInfo
            },
            Msg::Downloaded(path) => {
                self.is_busy = false;
                self.succeed(concat("downloaded: ", path.as_str()));
                Next::Open
            },
            Msg::Exported(path) => {
                self.is_busy = false;
                self.succeed(concat("saved: ", path.as_str()));
                self.finish_export();
                self.saved_path = Some(path.clone());
                Next::Reveal
            },
            Msg::ExportCanceled(_) => {
                self.is_busy = false;
                self.status = "export canceled".to_owned();
                self.progress = None;
                self.finish_export();
                Next::Remove
            },
            Msg::Error(e) => {
                // Keep the full text for the error panel; the status line just
                // flags that something failed.
                self.is_busy = false;
                self.status = "error".to_owned();
                self.last_error = Some(e.clone());
                self.progress = None;
                self.finish_export();
                Next::Finished
            },
        }
    }

    /// Whether to start `yt-dlp -U`: not while one is running.
    pub fn start_ytdlp_update(&mut self) -> (starts: bool)
        ensures
            starts == !old(self).ytdlp_updating,
            !starts ==> *final(self) == *old(self),
            starts ==> final(self).status@ == "updating yt-dlp…"@ && *final(self) == (Jobs {
                ytdlp_updating: true,
                status: final(self).status,
                ..*old(self)
            }),
    {
        if self.ytdlp_updating {
            return false;
        }
        self.ytdlp_updating = true;
        self.status = "updating yt-dlp…".to_owned();
        true
    }

    /// Takes what `yt-dlp -U` came to: its report, or why it failed; `None` when the
    /// thread that ran it is gone.
    pub fn finish_ytdlp_update(&mut self, outcome: Option<Result<String, String>>)
        ensures
            !final(self).ytdlp_updating,
            match outcome {
                None => *final(self) == (Jobs { ytdlp_updating: false, ..*old(self) }),
                Some(Ok(report)) => final(self).status@ == "yt-dlp: "@ + report@ && *final(self)
                    == (Jobs {
                    ytdlp_updating: false,
                    ytdlp_version: None,
                    status: final(self).status,
                    last_error: None,
                    ..*old(self)
                }),
                Some(Err(error)) => *final(self) == (Jobs {
                    ytdlp_updating: false,
                    ytdlp_version: None,
                    last_error: Some(error),
                    ..*old(self)
                }),
            },
    {
        self.ytdlp_updating = false;
        if let Some(result) = outcome {
            self.ytdlp_version = None;
            match result {
                Ok(report) => {
                    self.status = concat("yt-dlp: ", report.as_str());
                    self.last_error = None;
                },
                Err(error) => {
                    self.last_error = Some(error);
                },
            }
        }
    }

    /// Whether to start looking for a newer release: not while one is looked for.
    pub fn start_update_check(&mut self) -> (starts: bool)
        ensures
            starts == !(old(self).update_state is Checking),
            *final(self) == (if starts {
                Jobs { update_state: UpdateState::Checking, ..*old(self) }
            } else {
                *old(self)
            }),
    {
        if matches!(self.update_state, UpdateState::Checking) {
            return false;
        }
        self.update_state = UpdateState::Checking;
        true
    }

    /// Takes what the check came to; `None` when the thread that ran it is gone.
    pub fn finish_update_check(
        &mut self,
        outcome: Option<Result<Option<AvailableRelease>, String>>,
    )
        ensures
            *final(self) == (Jobs { update_state: final(self).update_state, ..*old(self) }),
            match outcome {
                Some(Ok(Some(release))) => final(self).update_state == UpdateState::Available(
                    release,
                ),
                Some(Ok(None)) => final(self).update_state is UpToDate,
                Some(Err(error)) => final(self).update_state == UpdateState::Failed(error),
                None => final(self).update_state is Failed && final(self).update_state->Failed_0@
                    == "the update check stopped"@,
            },
    {
        self.update_state = match outcome {
            Some(Ok(Some(release))) => UpdateState::Available(release),
            Some(Ok(None)) => UpdateState::UpToDate,
            Some(Err(error)) => UpdateState::Failed(error),
            None => UpdateState::Failed("the update check stopped".to_owned()),
        };
    }

    /// Takes what asking for yt-dlp's version came to, unless it is known already.
    /// A failure is kept too, so it isn't asked for in every frame.
    pub fn note_version(&mut self, version: Result<String, String>)
        ensures
            old(self).ytdlp_version is Some ==> *final(self) == *old(self),
            old(self).ytdlp_version is None ==> *final(self) == (Jobs {
                ytdlp_version: final(self).ytdlp_version,
                ..*old(self)
            }) && opt(final(self).ytdlp_version) == Some(
                match version {
                    Ok(version) => version@,
                    Err(e) => "unavailable ("@ + e@ + ")"@,
                },
            ),
    {
        if self.ytdlp_version.is_none() {
            self.ytdlp_version = Some(
                match version {
                    Ok(version) => version,
                    Err(e) => {
                        let mut text = concat("unavailable (", e.as_str());
                        text.append(")");
                        text
                    },
                },
            );
        }
    }
}

/// What to report of an export that ended: a cancel makes it fail too, so the two
/// are told apart by whether it was cancelled.
pub fn export_report(output: String, error: Option<String>, cancelled: bool) -> (msg: Msg)
    ensures
        match error {
            None => msg == Msg::Exported(output),
            Some(e) => if cancelled {
                msg == Msg::ExportCanceled(output)
            } else {
                msg == Msg::Error(e)
            },
        },
{
    match error {
        None => Msg::Exported(output),
        Some(e) => if cancelled {
            Msg::ExportCanceled(output)
        } else {
            Msg::Error(e)
        },
    }
}

/// What to show beside a running export that has written this many bytes.
pub fn saving_text(written: u64) -> (text: String)
    ensures
        text@ == (if written > 0 {
            "compiling & saving… "@ + size_text(written as nat) + " so far"@
        } else {
            "compiling & saving…"@
        }),
{
    if written > 0 {
        let mut text = concat("compiling & saving… ", fmt_size(written).as_str());
        text.append(" so far");
        text
    } else {
        "compiling & saving…".to_owned()
    }
}

/// Only progress keeps a job going: any other message is its last.
pub proof fn law_every_other_message_is_the_last(msg: Msg)
    ensures
        Jobs::next_of(Reply::Msg(msg)) == Next::AskAgain <==> msg is Progress,
        Jobs::next_of(Reply::Msg(msg)) != Next::Wait,
{
}

/// Each reply leads to one thing of its own: a description is shown, what was downloaded
/// is opened, what was saved is revealed, what was left incomplete is removed, and an
/// error or a worker that is gone ends the job.
pub proof fn law_each_reply_leads_to_its_own(reply: Reply)
    ensures
        ({
            let next = Jobs::next_of(reply);
            &&& next is Wait <==> reply is Empty
            &&& next is AskAgain <==> reply is Msg && reply->Msg_0 is Progress
            &&& next is ShowInfo <==> reply is Msg && reply->Msg_0 is Info
            &&& next is Open <==> reply is Msg && reply->Msg_0 is Downloaded
            &&& next is Reveal <==> reply is Msg && reply->Msg_0 is Exported
            &&& next is Remove <==> reply is Msg && reply->Msg_0 is ExportCanceled
            &&& next is Finished <==> reply is Disconnected || (reply is Msg
                && reply->Msg_0 is Error)
        }),
{
}

/// The status line names the file that a job made and the video it described, and stays
/// while a job goes on.
pub proof fn law_status_names_what_was_made(msg: Msg)
    ensures
        msg matches Msg::Downloaded(path) ==> path@.is_suffix_of(Jobs::status_of(msg)->0)
            && Jobs::status_of(msg)->0.len() == "downloaded: "@.len() + path@.len(),
        msg matches Msg::Exported(path) ==> path@.is_suffix_of(Jobs::status_of(msg)->0)
            && Jobs::status_of(msg)->0.len() == "saved: "@.len() + path@.len(),
        msg matches Msg::Info { title, .. } ==> title@.is_prefix_of(Jobs::status_of(msg)->0),
        msg is ExportCanceled ==> Jobs::status_of(msg) == Some("export canceled"@),
        msg is Error ==> Jobs::status_of(msg) == Some("error"@),
        Jobs::status_of(msg) is None <==> msg is Progress,
{
    if let Some(text) = Jobs::status_of(msg) {
        match msg {
            Msg::Downloaded(path) => {
                assert(text.skip(text.len() - path@.len()) == path@);
            },
            Msg::Exported(path) => {
                assert(text.skip(text.len() - path@.len()) == path@);
            },
            Msg::Info { title, .. } => {
                assert(text.take(title@.len() as int) == title@);
            },
            _ => {},
        }
    }
}

/// The updates stand where they stood when all three of them do, and nothing is exported
/// when neither the job nor its file is there.
pub proof fn law_standing_still_means_all_of_it(a: Jobs, b: Jobs)
    ensures
        a.same_updates(b) <==> a.ytdlp_updating == b.ytdlp_updating && a.ytdlp_version
            == b.ytdlp_version && a.update_state == b.update_state,
        a.no_export() <==> !a.exporting && a.export_path is None,
{
}

/// A job that has said its last leaves nothing of itself in flight: it is no longer busy,
/// its bar is gone and so is its export. A file counts as saved exactly when it was, and
/// an error stays to be read until a step succeeds; a cancelled export is no error.
pub proof fn law_last_message_ends_the_job(before: Jobs, after: Jobs, msg: Msg)
    requires
        before.takes(after, Reply::Msg(msg)),
    ensures
        !(msg is Progress) ==> !after.is_busy && after.progress is None,
        msg is Progress ==> after.is_busy == before.is_busy && after.progress == Some(
            (msg->downloaded, msg->total),
        ) && after.status@ == before.status@,
        msg is Exported || msg is ExportCanceled || msg is Error ==> !after.exporting
            && after.export_path is None,
        msg is Progress || msg is Info || msg is Downloaded ==> after.exporting == before.exporting
            && after.export_path == before.export_path,
        msg matches Msg::Exported(path) ==> after.saved_path is Some && after.saved_path->0@
            == path@,
        !(msg is Exported) ==> after.saved_path == before.saved_path,
        msg matches Msg::Error(e) ==> after.last_error is Some && after.last_error->0@ == e@,
        msg is Info || msg is Downloaded || msg is Exported ==> after.last_error is None,
        msg is ExportCanceled || msg is Progress ==> after.last_error == before.last_error,
        after.ytdlp_updating == before.ytdlp_updating,
        after.ytdlp_version == before.ytdlp_version,
        after.update_state == before.update_state,
{
}

/// A worker that has nothing to say changes nothing, and one that is gone leaves the jobs
/// free for another and otherwise as they were.
pub proof fn law_silence_changes_nothing(before: Jobs, after: Jobs)
    ensures
        before.takes(after, Reply::Empty) ==> after == before,
        before.takes(after, Reply::Disconnected) ==> after == (Jobs { is_busy: false, ..before }),
{
}

} // verus!
