//! The life of one download job: what to ask the resolver, where to write
//! the file, and which events to send at each point.
//!
//! The functions here decide; the caller resolves, transfers and touches
//! the file system, and reports back how each of these went.

use vstd::prelude::*;
use vstd::string::*;
use crate::cache::{cache_confirmed_id, get_confirmed_id, ContentCache};
use crate::models::{ModInfo, ModInfoView};
use crate::resolver::{InfoView, ModDownloadInfo, QueryView, ResolveQuery};
use crate::text::concat3;

verus! {

/// A mod to download into a directory, for a game version and a loader.
/// `key` names the job in the events it causes.
#[derive(Debug, PartialEq, Eq)]
pub struct DownloadJob {
    pub key: String,
    pub modinfo: ModInfo,
    pub output_folder: String,
    pub selected_version: String,
    pub selected_loader: String,
}

/// What a job reports while it runs. Progress is the number of bytes
/// received and the number expected.
#[derive(Debug, PartialEq, Eq)]
pub enum DownloadEvent {
    Resolving { key: String },
    Resolved { key: String },
    ResolvedInfo { key: String, confirmed_project_id: Option<String>, version_remote: Option<String> },
    Started { key: String },
    Progress { key: String, received: u64, total: u64 },
    Done { key: String },
    Error { key: String, msg: String },
}

/// Mathematical value of a [`DownloadEvent`].
pub ghost enum EventView {
    Resolving { key: Seq<char> },
    Resolved { key: Seq<char> },
    ResolvedInfo {
        key: Seq<char>,
        confirmed_project_id: Option<Seq<char>>,
        version_remote: Option<Seq<char>>,
    },
    Started { key: Seq<char> },
    Progress { key: Seq<char>, received: u64, total: u64 },
    Done { key: Seq<char> },
    Error { key: Seq<char>, msg: Seq<char> },
}

impl DeepView for DownloadEvent {
    type V = EventView;

    open spec fn deep_view(&self) -> EventView {
        match self {
            DownloadEvent::Resolving { key } => EventView::Resolving { key: key@ },
            DownloadEvent::Resolved { key } => EventView::Resolved { key: key@ },
            DownloadEvent::ResolvedInfo {
                key,
                confirmed_project_id,
                version_remote,
            } => EventView::ResolvedInfo {
                key: key@,
                confirmed_project_id: confirmed_project_id.deep_view(),
                version_remote: version_remote.deep_view(),
            },
            DownloadEvent::Started { key } => EventView::Started { key: key@ },
            DownloadEvent::Progress { key, received, total } => EventView::Progress {
                key: key@,
                received: *received,
                total: *total,
            },
            DownloadEvent::Done { key } => EventView::Done { key: key@ },
            DownloadEvent::Error { key, msg } => EventView::Error { key: key@, msg: msg@ },
        }
    }
}

/// Where a transfer goes: the address to read, the directory to create if
/// it is missing, the partial file to write and the name it gets once it
/// is complete.
#[derive(Debug, PartialEq, Eq)]
pub struct Transfer {
    pub url: String,
    pub directory: String,
    pub part_path: String,
    pub final_path: String,
}

/// Mathematical value of a [`Transfer`].
pub ghost struct TransferView {
    pub url: Seq<char>,
    pub directory: Seq<char>,
    pub part_path: Seq<char>,
    pub final_path: Seq<char>,
}

impl DeepView for Transfer {
    type V = TransferView;

    open spec fn deep_view(&self) -> TransferView {
        TransferView {
            url: self.url@,
            directory: self.directory@,
            part_path: self.part_path@,
            final_path: self.final_path@,
        }
    }
}

/// What to do with the partial file once the transfer or the renaming has
/// ended.
#[derive(Debug, PartialEq, Eq)]
pub enum FileAction {
    /// Give the partial file its final name.
    Rename { from: String, to: String },
    /// Delete the partial file.
    Remove { path: String },
    /// Nothing is left to do.
    Nothing,
}

/// Mathematical value of a [`FileAction`].
pub ghost enum FileActionView {
    Rename { from: Seq<char>, to: Seq<char> },
    Remove { path: Seq<char> },
    Nothing,
}

impl DeepView for FileAction {
    type V = FileActionView;

    open spec fn deep_view(&self) -> FileActionView {
        match self {
            FileAction::Rename { from, to } => FileActionView::Rename { from: from@, to: to@ },
            FileAction::Remove { path } => FileActionView::Remove { path: path@ },
            FileAction::Nothing => FileActionView::Nothing,
        }
    }
}

/// The id to try first for a record: its confirmed id; else the confirmed
/// id that the cache keeps for its detected id; else the detected id.
pub open spec fn candidate_id_of(info: ModInfoView, cached: Option<Seq<char>>) -> Option<Seq<char>> {
    match info.confirmed_project_id {
        Some(id) => Some(id),
        None => match info.detected_project_id {
            Some(detected) => match cached {
                Some(id) => Some(id),
                None => Some(detected),
            },
            None => None,
        },
    }
}

/// The confirmed id that the cache keeps for the detected id of a record.
pub open spec fn cached_confirmed(info: ModInfoView, cache: crate::cache::CacheView) -> Option<
    Seq<char>,
> {
    match info.detected_project_id {
        Some(detected) => cache_confirmed_id(cache, detected),
        None => None,
    }
}

/// Composes the id to try first for a record.
pub fn compose_candidate_id(info: &ModInfo, cache: &ContentCache) -> (id: Option<String>)
    requires
        cache.wf(),
    ensures
        id.deep_view() == candidate_id_of(info@, cached_confirmed(info@, cache@)),
{
    match &info.confirmed_project_id {
        Some(id) => Some(id.clone()),
        None => match &info.detected_project_id {
            Some(detected) => match get_confirmed_id(cache, detected.as_str()) {
                Some(id) => Some(id),
                None => Some(detected.clone()),
            },
            None => None,
        },
    }
}

/// The path of the partial file of `filename` in `directory`.
pub open spec fn part_path_of(directory: Seq<char>, filename: Seq<char>) -> Seq<char> {
    directory + "/"@ + filename + ".part"@
}

/// The path of `filename` in `directory`.
pub open spec fn final_path_of(directory: Seq<char>, filename: Seq<char>) -> Seq<char> {
    directory + "/"@ + filename
}

/// The message of a job for which no file was found.
pub open spec fn not_found_message(version: Seq<char>) -> Seq<char> {
    "no version v"@ + version
}

/// The query a job puts to the resolver.
pub open spec fn job_query(
    job: DownloadJob,
    candidate_id: Option<Seq<char>>,
    credential: Seq<char>,
) -> QueryView {
    QueryView {
        name: job.modinfo@.name,
        candidate_id,
        game_version: job.selected_version@,
        loader: job.selected_loader@,
        credential,
    }
}

/// Starts a job: it reports that it is resolving and puts its query.
pub fn begin_job(job: &DownloadJob, cache: &ContentCache, credential: &str) -> (r: (
    Vec<DownloadEvent>,
    ResolveQuery,
))
    requires
        cache.wf(),
    ensures
        r.0.deep_view() == seq![EventView::Resolving { key: job.key@ }],
        r.1@ == job_query(
            *job,
            candidate_id_of(job.modinfo@, cached_confirmed(job.modinfo@, cache@)),
            credential@,
        ),
{
    let mut events: Vec<DownloadEvent> = Vec::new();
    events.push(DownloadEvent::Resolving { key: job.key.clone() });
    assert(events.deep_view() =~= seq![EventView::Resolving { key: job.key@ }]);
    let query = ResolveQuery {
        name: job.modinfo.name.clone(),
        candidate_id: compose_candidate_id(&job.modinfo, cache),
        game_version: job.selected_version.clone(),
        loader: job.selected_loader.clone(),
        credential: credential.to_owned(),
    };
    (events, query)
}

/// The events after the resolver answered.
pub open spec fn resolve_events(job: DownloadJob, found: Option<InfoView>) -> Seq<EventView> {
    match found {
        Some(info) => seq![
            EventView::Resolved { key: job.key@ },
            EventView::ResolvedInfo {
                key: job.key@,
                confirmed_project_id: Some(info.project_id),
                version_remote: Some(info.version_remote),
            },
            EventView::Started { key: job.key@ },
        ],
        None => seq![
            EventView::Error { key: job.key@, msg: not_found_message(job.selected_version@) },
        ],
    }
}

/// The transfer to make after the resolver answered, if it found a file.
pub open spec fn transfer_of(job: DownloadJob, found: Option<InfoView>) -> Option<TransferView> {
    match found {
        Some(info) => Some(
            TransferView {
                url: info.url,
                directory: job.output_folder@,
                part_path: part_path_of(job.output_folder@, info.filename),
                final_path: final_path_of(job.output_folder@, info.filename),
            },
        ),
        None => None,
    }
}

/// Takes the resolver's answer. A miss ends the job with an error. A hit
/// is reported, with the project and version found, and the transfer to
/// the partial file starts.
pub fn after_resolve(job: &DownloadJob, found: Option<&ModDownloadInfo>) -> (r: (
    Vec<DownloadEvent>,
    Option<Transfer>,
))
    ensures
        r.0.deep_view() == resolve_events(
            *job,
            match found {
                Some(info) => Some(info@),
                None => None,
            },
        ),
        r.1.deep_view() == transfer_of(
            *job,
            match found {
                Some(info) => Some(info@),
                None => None,
            },
        ),
{
    let mut events: Vec<DownloadEvent> = Vec::new();
    match found {
        Some(info) => {
            events.push(DownloadEvent::Resolved { key: job.key.clone() });
            events.push(
                DownloadEvent::ResolvedInfo {
                    key: job.key.clone(),
                    confirmed_project_id: Some(info.project_id.clone()),
                    version_remote: Some(info.version_remote.clone()),
                },
            );
            events.push(DownloadEvent::Started { key: job.key.clone() });
            let final_path = concat3(job.output_folder.as_str(), "/", info.filename.as_str());
            let part_path = concat3(final_path.as_str(), ".part", "");
            proof {
                reveal_strlit("");
                assert(part_path@ =~= part_path_of(job.output_folder@, info@.filename));
            }
            let transfer = Transfer {
                url: info.url.clone(),
                directory: job.output_folder.clone(),
                part_path,
                final_path,
            };
            assert(events.deep_view() =~= resolve_events(*job, Some(info@)));
            (events, Some(transfer))
        },
        None => {
            let msg = concat3("no version v", job.selected_version.as_str(), "");
            proof {
                reveal_strlit("");
                assert(msg@ =~= not_found_message(job.selected_version@));
            }
            events.push(DownloadEvent::Error { key: job.key.clone(), msg });
            assert(events.deep_view() =~= resolve_events(*job, None));
            (events, None)
        },
    }
}

/// The event for the bytes received so far, when the length of the file is
/// known.
pub fn progress_event(job: &DownloadJob, received: u64, total: Option<u64>) -> (r: Option<
    DownloadEvent,
>)
    ensures
        r.deep_view() == match total {
            Some(t) => Some(EventView::Progress { key: job.key@, received, total: t }),
            None => None,
        },
{
    match total {
        Some(t) => Some(DownloadEvent::Progress { key: job.key.clone(), received, total: t }),
        None => None,
    }
}

/// The text of an outcome's failure, if it failed.
pub open spec fn failure_of(outcome: Result<(), String>) -> Option<Seq<char>> {
    match outcome {
        Ok(_) => None,
        Err(reason) => Some(reason@),
    }
}

/// The events after the transfer ended: none when it went well, since the
/// file still has to get its name; else the error.
pub open spec fn transfer_events(job: DownloadJob, failure: Option<Seq<char>>) -> Seq<EventView> {
    match failure {
        None => Seq::empty(),
        Some(reason) => seq![EventView::Error { key: job.key@, msg: reason }],
    }
}

/// What to do with the partial file after the transfer ended: rename it
/// when the transfer went well, delete it when it did not.
pub open spec fn transfer_action(t: TransferView, failure: Option<Seq<char>>) -> FileActionView {
    match failure {
        None => FileActionView::Rename { from: t.part_path, to: t.final_path },
        Some(_) => FileActionView::Remove { path: t.part_path },
    }
}

/// Takes the outcome of the transfer.
pub fn after_transfer(job: &DownloadJob, transfer: &Transfer, outcome: Result<(), String>) -> (r: (
    Vec<DownloadEvent>,
    FileAction,
))
    ensures
        r.0.deep_view() == transfer_events(*job, failure_of(outcome)),
        r.1.deep_view() == transfer_action(transfer.deep_view(), failure_of(outcome)),
{
    let mut events: Vec<DownloadEvent> = Vec::new();
    match outcome {
        Ok(_) => {
            assert(events.deep_view() =~= Seq::<EventView>::empty());
            (
                events,
                FileAction::Rename {
                    from: transfer.part_path.clone(),
                    to: transfer.final_path.clone(),
                },
            )
        },
        Err(reason) => {
            let ghost text = reason@;
            events.push(DownloadEvent::Error { key: job.key.clone(), msg: reason });
            assert(events.deep_view() =~= seq![EventView::Error { key: job.key@, msg: text }]);
            (events, FileAction::Remove { path: transfer.part_path.clone() })
        },
    }
}

/// The events after the renaming ended: the job is done, or it failed.
pub open spec fn rename_events(job: DownloadJob, failure: Option<Seq<char>>) -> Seq<EventView> {
    match failure {
        None => seq![EventView::Done { key: job.key@ }],
        Some(reason) => seq![EventView::Error { key: job.key@, msg: reason }],
    }
}

/// What to do with the partial file after the renaming ended: nothing when
/// it went well, since the file is no longer partial; else delete it.
pub open spec fn rename_action(t: TransferView, failure: Option<Seq<char>>) -> FileActionView {
    match failure {
        None => FileActionView::Nothing,
        Some(_) => FileActionView::Remove { path: t.part_path },
    }
}

/// Takes the outcome of the renaming.
pub fn after_rename(job: &DownloadJob, transfer: &Transfer, outcome: Result<(), String>) -> (r: (
    Vec<DownloadEvent>,
    FileAction,
))
    ensures
        r.0.deep_view() == rename_events(*job, failure_of(outcome)),
        r.1.deep_view() == rename_action(transfer.deep_view(), failure_of(outcome)),
{
    let mut events: Vec<DownloadEvent> = Vec::new();
    match outcome {
        Ok(_) => {
            events.push(DownloadEvent::Done { key: job.key.clone() });
            assert(events.deep_view() =~= seq![EventView::Done { key: job.key@ }]);
            (events, FileAction::Nothing)
        },
        Err(reason) => {
            let ghost text = reason@;
            events.push(DownloadEvent::Error { key: job.key.clone(), msg: reason });
            assert(events.deep_view() =~= seq![EventView::Error { key: job.key@, msg: text }]);
            (events, FileAction::Remove { path: transfer.part_path.clone() })
        },
    }
}

/// How a job went, as far as it got: what the resolver found, how the
/// transfer ended and how the renaming ended. Each outcome is the failure
/// text, `None` for success.
pub ghost struct JobCourse {
    pub found: Option<InfoView>,
    pub progress: Seq<(u64, u64)>,
    pub transfer_failure: Option<Seq<char>>,
    pub rename_failure: Option<Seq<char>>,
}

/// The progress events of a job.
pub open spec fn progress_events(job: DownloadJob, progress: Seq<(u64, u64)>) -> Seq<EventView> {
    progress.map_values(
        |p: (u64, u64)| EventView::Progress { key: job.key@, received: p.0, total: p.1 },
    )
}

/// All events of a job, in the order in which they are sent.
pub open spec fn job_events(job: DownloadJob, course: JobCourse) -> Seq<EventView> {
    let head = seq![EventView::Resolving { key: job.key@ }] + resolve_events(job, course.found);
    if course.found is None {
        head
    } else if course.transfer_failure is Some {
        head + progress_events(job, course.progress) + transfer_events(job, course.transfer_failure)
    } else {
        head + progress_events(job, course.progress) + rename_events(job, course.rename_failure)
    }
}

/// The place of an event in the life of a job.
pub open spec fn stage(e: EventView) -> nat {
    match e {
        EventView::Resolving { .. } => 0,
        EventView::Resolved { .. } => 1,
        EventView::ResolvedInfo { .. } => 2,
        EventView::Started { .. } => 3,
        EventView::Progress { .. } => 4,
        EventView::Done { .. } => 5,
        EventView::Error { .. } => 5,
    }
}

/// The key of an event.
pub open spec fn key_of(e: EventView) -> Seq<char> {
    match e {
        EventView::Resolving { key } => key,
        EventView::Resolved { key } => key,
        EventView::ResolvedInfo { key, .. } => key,
        EventView::Started { key } => key,
        EventView::Progress { key, .. } => key,
        EventView::Done { key } => key,
        EventView::Error { key, .. } => key,
    }
}

/// The events of a job come in the order of its life: they start with
/// `Resolving`, their stages never go back and only progress repeats, and
/// the last one, and only the last one, is `Done` or `Error`. All carry the
/// job's key.
pub proof fn lemma_events_in_order(job: DownloadJob, course: JobCourse)
    ensures
        ({
            let events = job_events(job, course);
            &&& events.len() >= 2
            &&& events[0] is Resolving
            &&& stage(events.last()) == 5
            &&& forall|i: int| 0 <= i < events.len() ==> key_of(#[trigger] events[i]) == job.key@
            &&& forall|i: int, j: int|
                0 <= i < j < events.len() ==> stage(events[i]) <= stage(events[j]) && (stage(
                    events[i],
                ) == stage(events[j]) ==> events[i] is Progress)
            &&& events.last() is Done <==> course.found is Some && course.transfer_failure is None
                && course.rename_failure is None
        }),
{
    let events = job_events(job, course);
    let head = seq![EventView::Resolving { key: job.key@ }] + resolve_events(job, course.found);
    let progress = progress_events(job, course.progress);
    if course.found is Some {
        let tail = if course.transfer_failure is Some {
            transfer_events(job, course.transfer_failure)
        } else {
            rename_events(job, course.rename_failure)
        };
        assert(events == head + progress + tail);
        assert(head.len() == 4);
        assert(tail.len() == 1);
        assert forall|i: int| 0 <= i < events.len() implies key_of(#[trigger] events[i]) == job.key@
            && stage(events[i]) == (if i < 4 {
            i as nat
        } else if i < 4 + progress.len() {
            4
        } else {
            5
        }) by {
            if i < 4 {
                assert(events[i] == head[i]);
            } else if i < 4 + progress.len() {
                assert(events[i] == progress[i - 4]);
            } else {
                assert(events[i] == tail[0]);
            }
        }
        assert(events.last() == tail[0]);
    } else {
        assert(events == head);
        assert(head.len() == 2);
    }
}

/// A partial file does not outlive its job: a transfer that went well is
/// followed by the renaming of the partial file to the final name, and a
/// failure of the transfer or of the renaming by the deletion of the
/// partial file.
pub proof fn lemma_partial_file_is_settled(t: TransferView, failure: Option<Seq<char>>)
    ensures
        failure is None ==> transfer_action(t, failure) == (FileActionView::Rename {
            from: t.part_path,
            to: t.final_path,
        }),
        failure is Some ==> transfer_action(t, failure) == (FileActionView::Remove {
            path: t.part_path,
        }),
        failure is Some ==> rename_action(t, failure) == (FileActionView::Remove {
            path: t.part_path,
        }),
        failure is None ==> rename_action(t, failure) == FileActionView::Nothing,
{
}

} // verus!
