use crate::text::{same_chars, to_chars};
use vstd::prelude::*;
use vstd::string::StringExecFns;

verus! {

/// What the metadata store holds of one hosts document.
#[derive(Debug, Clone, PartialEq, Eq)]
pub struct HostsFileMetadata {
    pub id: String,
    pub name: String,
    pub file_type: String,
    pub remote_url: Option<String>,
    pub is_active: bool,
    pub is_combo: bool,
}

/// What a `HostsFileMetadata` says, as plain values.
pub ghost struct FileView {
    pub id: Seq<char>,
    pub name: Seq<char>,
    pub file_type: Seq<char>,
    pub remote_url: Option<Seq<char>>,
    pub is_active: bool,
    pub is_combo: bool,
}

impl View for HostsFileMetadata {
    type V = FileView;

    open spec fn view(&self) -> FileView {
        FileView {
            id: self.id@,
            name: self.name@,
            file_type: self.file_type@,
            remote_url: match self.remote_url {
                Some(u) => Some(u@),
                None => None,
            },
            is_active: self.is_active,
            is_combo: self.is_combo,
        }
    }
}

impl FileView {
    /// Whether the document has a URL to fetch it from.
    pub open spec fn has_url(self) -> bool {
        self.remote_url matches Some(u) && u.len() > 0
    }

    /// Whether a sync cycle deals with the document: a remote document with
    /// a URL, or an active combo document.
    pub open spec fn is_candidate(self) -> bool {
        (self.file_type == "remote"@ && self.has_url()) || (self.is_combo && self.is_active)
    }

    /// The name of the managed file that holds the document.
    pub open spec fn file_name(self) -> Seq<char> {
        self.id + ".hosts"@
    }
}

impl HostsFileMetadata {
    /// A copy of the record.
    fn duplicate(&self) -> (r: HostsFileMetadata)
        ensures
            r@ == self@,
    {
        HostsFileMetadata {
            id: self.id.clone(),
            name: self.name.clone(),
            file_type: self.file_type.clone(),
            remote_url: match &self.remote_url {
                Some(u) => Some(u.clone()),
                None => None,
            },
            is_active: self.is_active,
            is_combo: self.is_combo,
        }
    }

    /// Whether the document has a URL to fetch it from.
    pub fn has_url(&self) -> (r: bool)
        ensures
            r == self@.has_url(),
    {
        match &self.remote_url {
            Some(u) => u.as_str().unicode_len() > 0,
            None => false,
        }
    }

    /// Whether a sync cycle deals with the document.
    pub fn is_candidate(&self) -> (r: bool)
        ensures
            r == self@.is_candidate(),
    {
        let kind = to_chars(self.file_type.as_str());
        let remote = to_chars("remote");
        (same_chars(kind.as_slice(), remote.as_slice()) && self.has_url()) || (self.is_combo
            && self.is_active)
    }

    /// The name of the managed file that holds the document.
    pub fn file_name(&self) -> (r: String)
        ensures
            r@ == self@.file_name(),
    {
        let mut out = self.id.clone();
        out.append(".hosts");
        out
    }
}

/// What each of the documents says, as plain values.
pub open spec fn file_views(v: Seq<HostsFileMetadata>) -> Seq<FileView> {
    v.map_values(|f: HostsFileMetadata| f@)
}

/// The documents that a sync cycle deals with, in their order.
pub open spec fn candidates(files: Seq<FileView>) -> Seq<FileView> {
    files.filter(|f: FileView| f.is_candidate())
}

/// The documents among `files` that a sync cycle deals with, in their order.
pub fn select_candidates(files: &Vec<HostsFileMetadata>) -> (r: Vec<HostsFileMetadata>)
    ensures
        file_views(r@) == candidates(file_views(files@)),
{
    let mut out: Vec<HostsFileMetadata> = Vec::new();
    let mut i: usize = 0;
    let ghost pred = |f: FileView| f.is_candidate();
    proof {
        reveal(Seq::filter);
        assert(file_views(files@).take(0) =~= Seq::<FileView>::empty());
        assert(file_views(out@) =~= Seq::<FileView>::empty());
    }
    while i < files.len()
        invariant
            i <= files@.len(),
            pred == |f: FileView| f.is_candidate(),
            file_views(out@) == file_views(files@).take(i as int).filter(pred),
        decreases files.len() - i,
    {
        let ghost before = out@;
        let keep = files[i].is_candidate();
        if keep {
            out.push(files[i].duplicate());
        }
        proof {
            reveal(Seq::filter);
            let all = file_views(files@);
            assert(all.take(i + 1).drop_last() =~= all.take(i as int));
            assert(all.take(i + 1).last() == files@[i as int]@);
            if keep {
                assert(file_views(out@) =~= file_views(before).push(files@[i as int]@));
            }
        }
        i += 1;
    }
    proof {
        assert(file_views(files@).take(files@.len() as int) =~= file_views(files@));
    }
    out
}

/// The state of a sync cycle, as shown to the observers.
#[derive(Debug, Clone, PartialEq, Eq)]
pub enum SyncStatus {
    Idle,
    InProgress,
    Success,
    Error(String),
}

/// What a `SyncStatus` says, as plain values.
pub ghost enum StatusView {
    Idle,
    InProgress,
    Success,
    Error(Seq<char>),
}

impl View for SyncStatus {
    type V = StatusView;

    open spec fn view(&self) -> StatusView {
        match *self {
            SyncStatus::Idle => StatusView::Idle,
            SyncStatus::InProgress => StatusView::InProgress,
            SyncStatus::Success => StatusView::Success,
            SyncStatus::Error(m) => StatusView::Error(m@),
        }
    }
}

impl StatusView {
    /// The word that stands for the status in a status event.
    pub open spec fn label(self) -> Seq<char> {
        match self {
            StatusView::Idle => "idle"@,
            StatusView::InProgress => "in_progress"@,
            StatusView::Success => "success"@,
            StatusView::Error(_) => "error"@,
        }
    }
}

impl SyncStatus {
    /// The word that stands for the status in a status event.
    pub fn label(&self) -> (r: &'static str)
        ensures
            r@ == self@.label(),
    {
        match self {
            SyncStatus::Idle => "idle",
            SyncStatus::InProgress => "in_progress",
            SyncStatus::Success => "success",
            SyncStatus::Error(_) => "error",
        }
    }
}

/// What a sync cycle asks to be done.
#[derive(Debug, Clone, PartialEq, Eq)]
pub enum SyncAction {
    /// Tell the observers the status, with a message.
    Report { status: SyncStatus, message: String },
    /// Fetch the document at `url` into the managed file `file_name`, and
    /// hand back how that went.
    Fetch { url: String, file_name: String },
    /// Tell the observers that the document `id` was updated.
    Announce { id: String },
    /// Write the managed file `file_name` to the system hosts file. A failure
    /// is logged and changes nothing in the cycle.
    Install { file_name: String },
}

/// What a `SyncAction` says, as plain values.
pub ghost enum ActionView {
    Report { status: StatusView, message: Seq<char> },
    Fetch { url: Seq<char>, file_name: Seq<char> },
    Announce { id: Seq<char> },
    Install { file_name: Seq<char> },
}

impl View for SyncAction {
    type V = ActionView;

    open spec fn view(&self) -> ActionView {
        match *self {
            SyncAction::Report { status, message } => ActionView::Report {
                status: status@,
                message: message@,
            },
            SyncAction::Fetch { url, file_name } => ActionView::Fetch {
                url: url@,
                file_name: file_name@,
            },
            SyncAction::Announce { id } => ActionView::Announce { id: id@ },
            SyncAction::Install { file_name } => ActionView::Install { file_name: file_name@ },
        }
    }
}

/// What each of the actions says, as plain values.
pub open spec fn action_views(v: Seq<SyncAction>) -> Seq<ActionView> {
    v.map_values(|a: SyncAction| a@)
}

/// The report that no document is there to sync.
pub open spec fn nothing_to_sync() -> ActionView {
    ActionView::Report { status: StatusView::Idle, message: "No remote hosts files to sync"@ }
}

/// The report that a cycle has begun.
pub open spec fn syncing() -> ActionView {
    ActionView::Report { status: StatusView::InProgress, message: "Syncing remote hosts..."@ }
}

/// The report that a cycle has ended.
pub open spec fn completed() -> ActionView {
    ActionView::Report { status: StatusView::Success, message: "Sync completed successfully"@ }
}

/// The report that a document could not be fetched.
pub open spec fn failed(reason: Seq<char>) -> ActionView {
    ActionView::Report {
        status: StatusView::Error("Sync failed: "@ + reason),
        message: "Sync failed: "@ + reason,
    }
}

/// The writing of a document to the system hosts file, where it is the
/// active one.
pub open spec fn install(f: FileView) -> Seq<ActionView> {
    if f.is_active {
        seq![ActionView::Install { file_name: f.file_name() }]
    } else {
        Seq::empty()
    }
}

/// Where a cycle comes to rest when it goes on with candidate `i`: at the
/// first candidate from `i` on that has a URL, or at the end.
pub open spec fn next_stop(c: Seq<FileView>, i: int) -> int
    decreases c.len() - i,
{
    if i < 0 || i >= c.len() {
        c.len() as int
    } else if c[i].has_url() {
        i
    } else {
        next_stop(c, i + 1)
    }
}

/// What a cycle asks for when it goes on with candidate `i`. A candidate
/// without a URL is not fetched, and is installed where it is active. For
/// the first candidate with a URL the cycle asks for the fetch and comes to
/// rest. After the last candidate it reports success.
pub open spec fn onward(c: Seq<FileView>, i: int) -> Seq<ActionView>
    decreases c.len() - i,
{
    if i < 0 || i >= c.len() {
        seq![completed()]
    } else if c[i].has_url() {
        seq![ActionView::Fetch { url: c[i].remote_url->0, file_name: c[i].file_name() }]
    } else {
        install(c[i]) + onward(c, i + 1)
    }
}

/// What a cycle asks for once the fetch of candidate `f` has ended. After a
/// fetch that went well the document is announced, and installed where it
/// is active. After one that failed the failure is reported, with the
/// reason.
pub open spec fn settled(f: FileView, result: Result<(), Seq<char>>) -> Seq<ActionView> {
    match result {
        Ok(_) => seq![ActionView::Announce { id: f.id }] + install(f),
        Err(reason) => seq![failed(reason)],
    }
}

/// One cycle of the sync: the candidates, and how far it has come. It rests
/// either at a candidate whose fetch it has asked for, or at the end.
pub struct SyncCycle {
    candidates: Vec<HostsFileMetadata>,
    at: usize,
}

impl SyncCycle {
    /// The candidates of the cycle.
    pub closed spec fn candidates(&self) -> Seq<FileView> {
        file_views(self.candidates@)
    }

    /// The place of the candidate whose fetch the cycle waits for, or the
    /// number of candidates where the cycle has ended.
    pub closed spec fn at(&self) -> int {
        self.at as int
    }

    /// The cycle rests at a candidate with a URL, or at the end.
    pub closed spec fn wf(&self) -> bool {
        &&& self.at <= self.candidates@.len()
        &&& self.at < self.candidates@.len() ==> self.candidates@[self.at as int]@.has_url()
    }

    /// Whether the cycle has ended.
    pub open spec fn finished(&self) -> bool {
        self.at() >= self.candidates().len()
    }

    /// Whether the cycle has ended.
    pub fn is_finished(&self) -> (r: bool)
        ensures
            r == self.finished(),
    {
        self.at >= self.candidates.len()
    }

    /// Asks for the writing of `f` to the system hosts file, where it is the
    /// active document.
    fn install_action(f: &HostsFileMetadata, actions: &mut Vec<SyncAction>)
        ensures
            action_views(final(actions)@) == action_views(old(actions)@) + install(f@),
    {
        if f.is_active {
            actions.push(SyncAction::Install { file_name: f.file_name() });
            proof {
                assert(action_views(actions@) =~= action_views(old(actions)@) + install(f@));
            }
        } else {
            proof {
                assert(action_views(actions@) =~= action_views(old(actions)@) + install(f@));
            }
        }
    }

    /// Goes on with the candidate at `self.at`.
    fn go_on(&mut self, actions: &mut Vec<SyncAction>)
        requires
            old(self).at <= old(self).candidates@.len(),
        ensures
            final(self).wf(),
            final(self).candidates() == old(self).candidates(),
            final(self).at() == next_stop(old(self).candidates(), old(self).at()),
            action_views(final(actions)@) == action_views(old(actions)@) + onward(
                old(self).candidates(),
                old(self).at(),
            ),
    {
        let ghost c = self.candidates();
        let ghost start = self.at as int;
        let ghost given = action_views(actions@);
        while self.at < self.candidates.len() && !self.candidates[self.at].has_url()
            invariant
                self.at <= self.candidates@.len(),
                self.candidates() == c,
                c == file_views(self.candidates@),
                next_stop(c, start) == next_stop(c, self.at as int),
                action_views(actions@) + onward(c, self.at as int) == given + onward(c, start),
            decreases self.candidates@.len() - self.at,
        {
            let ghost before = action_views(actions@);
            Self::install_action(&self.candidates[self.at], actions);
            proof {
                let i = self.at as int;
                assert(c[i] == self.candidates@[i]@);
                assert((before + install(c[i])) + onward(c, i + 1) =~= before + (install(c[i])
                    + onward(c, i + 1)));
            }
            self.at += 1;
        }
        let ghost before = actions@;
        if self.at < self.candidates.len() {
            let f = &self.candidates[self.at];
            let url = match &f.remote_url {
                Some(u) => u.clone(),
                None => String::new(),
            };
            actions.push(SyncAction::Fetch { url, file_name: f.file_name() });
            proof {
                assert(c[self.at as int] == self.candidates@[self.at as int]@);
                assert(action_views(actions@) =~= action_views(before) + onward(c, self.at as int));
            }
        } else {
            actions.push(
                SyncAction::Report {
                    status: SyncStatus::Success,
                    message: "Sync completed successfully".to_owned(),
                },
            );
            proof {
                assert(action_views(actions@) =~= action_views(before) + onward(c, self.at as int));
            }
        }
    }

    /// Begins a cycle over the documents `files`. Without a candidate the
    /// cycle reports that it is idle, and has ended. Else it reports that it
    /// is in progress, and goes on with the first candidate.
    pub fn start(files: &Vec<HostsFileMetadata>) -> (r: (SyncCycle, Vec<SyncAction>))
        ensures
            r.0.wf(),
            r.0.candidates() == candidates(file_views(files@)),
            r.0.at() == next_stop(r.0.candidates(), 0),
            action_views(r.1@) == if r.0.candidates().len() == 0 {
                seq![nothing_to_sync()]
            } else {
                seq![syncing()] + onward(r.0.candidates(), 0)
            },
    {
        let mut cycle = SyncCycle { candidates: select_candidates(files), at: 0 };
        let mut actions: Vec<SyncAction> = Vec::new();
        if cycle.candidates.len() == 0 {
            actions.push(
                SyncAction::Report {
                    status: SyncStatus::Idle,
                    message: "No remote hosts files to sync".to_owned(),
                },
            );
            proof {
                assert(action_views(actions@) =~= seq![nothing_to_sync()]);
            }
            return (cycle, actions);
        }
        actions.push(
            SyncAction::Report {
                status: SyncStatus::InProgress,
                message: "Syncing remote hosts...".to_owned(),
            },
        );
        proof {
            assert(action_views(actions@) =~= seq![syncing()]);
        }
        cycle.go_on(&mut actions);
        (cycle, actions)
    }

    /// Takes in how the fetch went that the cycle waits for, and goes on
    /// with the next candidate. A cycle that has ended asks for nothing more.
    pub fn fetched(&mut self, result: Result<(), String>) -> (actions: Vec<SyncAction>)
        requires
            old(self).wf(),
        ensures
            final(self).wf(),
            final(self).candidates() == old(self).candidates(),
            old(self).finished() ==> final(self).at() == old(self).at() && actions@.len() == 0,
            !old(self).finished() ==> final(self).at() == next_stop(
                old(self).candidates(),
                old(self).at() + 1,
            ) && action_views(actions@) == settled(
                old(self).candidates()[old(self).at()],
                match result {
                    Ok(_) => Ok(()),
                    Err(reason) => Err(reason@),
                },
            ) + onward(old(self).candidates(), old(self).at() + 1),
    {
        let mut actions: Vec<SyncAction> = Vec::new();
        if self.at >= self.candidates.len() {
            return actions;
        }
        let ghost f = self.candidates@[self.at as int]@;
        proof {
            assert(self.candidates()[self.at as int] == f);
        }
        match result {
            Ok(_) => {
                actions.push(SyncAction::Announce { id: self.candidates[self.at].id.clone() });
                proof {
                    assert(action_views(actions@) =~= seq![ActionView::Announce { id: f.id }]);
                }
                Self::install_action(&self.candidates[self.at], &mut actions);
            },
            Err(reason) => {
                let mut message = "Sync failed: ".to_owned();
                message.append(reason.as_str());
                actions.push(
                    SyncAction::Report { status: SyncStatus::Error(message.clone()), message },
                );
                proof {
                    assert(action_views(actions@) =~= seq![failed(reason@)]);
                }
            },
        }
        self.at += 1;
        self.go_on(&mut actions);
        actions
    }
}

/// The seconds that the periodic sync waits before its first cycle.
pub const STARTUP_DELAY_SECS: u64 = 10;

/// The seconds after which the periodic sync looks at the settings again,
/// where they could not be read or the sync is switched off.
pub const SETTINGS_CHECK_INTERVAL_SECS: u64 = 3600;

/// The settings of the periodic sync.
#[derive(Debug, Clone, Copy, PartialEq, Eq)]
pub struct SyncSettings {
    pub enabled: bool,
    pub interval_hours: u64,
}

/// The settings of the periodic sync, from what the settings store holds:
/// where it holds nothing, the sync is switched off and the interval is 24
/// hours.
pub fn sync_settings(enabled: Option<bool>, interval_hours: Option<u64>) -> (r: SyncSettings)
    ensures
        r.enabled == (enabled == Some(true)),
        r.interval_hours == match interval_hours {
            Some(h) => h,
            None => 24,
        },
{
    SyncSettings {
        enabled: match enabled {
            Some(e) => e,
            None => false,
        },
        interval_hours: match interval_hours {
            Some(h) => h,
            None => 24,
        },
    }
}

/// What the periodic sync does in one round.
#[derive(Debug, Clone, Copy, PartialEq, Eq)]
pub enum Round {
    /// Wait, and look at the settings again.
    Wait { seconds: u64 },
    /// Run one cycle, then wait.
    SyncThenWait { seconds: u64 },
    /// End the periodic sync.
    Stop,
}

/// The seconds in `hours` hours, or the largest number of seconds that 64
/// bits hold where that is less.
pub open spec fn interval_seconds(hours: u64) -> u64 {
    if hours * 3600 <= u64::MAX {
        (hours * 3600) as u64
    } else {
        u64::MAX
    }
}

/// What the periodic sync does in one round. Once it is cancelled it
/// stops. Where the settings could not be read, or the sync is switched off,
/// it waits for an hour. Else it runs one cycle and then waits for the
/// interval of the settings.
pub open spec fn round(settings: Option<SyncSettings>, cancelled: bool) -> Round {
    if cancelled {
        Round::Stop
    } else {
        match settings {
            Some(s) => if s.enabled {
                Round::SyncThenWait { seconds: interval_seconds(s.interval_hours) }
            } else {
                Round::Wait { seconds: SETTINGS_CHECK_INTERVAL_SECS }
            },
            None => Round::Wait { seconds: SETTINGS_CHECK_INTERVAL_SECS },
        }
    }
}

/// What the periodic sync does in one round, by the settings, or by their
/// absence where they could not be read, and by whether it was cancelled.
pub fn plan_round(settings: Option<SyncSettings>, cancelled: bool) -> (r: Round)
    ensures
        r == round(settings, cancelled),
{
    if cancelled {
        return Round::Stop;
    }
    match settings {
        Some(s) => if s.enabled {
            let seconds = match s.interval_hours.checked_mul(3600) {
                Some(n) => n,
                None => u64::MAX,
            };
            Round::SyncThenWait { seconds }
        } else {
            Round::Wait { seconds: SETTINGS_CHECK_INTERVAL_SECS }
        },
        None => Round::Wait { seconds: SETTINGS_CHECK_INTERVAL_SECS },
    }
}

} // verus!
