//! The state that the tabs and the background jobs share.

use crate::fs::DirReads;
use crate::fs::IoError;
use crate::jobs::spec_event;
use crate::jobs::spec_has_job;
use crate::jobs::spec_next;
use crate::jobs::spec_threads_after;
use crate::jobs::JobHandle;
use crate::jobs::JobScheduler;
use crate::jobs::PollStep;
use crate::jobs::SchedulerView;
use crate::jobs::ThreadMessage;
use crate::structs::JoshutoDirEntry;
use crate::path::JoshutoPath;
use crate::tab::spec_navigate;
use crate::tab::spec_reload;
use crate::tab::NavError;
use crate::tab::JoshutoTab;
use crate::tab::TabView;
use vstd::prelude::*;

verus! {

/// The settings that the library reads.
#[derive(Clone, Copy, Debug, PartialEq, Eq)]
pub struct JoshutoConfig {
    pub scroll_offset: usize,
    pub tilde_in_titlebar: bool,
    pub column_ratio: (u32, u32, u32),
}

/// Which tabs were brought up to date after a job ended, and which of them
/// is on show and has to be drawn again.
#[derive(Clone, Copy, Debug, PartialEq, Eq, Structural)]
pub struct Reconciled {
    pub src_reloaded: bool,
    pub src_refresh: bool,
    pub dest_reloaded: bool,
    pub dest_refresh: bool,
}

/// The tabs after the tab at `index`, if there is one, has read its
/// listings anew from `reads`, with the reads after it.
pub open spec fn spec_reload_at(
    tabs: Seq<TabView>,
    index: usize,
    reads: Map<Seq<Seq<char>>, Result<Vec<JoshutoDirEntry>, IoError>>,
) -> (Seq<TabView>, Map<Seq<Seq<char>>, Result<Vec<JoshutoDirEntry>, IoError>>) {
    if index < tabs.len() {
        let reloaded = spec_reload(tabs[index as int], reads);
        (tabs.update(index as int, reloaded.0), reloaded.1)
    } else {
        (tabs, reads)
    }
}

/// The tabs after a job from the tab `tab_src` to the tab `tab_dest` has
/// ended, with both sets of reads after it: the source tab reads its
/// listings anew, and the destination tab too where it is another tab.
pub open spec fn spec_reconciled_tabs(
    tabs: Seq<TabView>,
    tab_src: usize,
    tab_dest: usize,
    src_reads: Map<Seq<Seq<char>>, Result<Vec<JoshutoDirEntry>, IoError>>,
    dest_reads: Map<Seq<Seq<char>>, Result<Vec<JoshutoDirEntry>, IoError>>,
) -> (
    Seq<TabView>,
    Map<Seq<Seq<char>>, Result<Vec<JoshutoDirEntry>, IoError>>,
    Map<Seq<Seq<char>>, Result<Vec<JoshutoDirEntry>, IoError>>,
) {
    let src = spec_reload_at(tabs, tab_src, src_reads);
    if tab_dest != tab_src {
        let dest = spec_reload_at(src.0, tab_dest, dest_reads);
        (dest.0, src.1, dest.1)
    } else {
        (src.0, src.1, dest_reads)
    }
}

/// What the caller learns of that: a tab that exists was reloaded, and is
/// to be drawn again where it is the tab on show.
pub open spec fn spec_reconciled(tabs: nat, curr_tab_index: usize, tab_src: usize, tab_dest: usize) -> Reconciled {
    Reconciled {
        src_reloaded: tab_src < tabs,
        src_refresh: tab_src < tabs && tab_src == curr_tab_index,
        dest_reloaded: tab_dest != tab_src && tab_dest < tabs,
        dest_refresh: tab_dest != tab_src && tab_dest < tabs && tab_dest == curr_tab_index,
    }
}

/// The tabs, the tab that is shown, and the jobs that are outstanding.
pub struct JoshutoContext {
    username: String,
    hostname: String,
    threads: JobScheduler,
    curr_tab_index: usize,
    tabs: Vec<JoshutoTab>,
    config_t: JoshutoConfig,
}

/// The context as contracts see it.
pub struct ContextView {
    pub username: Seq<char>,
    pub hostname: Seq<char>,
    pub threads: SchedulerView,
    pub curr_tab_index: usize,
    pub tabs: Seq<TabView>,
    pub config_t: JoshutoConfig,
}

/// The tabs as contracts see them.
pub open spec fn spec_tab_views(tabs: Seq<JoshutoTab>) -> Seq<TabView> {
    Seq::new(tabs.len(), |i: int| tabs[i]@)
}

impl View for JoshutoContext {
    type V = ContextView;

    closed spec fn view(&self) -> ContextView {
        ContextView {
            username: self.username@,
            hostname: self.hostname@,
            threads: self.threads@,
            curr_tab_index: self.curr_tab_index,
            tabs: spec_tab_views(self.tabs@),
            config_t: self.config_t,
        }
    }
}

impl JoshutoContext {
    /// Every tab is well formed, the tab on show is one of the tabs where
    /// there are any, and the outstanding jobs have distinct numbers.
    pub closed spec fn wf(&self) -> bool {
        &&& self.threads.wf()
        &&& forall|i: int| 0 <= i < self.tabs@.len() ==> (#[trigger] self.tabs@[i]).wf()
        &&& self.curr_tab_index < self.tabs@.len() || (self.tabs@.len() == 0
            && self.curr_tab_index == 0)
    }

    /// What a well-formed context holds.
    pub proof fn lemma_wf(&self)
        requires
            self.wf(),
        ensures
            crate::jobs::spec_jobs_wf(self@.threads.threads, self@.threads.next_job),
            forall|i: int| 0 <= i < self@.tabs.len() ==> (#[trigger] self@.tabs[i]).wf(),
            self@.curr_tab_index < self@.tabs.len() || (self@.tabs.len() == 0
                && self@.curr_tab_index == 0),
    {
        assert forall|i: int| 0 <= i < self@.tabs.len() implies (#[trigger] self@.tabs[i]).wf() by {
            self.tabs@[i].lemma_wf();
        }
    }

    /// A context without tabs and without jobs.
    pub fn new(config_t: JoshutoConfig, username: String, hostname: String) -> (r: Self)
        ensures
            r.wf(),
            r@ == (ContextView {
                username: username@,
                hostname: hostname@,
                threads: SchedulerView { threads: Seq::empty(), next_job: 0 },
                curr_tab_index: 0,
                tabs: Seq::empty(),
                config_t,
            }),
    {
        let r = JoshutoContext {
            username,
            hostname,
            threads: JobScheduler::new(),
            curr_tab_index: 0,
            tabs: Vec::new(),
            config_t,
        };
        assert(r@.tabs =~= Seq::empty());
        r
    }

    /// The name of the user.
    pub fn username(&self) -> (r: &String)
        ensures
            r@ == self@.username,
    {
        &self.username
    }

    /// The name of the machine.
    pub fn hostname(&self) -> (r: &String)
        ensures
            r@ == self@.hostname,
    {
        &self.hostname
    }

    /// The settings.
    pub fn config_t(&self) -> (r: JoshutoConfig)
        ensures
            r == self@.config_t,
    {
        self.config_t
    }

    /// The outstanding jobs.
    pub fn threads(&self) -> (r: &JobScheduler)
        ensures
            r@ == self@.threads,
            self.wf() ==> r.wf(),
    {
        &self.threads
    }

    /// The tabs.
    pub fn tabs(&self) -> (r: &Vec<JoshutoTab>)
        ensures
            spec_tab_views(r@) == self@.tabs,
            self.wf() ==> forall|i: int| 0 <= i < r@.len() ==> (#[trigger] r@[i]).wf(),
    {
        &self.tabs
    }

    /// The place of the tab that is shown.
    pub fn curr_tab_index(&self) -> (r: usize)
        ensures
            r == self@.curr_tab_index,
    {
        self.curr_tab_index
    }

    /// The tab that is shown.
    pub fn curr_tab_ref(&self) -> (r: &JoshutoTab)
        requires
            self@.curr_tab_index < self@.tabs.len(),
        ensures
            r@ == self@.tabs[self@.curr_tab_index as int],
            self.wf() ==> r.wf(),
    {
        &self.tabs[self.curr_tab_index]
    }

    /// The tab at `index`, to be changed. The context is well formed again
    /// once the tab is.
    pub fn tab_mut(&mut self, index: usize) -> (r: &mut JoshutoTab)
        requires
            index < old(self)@.tabs.len(),
        ensures
            r@ == old(self)@.tabs[index as int],
            old(self).wf() ==> r.wf(),
            final(self)@ == (ContextView { tabs: final(self)@.tabs, ..old(self)@ }),
            final(self)@.tabs.len() == old(self)@.tabs.len(),
            forall|i: int|
                0 <= i < old(self)@.tabs.len() ==> #[trigger] final(self)@.tabs[i] == (if i
                    == index {
                    final(r)@
                } else {
                    old(self)@.tabs[i]
                }),
            old(self).wf() && final(r).wf() ==> final(self).wf(),
    {
        &mut self.tabs[index]
    }

    /// The tab that is shown, to be changed. The context is well formed
    /// again once the tab is.
    pub fn curr_tab_mut(&mut self) -> (r: &mut JoshutoTab)
        requires
            old(self)@.curr_tab_index < old(self)@.tabs.len(),
        ensures
            r@ == old(self)@.tabs[old(self)@.curr_tab_index as int],
            old(self).wf() ==> r.wf(),
            final(self)@ == (ContextView { tabs: final(self)@.tabs, ..old(self)@ }),
            final(self)@.tabs.len() == old(self)@.tabs.len(),
            forall|i: int|
                0 <= i < old(self)@.tabs.len() ==> #[trigger] final(self)@.tabs[i] == (if i == old(
                    self,
                )@.curr_tab_index {
                    final(r)@
                } else {
                    old(self)@.tabs[i]
                }),
            old(self).wf() && final(r).wf() ==> final(self).wf(),
    {
        let at = self.curr_tab_index;
        &mut self.tabs[at]
    }

    /// Adds `tab` behind the others and shows it. Its place is handed out.
    pub fn add_tab(&mut self, tab: JoshutoTab) -> (r: usize)
        requires
            old(self).wf(),
            tab.wf(),
        ensures
            final(self).wf(),
            r == old(self)@.tabs.len(),
            final(self)@ == (ContextView {
                tabs: old(self)@.tabs.push(tab@),
                curr_tab_index: r,
                ..old(self)@
            }),
    {
        let at = self.tabs.len();
        self.tabs.push(tab);
        self.curr_tab_index = at;
        assert(self@.tabs =~= old(self)@.tabs.push(tab@));
        at
    }

    /// Shows the tab at `index` if there is one, and says whether there is.
    pub fn set_curr_tab_index(&mut self, index: usize) -> (r: bool)
        requires
            old(self).wf(),
        ensures
            final(self).wf(),
            r == (index < old(self)@.tabs.len()),
            r ==> final(self)@ == (ContextView { curr_tab_index: index, ..old(self)@ }),
            !r ==> final(self)@ == old(self)@,
    {
        if index < self.tabs.len() {
            self.curr_tab_index = index;
            true
        } else {
            false
        }
    }

    /// Notes a background job that was started from the tab `tab_src` and
    /// writes to the directory of the tab `tab_dest`, and hands out its
    /// handle. No job is noted once the numbers have run out.
    pub fn spawn(&mut self, tab_src: usize, tab_dest: usize) -> (r: Option<JobHandle>)
        requires
            old(self).wf(),
        ensures
            final(self).wf(),
            r is Some == (old(self)@.threads.next_job < u64::MAX),
            r matches Some(job) ==> {
                &&& job == (JobHandle { id: old(self)@.threads.next_job, tab_src, tab_dest })
                &&& !spec_has_job(old(self)@.threads.threads, job.id)
                &&& final(self)@ == (ContextView {
                    threads: SchedulerView {
                        threads: old(self)@.threads.threads.push(job),
                        next_job: (job.id + 1) as u64,
                    },
                    ..old(self)@
                })
            },
            r is None ==> final(self)@ == old(self)@,
    {
        self.threads.spawn(tab_src, tab_dest)
    }

    /// Takes in what the wait on the job at place `i` gave (see
    /// `JobScheduler::deliver`). The tabs are not touched: after a
    /// settlement the caller reads the directories of the two tabs and
    /// calls `reconcile`.
    pub fn process_message(&mut self, i: usize, message: ThreadMessage) -> (r: PollStep)
        requires
            old(self).wf(),
            i < old(self)@.threads.threads.len(),
        ensures
            final(self).wf(),
            r.next == spec_next(i as int, message),
            r.event == spec_event(old(self)@.threads.threads[i as int], message),
            final(self)@ == (ContextView {
                threads: SchedulerView {
                    threads: spec_threads_after(old(self)@.threads.threads, i as int, message),
                    next_job: old(self)@.threads.next_job,
                },
                ..old(self)@
            }),
    {
        self.threads.deliver(i, message)
    }

    /// What the tab counter shows: the place of the tab on show, counted
    /// from one, and the number of tabs. It shows nothing where there is
    /// exactly one tab.
    pub fn tab_counter(&self) -> (r: Option<(usize, usize)>)
        requires
            self.wf(),
        ensures
            r == (if self@.tabs.len() != 1 {
                Some(((self@.curr_tab_index + 1) as usize, self@.tabs.len() as usize))
            } else {
                None
            }),
    {
        let n = self.tabs.len();
        if n != 1 {
            Some((self.curr_tab_index + 1, n))
        } else {
            None
        }
    }

    /// How long the event loop may wait for a key, as the terminal takes
    /// it: not at all (0) while jobs are outstanding, so that they are
    /// polled again; without end (-1) when none is.
    pub fn input_timeout(&self) -> (r: i32)
        ensures
            r == (if self@.threads.threads.len() > 0 {
                0i32
            } else {
                -1i32
            }),
    {
        self.threads.input_timeout()
    }

    /// Brings the tabs up to date after a job from the tab `tab_src` to
    /// the tab `tab_dest` has ended: the source tab reads its listings
    /// anew from `src_reads`, and the destination tab, where it is
    /// another tab, from `dest_reads`. A tab that no longer exists is
    /// passed over. The result says which tabs were reloaded and which of
    /// them has to be drawn again.
    pub fn reconcile(
        &mut self,
        tab_src: usize,
        tab_dest: usize,
        src_reads: &mut DirReads,
        dest_reads: &mut DirReads,
    ) -> (r: Reconciled)
        requires
            old(self).wf(),
            old(src_reads).wf(),
            old(dest_reads).wf(),
        ensures
            final(self).wf(),
            final(src_reads).wf(),
            final(dest_reads).wf(),
            (final(self)@.tabs, final(src_reads)@, final(dest_reads)@) == spec_reconciled_tabs(
                old(self)@.tabs,
                tab_src,
                tab_dest,
                old(src_reads)@,
                old(dest_reads)@,
            ),
            final(self)@ == (ContextView { tabs: final(self)@.tabs, ..old(self)@ }),
            r == spec_reconciled(
                old(self)@.tabs.len(),
                old(self)@.curr_tab_index,
                tab_src,
                tab_dest,
            ),
    {
        let n = self.tabs.len();
        let mut r = Reconciled {
            src_reloaded: false,
            src_refresh: false,
            dest_reloaded: false,
            dest_refresh: false,
        };
        if tab_src < n {
            self.reload_tab(tab_src, src_reads);
            r.src_reloaded = true;
            r.src_refresh = tab_src == self.curr_tab_index;
        }
        if tab_dest != tab_src && tab_dest < n {
            self.reload_tab(tab_dest, dest_reads);
            r.dest_reloaded = true;
            r.dest_refresh = tab_dest == self.curr_tab_index;
        }
        r
    }

    /// Moves the tab on show to `path` (see `JoshutoTab::navigate`). The
    /// other tabs and the jobs are not touched.
    pub fn navigate_curr_tab(
        &mut self,
        path: &JoshutoPath,
        exists: bool,
        chdir: Result<(), IoError>,
        reads: &mut DirReads,
    ) -> (r: Result<(), NavError>)
        requires
            old(self).wf(),
            old(reads).wf(),
            old(self)@.curr_tab_index < old(self)@.tabs.len(),
        ensures
            final(self).wf(),
            final(reads).wf(),
            ({
                let at = old(self)@.curr_tab_index as int;
                let moved = spec_navigate(old(self)@.tabs[at], path@, exists, chdir, old(reads)@);
                &&& r == moved.0
                &&& final(reads)@ == moved.2
                &&& final(self)@ == (ContextView {
                    tabs: old(self)@.tabs.update(at, moved.1),
                    ..old(self)@
                })
            }),
    {
        let at = self.curr_tab_index;
        let r = self.tabs[at].navigate(path, exists, chdir, reads);
        assert(self@.tabs =~= old(self)@.tabs.update(
            at as int,
            spec_navigate(old(self)@.tabs[at as int], path@, exists, chdir, old(reads)@).1,
        ));
        r
    }

    /// Lets the tab at `index` read its listings anew from `reads`.
    pub fn reload_tab(&mut self, index: usize, reads: &mut DirReads)
        requires
            old(self).wf(),
            old(reads).wf(),
            index < old(self)@.tabs.len(),
        ensures
            final(self).wf(),
            final(reads).wf(),
            (final(self)@.tabs, final(reads)@) == spec_reload_at(
                old(self)@.tabs,
                index,
                old(reads)@,
            ),
            final(self)@ == (ContextView { tabs: final(self)@.tabs, ..old(self)@ }),
    {
        self.tabs[index].reload_contents(reads);
        assert(self@.tabs =~= old(self)@.tabs.update(
            index as int,
            spec_reload(old(self)@.tabs[index as int], old(reads)@).0,
        ));
    }
}

/// After a job between two tabs that both exist has ended, each of the two
/// has read its listings anew exactly once, from its own reads, and every
/// other tab is as it was.
pub proof fn lemma_reconciled_both(
    tabs: Seq<TabView>,
    tab_src: usize,
    tab_dest: usize,
    src_reads: Map<Seq<Seq<char>>, Result<Vec<JoshutoDirEntry>, IoError>>,
    dest_reads: Map<Seq<Seq<char>>, Result<Vec<JoshutoDirEntry>, IoError>>,
)
    requires
        tab_src < tabs.len(),
        tab_dest < tabs.len(),
        tab_src != tab_dest,
    ensures
        ({
            let after = spec_reconciled_tabs(tabs, tab_src, tab_dest, src_reads, dest_reads).0;
            &&& after.len() == tabs.len()
            &&& after[tab_src as int] == spec_reload(tabs[tab_src as int], src_reads).0
            &&& after[tab_dest as int] == spec_reload(tabs[tab_dest as int], dest_reads).0
            &&& forall|i: int|
                0 <= i < tabs.len() && i != tab_src && i != tab_dest ==> after[i] == tabs[i]
        }),
{
}

/// After a job within one tab has ended, that tab has read its listings
/// anew exactly once, and every other tab is as it was.
pub proof fn lemma_reconciled_one(
    tabs: Seq<TabView>,
    tab: usize,
    src_reads: Map<Seq<Seq<char>>, Result<Vec<JoshutoDirEntry>, IoError>>,
    dest_reads: Map<Seq<Seq<char>>, Result<Vec<JoshutoDirEntry>, IoError>>,
)
    requires
        tab < tabs.len(),
    ensures
        ({
            let after = spec_reconciled_tabs(tabs, tab, tab, src_reads, dest_reads);
            &&& after.0.len() == tabs.len()
            &&& after.0[tab as int] == spec_reload(tabs[tab as int], src_reads).0
            &&& after.2 == dest_reads
            &&& forall|i: int| 0 <= i < tabs.len() && i != tab ==> after.0[i] == tabs[i]
        }),
{
}

} // verus!
