use vstd::prelude::*;


verus! {

/// One repository returned by the search: its name, URL and creation time.
pub struct RepositoryNode {
    pub name: String,
    pub url: String,
    pub created_at: String,
}

/// A repository record as it is stored. Only the identifier, URL and name
/// are filled in; the descriptive fields are left empty for later
/// enrichment.
pub struct Program {
    pub id: u128,
    pub github_url: String,
    pub name: String,
    pub description: String,
    pub namespace: String,
    pub max_version: String,
    pub mega_url: String,
    pub doc_url: String,
    pub program_type: String,
    pub downloads: i64,
    pub cratesio: String,
}

/// Whether the sync of the window `[start_date, end_date)` completed.
pub struct SyncStatus {
    pub start_date: String,
    pub end_date: String,
    pub sync_result: bool,
}

/// One page of search results with its pagination info.
pub struct SearchPage {
    pub nodes: Vec<RepositoryNode>,
    pub has_next_page: bool,
    pub end_cursor: Option<String>,
}

/// `p` is the stored record of the repository `n`, whatever its identifier.
pub open spec fn records(p: Program, n: RepositoryNode) -> bool {
    &&& p.github_url@ == n.url@
    &&& p.name@ == n.name@
    &&& p.description@.len() == 0
    &&& p.namespace@.len() == 0
    &&& p.max_version@.len() == 0
    &&& p.mega_url@.len() == 0
    &&& p.doc_url@.len() == 0
    &&& p.program_type@.len() == 0
    &&& p.downloads == 0
    &&& p.cratesio@.len() == 0
}

/// Relies on uuid's `Uuid::new_v4`, a random identifier, read as its 128
/// bits by `as_u128`. Nothing is known of the value.
#[verifier::external_body]
fn new_program_id() -> u128 {
    uuid::Uuid::new_v4().as_u128()
}

/// Appends the stored record of `item`, under a fresh random identifier.
pub fn convert_to_model(item: RepositoryNode, save_models: &mut Vec<Program>)
    ensures
        final(save_models)@.len() == old(save_models)@.len() + 1,
        final(save_models)@.subrange(0, old(save_models)@.len() as int) == old(save_models)@,
        records(final(save_models)@.last(), item),
{
    let model = Program {
        id: new_program_id(),
        github_url: item.url,
        name: item.name,
        description: String::new(),
        namespace: String::new(),
        max_version: String::new(),
        mega_url: String::new(),
        doc_url: String::new(),
        program_type: String::new(),
        downloads: 0,
        cratesio: String::new(),
    };
    save_models.push(model);
    proof {
        assert(final(save_models)@.subrange(0, old(save_models)@.len() as int) =~= old(save_models)@);
    }
}

/// The stored records of a page of repositories, one per repository and in
/// the same order.
pub fn convert_page(nodes: &Vec<RepositoryNode>) -> (r: Vec<Program>)
    ensures
        r@.len() == nodes@.len(),
        forall|i: int| 0 <= i < nodes@.len() ==> records(#[trigger] r@[i], nodes@[i]),
{
    let mut r: Vec<Program> = Vec::new();
    let mut i: usize = 0;
    while i < nodes.len()
        invariant
            i <= nodes@.len(),
            r@.len() == i,
            forall|k: int| 0 <= k < i ==> records(#[trigger] r@[k], nodes@[k]),
        decreases nodes@.len() - i,
    {
        let n = &nodes[i];
        let item = RepositoryNode {
            name: n.name.clone(),
            url: n.url.clone(),
            created_at: n.created_at.clone(),
        };
        let ghost before = r@;
        convert_to_model(item, &mut r);
        proof {
            assert forall|k: int| 0 <= k < i + 1 implies records(#[trigger] r@[k], nodes@[k]) by {
                if k < i {
                    assert(r@[k] == r@.subrange(0, before.len() as int)[k]);
                }
            }
        }
        i += 1;
    }
    r
}

/// The search query of a window: repositories in Rust created from `start`
/// to `end`.
pub open spec fn search_query_of(start: Seq<char>, end: Seq<char>) -> Seq<char> {
    seq![
        'l',
        'a',
        'n',
        'g',
        'u',
        'a',
        'g',
        'e',
        ':',
        'r',
        'u',
        's',
        't',
        ' ',
        'c',
        'r',
        'e',
        'a',
        't',
        'e',
        'd',
        ':',
    ] + start + seq!['.', '.'] + end
}

/// Builds the search query of the window `[start, end)`.
pub fn search_query(start: &str, end: &str) -> (r: String)
    ensures
        r@ == search_query_of(start@, end@),
{
    let mut q = String::new();
    proof {
        reveal_strlit("language:rust created:");
        reveal_strlit("..");
    }
    q.append("language:rust created:");
    q.append(start);
    q.append("..");
    q.append(end);
    proof {
        assert(q@ =~= search_query_of(start@, end@));
    }
    q
}

/// Where the sync of one window stands.
#[derive(Clone, Copy, Debug, PartialEq, Eq, Structural)]
pub enum Phase {
    /// Waiting for the stored progress record of the window.
    AwaitStatus,
    /// Waiting for the answer to a search request.
    AwaitPage,
    /// Waiting for a page's records to be stored; `has_next` tells whether
    /// the page announced another.
    AwaitSave { has_next: bool },
    /// Waiting for the window's success record to be stored.
    AwaitStatusSaved,
    /// Nothing more to do.
    Done,
}

/// What the outside world reports back to the window sync.
pub enum WindowEvent {
    /// The stored record of the window: its `sync_result`, or none.
    StatusLookedUp { sync_result: Option<bool> },
    /// The request failed, was answered with a non-success status, or its
    /// body could not be parsed.
    RequestFailed,
    /// The response held no `data`, such as a GraphQL error.
    NoData,
    /// A page of results.
    PageLoaded { page: SearchPage },
    /// The records of the last page were stored.
    ProgramsSaved,
    /// The success record of the window was stored.
    StatusSaved,
}

/// What the window sync asks the outside world to do next.
pub enum WindowAction {
    /// Read the stored progress record of the window.
    LookUpStatus,
    /// Send a search request for `query`, after `cursor` if there is one.
    Request { query: String, cursor: Option<String> },
    /// Store these records.
    SavePrograms { programs: Vec<Program> },
    /// Store this progress record.
    SaveStatus { status: SyncStatus },
    /// The window is finished.
    Finished,
    /// The event did not fit the phase; nothing changed.
    Ignored,
}

/// Whether `phase` expects the event `e`.
pub open spec fn accepts(phase: Phase, e: WindowEvent) -> bool {
    match phase {
        Phase::AwaitStatus => e is StatusLookedUp,
        Phase::AwaitPage => e is RequestFailed || e is NoData || e is PageLoaded,
        Phase::AwaitSave { .. } => e is ProgramsSaved,
        Phase::AwaitStatusSaved => e is StatusSaved,
        Phase::Done => false,
    }
}

/// The phase after event `e` in `phase`. A window whose loop ended early is
/// recorded as done unless `exhausted_only` is set, in which case it is left
/// without a record so that a later run takes it up again.
pub open spec fn phase_after(phase: Phase, e: WindowEvent, exhausted_only: bool) -> Phase {
    if !accepts(phase, e) {
        phase
    } else {
        match e {
            WindowEvent::StatusLookedUp { sync_result } => if sync_result == Some(true) {
                Phase::Done
            } else {
                Phase::AwaitPage
            },
            WindowEvent::PageLoaded { page } => Phase::AwaitSave { has_next: page.has_next_page },
            WindowEvent::ProgramsSaved => if phase matches Phase::AwaitSave { has_next } && has_next {
                Phase::AwaitPage
            } else {
                Phase::AwaitStatusSaved
            },
            WindowEvent::StatusSaved => Phase::Done,
            _ => if exhausted_only {
                Phase::Done
            } else {
                Phase::AwaitStatusSaved
            },
        }
    }
}

/// The cursor after event `e` in `phase`: none before the first request,
/// and the end cursor of a page that announces a next one.
pub open spec fn cursor_after(phase: Phase, e: WindowEvent, cursor: Option<String>) -> Option<
    String,
> {
    if !accepts(phase, e) {
        cursor
    } else {
        match e {
            WindowEvent::StatusLookedUp { .. } => None,
            WindowEvent::PageLoaded { page } => if page.has_next_page {
                page.end_cursor
            } else {
                cursor
            },
            _ => cursor,
        }
    }
}

/// Drives the search sync of one window `[start_date, end_date)`: skip it if
/// it is already recorded as done, else request pages after the cursor of
/// the one before, store each page's records before asking for the next,
/// and record the window as done at the end.
pub struct WindowSync {
    start_date: String,
    end_date: String,
    exhausted_only: bool,
    phase: Phase,
    cursor: Option<String>,
}

impl WindowSync {
    pub closed spec fn start_date(&self) -> Seq<char> {
        self.start_date@
    }

    pub closed spec fn end_date(&self) -> Seq<char> {
        self.end_date@
    }

    pub closed spec fn exhausted_only(&self) -> bool {
        self.exhausted_only
    }

    pub closed spec fn phase(&self) -> Phase {
        self.phase
    }

    pub closed spec fn cursor(&self) -> Option<String> {
        self.cursor
    }

    /// A sync of the window that begins by looking up its progress record.
    /// With `exhausted_only`, a window whose pages ended early is not
    /// recorded as done.
    pub fn new(start_date: String, end_date: String, exhausted_only: bool) -> (r: (
        Self,
        WindowAction,
    ))
        ensures
            r.0.start_date() == start_date@,
            r.0.end_date() == end_date@,
            r.0.exhausted_only() == exhausted_only,
            r.0.phase() == Phase::AwaitStatus,
            r.0.cursor() is None,
            r.1 is LookUpStatus,
    {
        (
            WindowSync { start_date, end_date, exhausted_only, phase: Phase::AwaitStatus, cursor: None },
            WindowAction::LookUpStatus,
        )
    }

    /// The current phase.
    pub fn current_phase(&self) -> (r: Phase)
        ensures
            r == self.phase(),
    {
        self.phase
    }

    /// Whether the sync of the window is over.
    pub fn is_done(&self) -> (r: bool)
        ensures
            r == (self.phase() == Phase::Done),
    {
        self.phase == Phase::Done
    }

    fn request(&self) -> (r: WindowAction)
        ensures
            r matches WindowAction::Request { query, cursor } && query@ == search_query_of(
                self.start_date(),
                self.end_date(),
            ) && cursor == self.cursor(),
    {
        let cursor = match &self.cursor {
            Some(c) => Some(c.clone()),
            None => None,
        };
        WindowAction::Request { query: search_query(&self.start_date, &self.end_date), cursor }
    }

    fn success_record(&self) -> (r: WindowAction)
        ensures
            r matches WindowAction::SaveStatus { status } && status.start_date@ == self.start_date()
                && status.end_date@ == self.end_date() && status.sync_result,
    {
        WindowAction::SaveStatus {
            status: SyncStatus {
                start_date: self.start_date.clone(),
                end_date: self.end_date.clone(),
                sync_result: true,
            },
        }
    }

    /// Takes the outcome of the last action and returns the next one.
    pub fn step(&mut self, e: WindowEvent) -> (r: WindowAction)
        ensures
            final(self).start_date() == old(self).start_date(),
            final(self).end_date() == old(self).end_date(),
            final(self).exhausted_only() == old(self).exhausted_only(),
            final(self).phase() == phase_after(old(self).phase(), e, old(self).exhausted_only()),
            final(self).cursor() == cursor_after(old(self).phase(), e, old(self).cursor()),
            !accepts(old(self).phase(), e) <==> r is Ignored,
            accepts(old(self).phase(), e) ==> {
                let p = final(self).phase();
                &&& p is Done ==> r is Finished
                &&& p is AwaitPage ==> (r matches WindowAction::Request { query, cursor }
                    && query@ == search_query_of(final(self).start_date(), final(self).end_date())
                    && cursor == final(self).cursor())
                &&& p is AwaitStatusSaved ==> (r matches WindowAction::SaveStatus { status }
                    && status.start_date@ == final(self).start_date() && status.end_date@
                    == final(self).end_date() && status.sync_result)
                &&& p is AwaitSave ==> (e matches WindowEvent::PageLoaded { page }
                    && r matches WindowAction::SavePrograms { programs } && programs@.len()
                    == page.nodes@.len() && forall|i: int|
                    0 <= i < page.nodes@.len() ==> records(
                        #[trigger] programs@[i],
                        page.nodes@[i],
                    ))
            },
    {
        match self.phase {
            Phase::AwaitStatus => match e {
                WindowEvent::StatusLookedUp { sync_result } => {
                    self.cursor = None;
                    if sync_result == Some(true) {
                        self.phase = Phase::Done;
                        WindowAction::Finished
                    } else {
                        self.phase = Phase::AwaitPage;
                        self.request()
                    }
                },
                _ => WindowAction::Ignored,
            },
            Phase::AwaitPage => match e {
                WindowEvent::PageLoaded { page } => {
                    let programs = convert_page(&page.nodes);
                    self.phase = Phase::AwaitSave { has_next: page.has_next_page };
                    if page.has_next_page {
                        self.cursor = page.end_cursor;
                    }
                    WindowAction::SavePrograms { programs }
                },
                WindowEvent::RequestFailed | WindowEvent::NoData => {
                    if self.exhausted_only {
                        self.phase = Phase::Done;
                        WindowAction::Finished
                    } else {
                        self.phase = Phase::AwaitStatusSaved;
                        self.success_record()
                    }
                },
                _ => WindowAction::Ignored,
            },
            Phase::AwaitSave { has_next } => match e {
                WindowEvent::ProgramsSaved => {
                    if has_next {
                        self.phase = Phase::AwaitPage;
                        self.request()
                    } else {
                        self.phase = Phase::AwaitStatusSaved;
                        self.success_record()
                    }
                },
                _ => WindowAction::Ignored,
            },
            Phase::AwaitStatusSaved => match e {
                WindowEvent::StatusSaved => {
                    self.phase = Phase::Done;
                    WindowAction::Finished
                },
                _ => WindowAction::Ignored,
            },
            Phase::Done => WindowAction::Ignored,
        }
    }
}

/// A window already recorded as done is finished by its progress record
/// alone: the lookup leads to `Done`, where every later event is ignored, so
/// no request is sent and nothing is stored.
pub proof fn recorded_window_is_skipped(e: WindowEvent, exhausted_only: bool)
    ensures
        phase_after(
            Phase::AwaitStatus,
            WindowEvent::StatusLookedUp { sync_result: Some(true) },
            exhausted_only,
        ) == Phase::Done,
        !accepts(Phase::Done, e),
        phase_after(Phase::Done, e, exhausted_only) == Phase::Done,
{
}

} // verus!
