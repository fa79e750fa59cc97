//! The cache service: rendered GIFs are kept on disk under a name made from their speed, and
//! a request is answered from disk where it can be.

use crate::common::Error;
use crate::garbage::{
    plan_purge, planned_victims, rows_of, select_victims, sum_sizes, Candidate, PurgePlan,
};
use crate::render_service::{deliveries_for, RenderOutcome};
use crate::text::{
    hex, hex_text, join_path, joined_path, lemma_hex_text_is_injective, names_of,
};
use vstd::prelude::*;
use vstd::string::StringExecFns;

verus! {

/// Where the cache lives and how large it may grow.
#[derive(Debug, Clone, PartialEq, Eq)]
pub struct CacheServiceConfig {
    /// The cache directory.
    pub cache_dir: String,
    /// The path to the usage index.
    pub database: String,
    /// The size of the cache directory, in bytes, at which files are purged.
    pub limit: u64,
    /// The size at which a purge stops.
    pub purge_limit: u64,
    /// The number of files that one purge looks at.
    pub purge_max_count: usize,
}

/// A row of the usage index: a file and the second, counted from the epoch, at which it
/// was last used.
#[derive(Debug, Clone, PartialEq, Eq)]
pub struct UsageRow {
    pub file: String,
    pub time: u64,
}

/// The name of the file that holds the GIF of a speed: the bits of the speed in
/// hexadecimal, followed by `.gif`.
pub open spec fn cached_name(speed_bits: u64) -> Seq<char> {
    hex_text(speed_bits as nat) + ".gif"@
}

/// Makes the name of the file that holds the GIF of a speed.
pub fn cached_filename(speed_bits: u64) -> (name: String)
    ensures
        name@ == cached_name(speed_bits),
{
    hex(speed_bits).concat(".gif")
}

/// How far the answer to a request has come.
#[derive(Debug, PartialEq, Eq)]
pub enum CacheState {
    /// No request has come yet.
    Idle,
    /// It is being found out whether the file of the speed exists.
    Probing { speed_bits: u64 },
    /// The file exists and is being read.
    Reading,
    /// The file does not exist; the garbage collector runs before the render.
    Collecting { speed_bits: u64 },
    /// The render service is at work.
    Rendering,
    /// The GIF came to the first waiter of its render and is being written to disk.
    Writing { gif: Vec<u8> },
    /// The GIF is at hand; the path of its file and the time are being asked for.
    Stamping { gif: Vec<u8> },
    /// The request has been answered.
    Done,
}

/// What the outside world reports back to a request.
#[derive(Debug, PartialEq, Eq)]
pub enum CacheEvent {
    /// A client asks for the GIF of a speed.
    Requested { speed_bits: u64 },
    /// Whether the file of the speed exists.
    Probed { exists: bool },
    /// The bytes of the file, or why it could not be read.
    Read { contents: Result<Vec<u8>, String> },
    /// The garbage collector is through, with or without success.
    Collected,
    /// The render has ended.
    Rendered { outcome: RenderOutcome },
    /// The file has been written, or why it could not be.
    Written { result: Result<(), String> },
    /// The path of the file as text, if it is valid UTF-8, and the seconds since the epoch,
    /// unless the clock stands before the epoch.
    Stamped { path: Option<String>, now: Option<u64> },
}

/// What a request asks of the outside world next.
#[derive(Debug, PartialEq, Eq)]
pub enum CacheAction {
    /// Find out whether the file of the speed exists.
    Probe { speed_bits: u64 },
    /// Read the file.
    ReadFile,
    /// Run the garbage collector; its errors are logged and do not fail the request.
    CollectGarbage,
    /// Ask the render service for the GIF.
    Render { speed_bits: u64 },
    /// Write the GIF that the state holds to the file.
    WriteFile,
    /// Tell the path of the file and the time.
    Stamp,
    /// Answer the client and, where a row is given, store it in the usage index without
    /// waiting for the outcome.
    Finish { reply: Result<Vec<u8>, Error>, touch: Option<UsageRow> },
    /// The event does not belong to the state: nothing is done.
    Nothing,
}

/// Whether the waiter that was told the given place writes the GIF to disk: the first
/// waiter of a render does, and no other.
pub open spec fn writes_to_disk(queue_position: usize) -> bool {
    queue_position == 0
}

/// The state and the action that follow from an event.
pub open spec fn transition(state: CacheState, event: CacheEvent) -> (CacheState, CacheAction) {
    match (state, event) {
        (CacheState::Idle, CacheEvent::Requested { speed_bits }) => (
            CacheState::Probing { speed_bits },
            CacheAction::Probe { speed_bits },
        ),
        (CacheState::Probing { speed_bits }, CacheEvent::Probed { exists }) => if exists {
            (CacheState::Reading, CacheAction::ReadFile)
        } else {
            (CacheState::Collecting { speed_bits }, CacheAction::CollectGarbage)
        },
        (CacheState::Reading, CacheEvent::Read { contents }) => match contents {
            Ok(gif) => (CacheState::Stamping { gif }, CacheAction::Stamp),
            Err(cause) => (
                CacheState::Done,
                CacheAction::Finish { reply: Err(Error::CannotReadGif(cause)), touch: None },
            ),
        },
        (CacheState::Collecting { speed_bits }, CacheEvent::Collected) => (
            CacheState::Rendering,
            CacheAction::Render { speed_bits },
        ),
        (CacheState::Rendering, CacheEvent::Rendered { outcome }) => match outcome {
            RenderOutcome::Ready { gif, queue_position } => if writes_to_disk(queue_position) {
                (CacheState::Writing { gif }, CacheAction::WriteFile)
            } else {
                (CacheState::Stamping { gif }, CacheAction::Stamp)
            },
            RenderOutcome::Failed(error) => (
                CacheState::Done,
                CacheAction::Finish { reply: Err(Error::RenderFailed(error)), touch: None },
            ),
        },
        (CacheState::Writing { gif }, CacheEvent::Written { result }) => match result {
            Ok(_) => (CacheState::Stamping { gif }, CacheAction::Stamp),
            Err(cause) => (
                CacheState::Done,
                CacheAction::Finish { reply: Err(Error::CannotWriteGif(cause)), touch: None },
            ),
        },
        (CacheState::Stamping { gif }, CacheEvent::Stamped { path, now }) => match (path, now) {
            (None, _) => (
                CacheState::Done,
                CacheAction::Finish { reply: Err(Error::InvalidUtf8), touch: None },
            ),
            (Some(_), None) => (
                CacheState::Done,
                CacheAction::Finish { reply: Err(Error::ClockWentBackwards), touch: None },
            ),
            (Some(file), Some(time)) => (
                CacheState::Done,
                CacheAction::Finish { reply: Ok(gif), touch: Some(UsageRow { file, time }) },
            ),
        },
        (state, _) => (state, CacheAction::Nothing),
    }
}

/// The decisions of the cache service.
pub struct GifService {
    config: CacheServiceConfig,
}

impl GifService {
    pub closed spec fn config(&self) -> CacheServiceConfig {
        self.config
    }

    pub fn new(config: CacheServiceConfig) -> (service: Self)
        ensures
            service.config() == config,
    {
        GifService { config }
    }

    /// The cache directory.
    pub fn cache_dir(&self) -> (dir: &String)
        ensures
            *dir == self.config().cache_dir,
    {
        &self.config.cache_dir
    }

    /// The path to the usage index.
    pub fn database(&self) -> (path: &String)
        ensures
            *path == self.config().database,
    {
        &self.config.database
    }

    /// Takes a request one step further: from its state and what the outside world
    /// reports, to its next state and what is asked of the outside world next.
    pub fn handle_request(state: CacheState, event: CacheEvent) -> (next: (CacheState, CacheAction))
        ensures
            next == transition(state, event),
    {
        match (state, event) {
            (CacheState::Idle, CacheEvent::Requested { speed_bits }) => (
                CacheState::Probing { speed_bits },
                CacheAction::Probe { speed_bits },
            ),
            (CacheState::Probing { speed_bits }, CacheEvent::Probed { exists }) => {
                if exists {
                    (CacheState::Reading, CacheAction::ReadFile)
                } else {
                    (CacheState::Collecting { speed_bits }, CacheAction::CollectGarbage)
                }
            },
            (CacheState::Reading, CacheEvent::Read { contents }) => match contents {
                Ok(gif) => (CacheState::Stamping { gif }, CacheAction::Stamp),
                Err(cause) => (
                    CacheState::Done,
                    CacheAction::Finish { reply: Err(Error::CannotReadGif(cause)), touch: None },
                ),
            },
            (CacheState::Collecting { speed_bits }, CacheEvent::Collected) => (
                CacheState::Rendering,
                CacheAction::Render { speed_bits },
            ),
            (CacheState::Rendering, CacheEvent::Rendered { outcome }) => match outcome {
                RenderOutcome::Ready { gif, queue_position } => {
                    if queue_position == 0 {
                        (CacheState::Writing { gif }, CacheAction::WriteFile)
                    } else {
                        (CacheState::Stamping { gif }, CacheAction::Stamp)
                    }
                },
                RenderOutcome::Failed(error) => (
                    CacheState::Done,
                    CacheAction::Finish { reply: Err(Error::RenderFailed(error)), touch: None },
                ),
            },
            (CacheState::Writing { gif }, CacheEvent::Written { result }) => match result {
                Ok(_) => (CacheState::Stamping { gif }, CacheAction::Stamp),
                Err(cause) => (
                    CacheState::Done,
                    CacheAction::Finish { reply: Err(Error::CannotWriteGif(cause)), touch: None },
                ),
            },
            (CacheState::Stamping { gif }, CacheEvent::Stamped { path, now }) => match (path, now) {
                (None, _) => (
                    CacheState::Done,
                    CacheAction::Finish { reply: Err(Error::InvalidUtf8), touch: None },
                ),
                (Some(_), None) => (
                    CacheState::Done,
                    CacheAction::Finish { reply: Err(Error::ClockWentBackwards), touch: None },
                ),
                (Some(file), Some(time)) => (
                    CacheState::Done,
                    CacheAction::Finish { reply: Ok(gif), touch: Some(UsageRow { file, time }) },
                ),
            },
            (state, _) => (state, CacheAction::Nothing),
        }
    }

    /// Decides from the sizes of the files in the cache directory whether to purge.
    pub fn purge_plan(&self, sizes: &Vec<u64>) -> (plan: PurgePlan)
        ensures
            plan == (if sum_sizes(sizes@) < self.config().limit {
                PurgePlan::Idle
            } else {
                PurgePlan::Purge {
                    fetch: self.config().purge_max_count,
                    total: sum_sizes(sizes@) as u128,
                }
            }),
    {
        plan_purge(sizes, self.config.limit, self.config.purge_max_count)
    }

    /// Picks the files to delete from the least recently used rows, oldest first.
    pub fn purge_victims(&self, oldest: &Vec<Candidate>, total: u128) -> (victims: Vec<String>)
        ensures
            names_of(victims@) == planned_victims(
                rows_of(oldest@),
                total as int,
                self.config().purge_limit as int,
            ),
    {
        select_victims(oldest, total, self.config.purge_limit)
    }
}

/// A cache that keeps everything under one directory: the usage index, the GIFs, and the
/// files that are still being made.
#[derive(Debug, Clone, PartialEq, Eq)]
pub struct GifServiceConfig {
    /// The encoder executable.
    pub gifski: String,
    /// The cache directory.
    pub cache_dir: String,
    /// The size of the GIFs, in bytes, at which files are purged.
    pub cache_limit: u64,
    /// The size at which a purge stops.
    pub cache_purge_limit: u64,
    /// The number of files that one purge looks at.
    pub cache_purge_max_count: usize,
}

impl GifServiceConfig {
    /// The path to the usage index: `cache.db` in the cache directory.
    pub fn database(&self) -> (path: String)
        ensures
            path@ == joined_path(self.cache_dir@, "cache.db"@),
    {
        join_path(self.cache_dir.as_str(), "cache.db")
    }

    /// The directory for files that are still being made: `work` in the cache directory.
    pub fn work_dir(&self) -> (path: String)
        ensures
            path@ == joined_path(self.cache_dir@, "work"@),
    {
        join_path(self.cache_dir.as_str(), "work")
    }

    /// The directory of the finished GIFs: `gif` in the cache directory.
    pub fn gif_dir(&self) -> (path: String)
        ensures
            path@ == joined_path(self.cache_dir@, "gif"@),
    {
        join_path(self.cache_dir.as_str(), "gif")
    }
}

/// The waiter that is told place 0 writes to disk, and no other waiter of the render does;
/// whichever place a waiter is told, it goes on with the bytes of the render.
pub proof fn lemma_first_waiter_writes(outcome: RenderOutcome)
    ensures
        match outcome {
            RenderOutcome::Ready { gif, queue_position } => {
                &&& transition(CacheState::Rendering, CacheEvent::Rendered { outcome }).1
                    == CacheAction::WriteFile <==> queue_position == 0
                &&& queue_position == 0 ==> transition(
                    CacheState::Rendering,
                    CacheEvent::Rendered { outcome },
                ).0 == (CacheState::Writing { gif })
                &&& queue_position != 0 ==> transition(
                    CacheState::Rendering,
                    CacheEvent::Rendered { outcome },
                ) == (CacheState::Stamping { gif }, CacheAction::Stamp)
            },
            RenderOutcome::Failed(_) => transition(
                CacheState::Rendering,
                CacheEvent::Rendered { outcome },
            ).1 != CacheAction::WriteFile,
        },
{
}

/// Of all the waiters of one render, the first in the queue writes the GIF to disk and no
/// other does, and each of them goes on with the bytes of the render.
pub proof fn lemma_one_write_per_render(
    waiters: Seq<u64>,
    gif: Seq<u8>,
    index: int,
    outcome: RenderOutcome,
)
    requires
        0 <= index < waiters.len() <= usize::MAX,
        outcome@ == deliveries_for(waiters, Ok(gif))[index].outcome,
    ensures
        transition(CacheState::Rendering, CacheEvent::Rendered { outcome }).1
            == CacheAction::WriteFile <==> index == 0,
        match transition(CacheState::Rendering, CacheEvent::Rendered { outcome }).0 {
            CacheState::Writing { gif: held } => index == 0 && held@ == gif,
            CacheState::Stamping { gif: held } => index != 0 && held@ == gif,
            _ => false,
        },
{
}

/// A request ends with a row for the usage index exactly when it ends with a GIF, and the
/// GIF that it ends with is the one that its state held.
pub proof fn lemma_touch_goes_with_success(state: CacheState, event: CacheEvent)
    ensures
        match transition(state, event).1 {
            CacheAction::Finish { reply, touch } => {
                &&& transition(state, event).0 == CacheState::Done
                &&& reply is Ok <==> touch is Some
                &&& reply matches Ok(gif) ==> state == (CacheState::Stamping { gif })
            },
            _ => true,
        },
{
}

/// A file that exists is read and nothing else happens: neither the garbage collector nor
/// the render service is asked before the request ends.
pub proof fn lemma_hit_reads_only(speed_bits: u64, contents: Result<Vec<u8>, String>)
    ensures
        transition(CacheState::Probing { speed_bits }, CacheEvent::Probed { exists: true }) == (
            CacheState::Reading,
            CacheAction::ReadFile,
        ),
        match transition(CacheState::Reading, CacheEvent::Read { contents }) {
            (CacheState::Stamping { gif }, CacheAction::Stamp) => contents == Ok::<
                Vec<u8>,
                String,
            >(gif),
            (CacheState::Done, CacheAction::Finish { reply, touch }) => contents is Err && reply
                == Err::<Vec<u8>, Error>(Error::CannotReadGif(contents->Err_0)) && touch is None,
            _ => false,
        },
{
}

/// Each speed has a file name of its own: two speeds share a file exactly when their bits
/// are the same.
pub proof fn lemma_cached_names_differ(a: u64, b: u64)
    ensures
        cached_name(a) == cached_name(b) <==> a == b,
{
    if cached_name(a) == cached_name(b) {
        let suffix = ".gif"@;
        let first = hex_text(a as nat);
        let second = hex_text(b as nat);
        assert(first.len() == second.len()) by {
            assert((first + suffix).len() == first.len() + suffix.len());
            assert((second + suffix).len() == second.len() + suffix.len());
        }
        assert(first =~= (first + suffix).take(first.len() as int));
        assert(second =~= (second + suffix).take(second.len() as int));
        lemma_hex_text_is_injective(a as nat, b as nat);
    }
}

} // verus!
