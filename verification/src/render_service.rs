//! The render service: requests for one speed share one render, whose result goes to every
//! request that waited for it.

use crate::common::Error;
use crate::text::{contains, contains_token, decimal, decimal_text, names_of, replace, replaced};
use dashmap::DashMap;
use std::sync::Arc;
use vstd::prelude::*;

verus! {

/// `dashmap::DashMap`, the map that holds the queues. Nothing is known of a value of it but
/// what `waiting_lists` names.
#[verifier::external_type_specification]
#[verifier::external_body]
#[verifier::reject_recursive_types(K)]
#[verifier::reject_recursive_types(V)]
#[verifier::reject_recursive_types(S)]
pub struct ExDashMap<K, V, S>(DashMap<K, V, S>);

/// The waiters that a map of queues holds for each speed, in the order in which they came.
pub uninterp spec fn waiting_lists(map: DashMap<u64, Vec<u64>>) -> Map<u64, Seq<u64>>;

/// Queues in which nobody waits.
pub open spec fn no_queues() -> Map<u64, Seq<u64>> {
    Map::empty()
}

/// `DashMap::new`: the new map has no entry.
#[verifier::external_body]
fn queues_new() -> (queues: DashMap<u64, Vec<u64>>)
    ensures
        waiting_lists(queues) == no_queues(),
{
    DashMap::new()
}

/// `DashMap::insert`: the key is bound to the given value afterwards and no other entry
/// changes; the value that the key was bound to before is handed back.
#[verifier::external_body]
fn queues_insert(queues: &mut DashMap<u64, Vec<u64>>, key: u64, list: Vec<u64>) -> (previous: Option<
    Vec<u64>,
>)
    ensures
        waiting_lists(*final(queues)) == waiting_lists(*old(queues)).insert(key, list@),
        match previous {
            Some(before) => waiting_lists(*old(queues)).dom().contains(key) && before@
                == waiting_lists(*old(queues))[key],
            None => !waiting_lists(*old(queues)).dom().contains(key),
        },
{
    queues.insert(key, list)
}

/// `DashMap::remove`: the key has no entry afterwards and no other entry changes; the key and
/// the value that it was bound to are handed back.
#[verifier::external_body]
fn queues_remove(queues: &mut DashMap<u64, Vec<u64>>, key: u64) -> (entry: Option<(u64, Vec<u64>)>)
    ensures
        waiting_lists(*final(queues)) == waiting_lists(*old(queues)).remove(key),
        match entry {
            Some((k, list)) => waiting_lists(*old(queues)).dom().contains(key) && k == key && list@
                == waiting_lists(*old(queues))[key],
            None => !waiting_lists(*old(queues)).dom().contains(key),
        },
{
    queues.remove(&key)
}

/// `Arc::clone`: the new pointer leads to the same value.
#[verifier::external_body]
fn share(error: &Arc<Error>) -> (shared: Arc<Error>)
    ensures
        shared == *error,
{
    Arc::clone(error)
}

/// How the encoder is run.
#[derive(Debug, Clone, PartialEq, Eq)]
pub struct RenderServiceConfig {
    /// The path to the encoder executable.
    pub encoder: String,
    /// The flags handed to the encoder, before the placeholders in them are filled in.
    pub encoder_flags: Vec<String>,
    /// The number of encoder processes that may run at a time.
    pub max_jobs: usize,
}

/// What a waiter is told when its render ends.
#[derive(Debug, Clone, PartialEq, Eq)]
pub enum RenderOutcome {
    /// The encoded GIF, and the place that the waiter had in the queue. The waiter at place 0
    /// is the one that stores the GIF.
    Ready { gif: Vec<u8>, queue_position: usize },
    /// The render failed; all its waiters share the one error.
    Failed(Arc<Error>),
}

/// An outcome on its way to the waiter that it is for.
#[derive(Debug, Clone, PartialEq, Eq)]
pub struct Delivery {
    pub waiter: u64,
    pub outcome: RenderOutcome,
}

/// The list of waiters for a speed: empty where the speed has no entry.
pub open spec fn waiters_of(queues: Map<u64, Seq<u64>>, speed_bits: u64) -> Seq<u64> {
    if queues.dom().contains(speed_bits) {
        queues[speed_bits]
    } else {
        Seq::empty()
    }
}

/// The queues after a waiter has joined the queue of a speed.
pub open spec fn joined(queues: Map<u64, Seq<u64>>, speed_bits: u64, waiter: u64) -> Map<
    u64,
    Seq<u64>,
> {
    queues.insert(speed_bits, waiters_of(queues, speed_bits).push(waiter))
}

/// Whether a request for a speed has to start a render: it has where nobody waits for that
/// speed yet.
pub open spec fn starts_render(queues: Map<u64, Seq<u64>>, speed_bits: u64) -> bool {
    waiters_of(queues, speed_bits).len() == 0
}

/// The mathematical content of a [`RenderOutcome`].
pub enum OutcomeView {
    Ready { gif: Seq<u8>, queue_position: usize },
    Failed(Error),
}

impl View for RenderOutcome {
    type V = OutcomeView;

    open spec fn view(&self) -> OutcomeView {
        match *self {
            RenderOutcome::Ready { gif, queue_position } => OutcomeView::Ready {
                gif: gif@,
                queue_position,
            },
            RenderOutcome::Failed(error) => OutcomeView::Failed(*error),
        }
    }
}

/// The mathematical content of a [`Delivery`].
pub struct DeliveryView {
    pub waiter: u64,
    pub outcome: OutcomeView,
}

impl View for Delivery {
    type V = DeliveryView;

    open spec fn view(&self) -> DeliveryView {
        DeliveryView { waiter: self.waiter, outcome: self.outcome@ }
    }
}

pub open spec fn delivery_views(deliveries: Seq<Delivery>) -> Seq<DeliveryView> {
    deliveries.map_values(|d: Delivery| d@)
}

/// The mathematical content of a render's result.
pub open spec fn result_view(result: Result<Vec<u8>, Error>) -> Result<Seq<u8>, Error> {
    match result {
        Ok(gif) => Ok(gif@),
        Err(error) => Err(error),
    }
}

/// What the waiter at place `position` of a queue is told of a render's result.
pub open spec fn outcome_at(result: Result<Seq<u8>, Error>, position: int) -> OutcomeView {
    match result {
        Ok(gif) => OutcomeView::Ready { gif, queue_position: position as usize },
        Err(error) => OutcomeView::Failed(error),
    }
}

/// The deliveries that end a render: one for each waiter, in the order of the queue, each
/// with its place in that order.
pub open spec fn deliveries_for(waiters: Seq<u64>, result: Result<Seq<u8>, Error>) -> Seq<
    DeliveryView,
> {
    Seq::new(
        waiters.len(),
        |i: int| DeliveryView { waiter: waiters[i], outcome: outcome_at(result, i) },
    )
}

/// What a flag of the configuration becomes on the encoder's command line. A flag that
/// holds `{frame_indices}` becomes one argument for each selected frame: the flag with the
/// frame's index in place of the placeholder. Any other flag that holds `{fps}` becomes the
/// frame rate. Every other flag stays as it is.
pub open spec fn expanded_flag(flag: Seq<char>, fps: Seq<char>, frame_indices: Seq<usize>) -> Seq<
    Seq<char>,
> {
    if contains_token(flag, "{frame_indices}"@) {
        frame_indices.map_values(
            |index: usize| replaced(flag, "{frame_indices}"@, decimal_text(index as nat)),
        )
    } else if contains_token(flag, "{fps}"@) {
        seq![fps]
    } else {
        seq![flag]
    }
}

/// The encoder's command line: what each flag becomes, in the order of the flags.
pub open spec fn encoder_arguments(
    flags: Seq<Seq<char>>,
    fps: Seq<char>,
    frame_indices: Seq<usize>,
) -> Seq<Seq<char>>
    decreases flags.len(),
{
    if flags.len() == 0 {
        Seq::empty()
    } else {
        encoder_arguments(flags.drop_last(), fps, frame_indices) + expanded_flag(
            flags.last(),
            fps,
            frame_indices,
        )
    }
}

/// How a run of the encoder ended.
#[derive(Debug, Clone, PartialEq, Eq)]
pub enum EncoderRun {
    /// The process could not be started or waited for; the text says why.
    Broken(String),
    /// The process ran to its end.
    Exited { success: bool, stdout: Vec<u8> },
}

/// Checks the number of frames that a speed selects: more than one, and no more than the
/// animation has.
pub fn check_output_frames(output_frames: usize, frame_count: usize) -> (checked: Result<(), Error>)
    ensures
        checked == (if output_frames <= 1 {
            Err::<(), Error>(Error::SpeedTooFast)
        } else if output_frames > frame_count {
            Err::<(), Error>(Error::SpeedTooSlow)
        } else {
            Ok::<(), Error>(())
        }),
{
    if output_frames <= 1 {
        return Err(Error::SpeedTooFast);
    }
    if output_frames > frame_count {
        return Err(Error::SpeedTooSlow);
    }
    Ok(())
}

/// Builds the encoder's command line from the flags of the configuration, the frame rate
/// and the indices of the selected frames.
pub fn encoder_args(flags: &Vec<String>, fps: &str, frame_indices: &Vec<usize>) -> (args: Vec<
    String,
>)
    ensures
        names_of(args@) == encoder_arguments(names_of(flags@), fps@, frame_indices@),
{
    let mut args: Vec<String> = Vec::new();
    let mut f: usize = 0;
    while f < flags.len()
        invariant
            f <= flags.len(),
            names_of(args@) == encoder_arguments(names_of(flags@).take(f as int), fps@, frame_indices@),
        decreases flags.len() - f,
    {
        let flag = flags[f].as_str();
        let ghost before = names_of(args@);
        proof {
            assert(names_of(flags@).take(f + 1).drop_last() == names_of(flags@).take(f as int));
            assert(names_of(flags@).take(f + 1).last() == flag@);
        }
        if contains(flag, "{frame_indices}") {
            let ghost wanted = expanded_flag(flag@, fps@, frame_indices@);
            let mut i: usize = 0;
            while i < frame_indices.len()
                invariant
                    i <= frame_indices.len(),
                    wanted == expanded_flag(flag@, fps@, frame_indices@),
                    contains_token(flag@, "{frame_indices}"@),
                    names_of(args@) == before + wanted.take(i as int),
                decreases frame_indices.len() - i,
            {
                let index = decimal(frame_indices[i]);
                let ghost sofar = names_of(args@);
                args.push(replace(flag, "{frame_indices}", index.as_str()));
                proof {
                    assert(names_of(args@) =~= sofar.push(wanted[i as int]));
                    assert(wanted.take(i + 1) == wanted.take(i as int).push(wanted[i as int]));
                }
                i = i + 1;
            }
            proof {
                assert(wanted.take(frame_indices.len() as int) == wanted);
            }
        } else if contains(flag, "{fps}") {
            args.push(fps.to_owned());
            proof {
                assert(names_of(args@) =~= before + seq![fps@]);
            }
        } else {
            args.push(flag.to_owned());
            proof {
                assert(names_of(args@) =~= before + seq![flag@]);
            }
        }
        f = f + 1;
    }
    proof {
        assert(names_of(flags@).take(flags.len() as int) == names_of(flags@));
    }
    args
}

/// Turns the end of an encoder run into the result of the render: the bytes that the
/// encoder wrote where it ran and succeeded, and the fitting error otherwise.
pub fn render_result(run: EncoderRun) -> (result: Result<Vec<u8>, Error>)
    ensures
        result == (match run {
            EncoderRun::Broken(cause) => Err::<Vec<u8>, Error>(Error::Encoder(cause)),
            EncoderRun::Exited { success, stdout } => if success {
                Ok::<Vec<u8>, Error>(stdout)
            } else {
                Err::<Vec<u8>, Error>(Error::EncoderExitCode)
            },
        }),
{
    match run {
        EncoderRun::Broken(cause) => Err(Error::Encoder(cause)),
        EncoderRun::Exited { success, stdout } => {
            if success {
                Ok(stdout)
            } else {
                Err(Error::EncoderExitCode)
            }
        },
    }
}

/// The state of the render service: its configuration and, for each speed that is being
/// rendered, the waiters for it.
pub struct RenderService {
    config: RenderServiceConfig,
    frame_count: usize,
    queues: DashMap<u64, Vec<u64>>,
}

impl RenderService {
    /// The queues, by the bits of their speed.
    pub closed spec fn queues(&self) -> Map<u64, Seq<u64>> {
        waiting_lists(self.queues)
    }

    pub closed spec fn config(&self) -> RenderServiceConfig {
        self.config
    }

    pub closed spec fn frame_count(&self) -> usize {
        self.frame_count
    }

    /// A speed has an entry only while somebody waits for it.
    pub open spec fn wf(&self) -> bool {
        forall|speed_bits: u64| #[trigger]
            self.queues().dom().contains(speed_bits) ==> self.queues()[speed_bits].len() > 0
    }

    /// A service on which nobody waits.
    pub fn new(config: RenderServiceConfig, frame_count: usize) -> (service: Self)
        ensures
            service.queues() == no_queues(),
            service.config() == config,
            service.frame_count() == frame_count,
            service.wf(),
    {
        RenderService { config, frame_count, queues: queues_new() }
    }

    /// Puts a waiter at the end of the queue of the given speed. The result says whether a
    /// render has to be started for it, which is so when the queue was empty.
    pub fn handle_request(&mut self, speed_bits: u64, waiter: u64) -> (start: bool)
        ensures
            final(self).queues() == joined(old(self).queues(), speed_bits, waiter),
            start == starts_render(old(self).queues(), speed_bits),
            final(self).config() == old(self).config(),
            final(self).frame_count() == old(self).frame_count(),
            old(self).wf() ==> final(self).wf(),
    {
        let mut queue = match queues_remove(&mut self.queues, speed_bits) {
            Some((_, queue)) => queue,
            None => Vec::new(),
        };
        let start = queue.len() == 0;
        queue.push(waiter);
        let _ = queues_insert(&mut self.queues, speed_bits, queue);
        proof {
            assert(final(self).queues() =~= joined(old(self).queues(), speed_bits, waiter));
        }
        start
    }

    /// Ends the render of the given speed: its queue is taken out, and every waiter in it gets
    /// the result together with its place in the queue.
    pub fn handle_complete_render(&mut self, speed_bits: u64, result: Result<Vec<u8>, Error>) -> (
        deliveries: Vec<Delivery>)
        ensures
            final(self).queues() == old(self).queues().remove(speed_bits),
            delivery_views(deliveries@) == deliveries_for(
                waiters_of(old(self).queues(), speed_bits),
                result_view(result),
            ),
            final(self).config() == old(self).config(),
            final(self).frame_count() == old(self).frame_count(),
            old(self).wf() ==> final(self).wf(),
    {
        let queue = match queues_remove(&mut self.queues, speed_bits) {
            Some((_, queue)) => queue,
            None => Vec::new(),
        };
        let ghost waiters = queue@;
        let mut deliveries: Vec<Delivery> = Vec::new();
        match result {
            Ok(gif) => {
                let mut i: usize = 0;
                while i < queue.len()
                    invariant
                        i <= queue.len(),
                        queue@ == waiters,
                        deliveries.len() == i,
                        result == Ok::<Vec<u8>, Error>(gif),
                        delivery_views(deliveries@) == deliveries_for(
                            waiters,
                            result_view(result),
                        ).take(i as int),
                    decreases queue.len() - i,
                {
                    let copy = gif.clone();
                    let ghost before = deliveries@;
                    deliveries.push(
                        Delivery {
                            waiter: queue[i],
                            outcome: RenderOutcome::Ready { gif: copy, queue_position: i },
                        },
                    );
                    proof {
                        let target = deliveries_for(waiters, result_view(result));
                        assert(copy@ == gif@);
                        assert(deliveries@[i as int]@ == target[i as int]);
                        assert forall|j: int| 0 <= j < i implies delivery_views(deliveries@)[j]
                            == target[j] by {
                            assert(deliveries@[j] == before[j]);
                            assert(delivery_views(before)[j] == target.take(i as int)[j]);
                        }
                        assert(delivery_views(deliveries@) =~= target.take(i + 1));
                    }
                    i = i + 1;
                }
            },
            Err(error) => {
                let shared = Arc::new(error);
                let mut i: usize = 0;
                while i < queue.len()
                    invariant
                        i <= queue.len(),
                        queue@ == waiters,
                        deliveries.len() == i,
                        result == Err::<Vec<u8>, Error>(error),
                        shared == Arc::new(error),
                        delivery_views(deliveries@) == deliveries_for(
                            waiters,
                            result_view(result),
                        ).take(i as int),
                    decreases queue.len() - i,
                {
                    let ghost before = deliveries@;
                    deliveries.push(
                        Delivery { waiter: queue[i], outcome: RenderOutcome::Failed(share(&shared)) },
                    );
                    proof {
                        let target = deliveries_for(waiters, result_view(result));
                        assert(deliveries@[i as int]@ == target[i as int]);
                        assert forall|j: int| 0 <= j < i implies delivery_views(deliveries@)[j]
                            == target[j] by {
                            assert(deliveries@[j] == before[j]);
                            assert(delivery_views(before)[j] == target.take(i as int)[j]);
                        }
                        assert(delivery_views(deliveries@) =~= target.take(i + 1));
                    }
                    i = i + 1;
                }
            },
        }
        proof {
            assert(deliveries_for(waiters, result_view(result)).take(queue.len() as int)
                =~= deliveries_for(waiters, result_view(result)));
        }
        deliveries
    }

    /// The path to the encoder executable.
    pub fn encoder(&self) -> (path: &String)
        ensures
            *path == self.config().encoder,
    {
        &self.config.encoder
    }

    /// The number of encoder processes that may run at a time.
    pub fn max_jobs(&self) -> (jobs: usize)
        ensures
            jobs == self.config().max_jobs,
    {
        self.config.max_jobs
    }

    /// Checks the number of frames that a speed selects against the animation.
    pub fn check_speed(&self, output_frames: usize) -> (checked: Result<(), Error>)
        ensures
            checked == (if output_frames <= 1 {
                Err::<(), Error>(Error::SpeedTooFast)
            } else if output_frames > self.frame_count() {
                Err::<(), Error>(Error::SpeedTooSlow)
            } else {
                Ok::<(), Error>(())
            }),
    {
        check_output_frames(output_frames, self.frame_count)
    }

    /// Builds the encoder's command line for the selected frames.
    pub fn render_args(&self, fps: &str, frame_indices: &Vec<usize>) -> (args: Vec<String>)
        ensures
            names_of(args@) == encoder_arguments(
                names_of(self.config().encoder_flags@),
                fps@,
                frame_indices@,
            ),
    {
        encoder_args(&self.config.encoder_flags, fps, frame_indices)
    }

    /// Takes one event of the service and says what has to be done about it. A request
    /// joins the queue of its speed and starts a render where it is the first in it. A
    /// render that ended is handed to all the waiters of its speed, and its queue goes.
    pub fn handle_event(&mut self, event: QueueEvent) -> (action: QueueAction)
        ensures
            final(self).config() == old(self).config(),
            final(self).frame_count() == old(self).frame_count(),
            old(self).wf() ==> final(self).wf(),
            match event {
                QueueEvent::Requested { speed_bits, waiter } => {
                    &&& final(self).queues() == joined(old(self).queues(), speed_bits, waiter)
                    &&& action == (if starts_render(old(self).queues(), speed_bits) {
                        QueueAction::Render { speed_bits }
                    } else {
                        QueueAction::Join
                    })
                },
                QueueEvent::Completed { speed_bits, result } => {
                    &&& final(self).queues() == old(self).queues().remove(speed_bits)
                    &&& action matches QueueAction::Deliver { deliveries }
                    &&& delivery_views(deliveries@) == deliveries_for(
                        waiters_of(old(self).queues(), speed_bits),
                        result_view(result),
                    )
                },
            },
    {
        match event {
            QueueEvent::Requested { speed_bits, waiter } => {
                if self.handle_request(speed_bits, waiter) {
                    QueueAction::Render { speed_bits }
                } else {
                    QueueAction::Join
                }
            },
            QueueEvent::Completed { speed_bits, result } => {
                let deliveries = self.handle_complete_render(speed_bits, result);
                QueueAction::Deliver { deliveries }
            },
        }
    }
}

/// The queues after the given waiters have joined the queue of one speed, one after
/// another.
pub open spec fn joined_all(queues: Map<u64, Seq<u64>>, speed_bits: u64, waiters: Seq<u64>) -> Map<
    u64,
    Seq<u64>,
>
    decreases waiters.len(),
{
    if waiters.len() == 0 {
        queues
    } else {
        joined(joined_all(queues, speed_bits, waiters.drop_last()), speed_bits, waiters.last())
    }
}

/// The number of renders that are started when the given waiters join the queue of one
/// speed, one after another.
pub open spec fn renders_started(
    queues: Map<u64, Seq<u64>>,
    speed_bits: u64,
    waiters: Seq<u64>,
) -> nat
    decreases waiters.len(),
{
    if waiters.len() == 0 {
        0
    } else {
        let earlier = waiters.drop_last();
        renders_started(queues, speed_bits, earlier) + (if starts_render(
            joined_all(queues, speed_bits, earlier),
            speed_bits,
        ) {
            1nat
        } else {
            0nat
        })
    }
}

/// Requests for one speed that come while nobody waits for it and before its render ends
/// are coalesced: the first of them starts a render and no other does, all of them wait
/// in the order in which they came, and when the render ends each of them gets the same
/// bytes.
pub proof fn lemma_coalescing(
    queues: Map<u64, Seq<u64>>,
    speed_bits: u64,
    waiters: Seq<u64>,
    gif: Seq<u8>,
)
    requires
        starts_render(queues, speed_bits),
        waiters.len() > 0,
    ensures
        renders_started(queues, speed_bits, waiters) == 1,
        waiters_of(joined_all(queues, speed_bits, waiters), speed_bits) == waiters,
        deliveries_for(waiters, Ok(gif)).len() == waiters.len(),
        forall|i: int|
            0 <= i < waiters.len() ==> #[trigger] deliveries_for(waiters, Ok(gif))[i]
                == (DeliveryView {
                waiter: waiters[i],
                outcome: OutcomeView::Ready { gif, queue_position: i as usize },
            }),
    decreases waiters.len(),
{
    let earlier = waiters.drop_last();
    if earlier.len() == 0 {
        assert(joined_all(queues, speed_bits, earlier) == queues);
        assert(renders_started(queues, speed_bits, earlier) == 0);
        assert(waiters_of(joined_all(queues, speed_bits, waiters), speed_bits) =~= waiters);
    } else {
        lemma_coalescing(queues, speed_bits, earlier, gif);
        assert(waiters_of(joined_all(queues, speed_bits, waiters), speed_bits) =~= waiters);
    }
}

/// A step of the service, as far as the queues go.
pub enum QueueStep {
    /// A waiter asks for the GIF of a speed.
    Requested { speed_bits: u64, waiter: u64 },
    /// The render of a speed has ended.
    Completed { speed_bits: u64 },
}

/// The queues after the given steps, in their order.
pub open spec fn queues_after(queues: Map<u64, Seq<u64>>, steps: Seq<QueueStep>) -> Map<
    u64,
    Seq<u64>,
>
    decreases steps.len(),
{
    if steps.len() == 0 {
        queues
    } else {
        let before = queues_after(queues, steps.drop_last());
        match steps.last() {
            QueueStep::Requested { speed_bits, waiter } => joined(before, speed_bits, waiter),
            QueueStep::Completed { speed_bits } => before.remove(speed_bits),
        }
    }
}

/// The number of renders of a speed that are under way after the given steps, where nobody
/// waited and nothing was rendered before them: a request that starts a render adds one,
/// and the end of a render takes one away.
pub open spec fn renders_under_way(steps: Seq<QueueStep>, speed: u64) -> int
    decreases steps.len(),
{
    if steps.len() == 0 {
        0
    } else {
        let earlier = steps.drop_last();
        let before = renders_under_way(earlier, speed);
        match steps.last() {
            QueueStep::Requested { speed_bits, .. } => if speed_bits == speed && starts_render(
                queues_after(no_queues(), earlier),
                speed,
            ) {
                before + 1
            } else {
                before
            },
            QueueStep::Completed { speed_bits } => if speed_bits == speed && before > 0 {
                before - 1
            } else {
                before
            },
        }
    }
}

/// A speed never has two renders under way: whatever the steps, one render is under way
/// for a speed while somebody waits for it, and none while nobody does.
pub proof fn lemma_one_render_per_speed(steps: Seq<QueueStep>, speed: u64)
    ensures
        renders_under_way(steps, speed) == (if waiters_of(
            queues_after(no_queues(), steps),
            speed,
        ).len() > 0 {
            1int
        } else {
            0int
        }),
    decreases steps.len(),
{
    if steps.len() > 0 {
        lemma_one_render_per_speed(steps.drop_last(), speed);
    }
}

/// The place in the queue that an outcome tells, where it tells one.
pub open spec fn place_of(outcome: OutcomeView) -> Option<usize> {
    match outcome {
        OutcomeView::Ready { queue_position, .. } => Some(queue_position),
        OutcomeView::Failed(_) => None,
    }
}

/// Whether one of the deliveries tells the given place.
pub open spec fn tells_place(deliveries: Seq<DeliveryView>, place: usize) -> bool {
    exists|i: int| 0 <= i < deliveries.len() && place_of(#[trigger] deliveries[i].outcome) == Some(place)
}

/// The places that the waiters of one render are told are 0, 1, and so on up to their
/// number: the waiter at index `i` of the queue is told `i`, so no place is told twice and
/// none is left out.
pub proof fn lemma_queue_positions(waiters: Seq<u64>, gif: Seq<u8>)
    requires
        waiters.len() <= usize::MAX,
    ensures
        forall|i: int|
            0 <= i < waiters.len() ==> place_of(
                (#[trigger] deliveries_for(waiters, Ok(gif))[i]).outcome,
            ) == Some(i as usize),
        forall|i: int, j: int|
            0 <= i < j < waiters.len() ==> place_of(
                (#[trigger] deliveries_for(waiters, Ok(gif))[i]).outcome,
            ) != place_of((#[trigger] deliveries_for(waiters, Ok(gif))[j]).outcome),
        forall|place: usize|
            place < waiters.len() <==> #[trigger] tells_place(deliveries_for(waiters, Ok(gif)), place),
{
    let deliveries = deliveries_for(waiters, Ok(gif));
    assert forall|place: usize| place < waiters.len() <==> #[trigger] tells_place(
        deliveries,
        place,
    ) by {
        if place < waiters.len() {
            assert(place_of(deliveries[place as int].outcome) == Some(place));
        }
        if tells_place(deliveries, place) {
            let i = choose|i: int|
                0 <= i < deliveries.len() && place_of(#[trigger] deliveries[i].outcome) == Some(
                    place,
                );
            assert(place == i as usize);
        }
    }
}

/// An event of the render service.
#[derive(Debug, PartialEq, Eq)]
pub enum QueueEvent {
    /// A waiter asks for the GIF of a speed.
    Requested { speed_bits: u64, waiter: u64 },
    /// The render of a speed has ended.
    Completed { speed_bits: u64, result: Result<Vec<u8>, Error> },
}

/// What an event of the render service calls for.
#[derive(Debug, Clone, PartialEq, Eq)]
pub enum QueueAction {
    /// A render of the speed has to be started.
    Render { speed_bits: u64 },
    /// The waiter has joined a render that is under way: nothing is to be done.
    Join,
    /// The outcomes have to be handed to their waiters.
    Deliver { deliveries: Vec<Delivery> },
}

} // verus!
