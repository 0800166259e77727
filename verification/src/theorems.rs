//! What holds of the engine over whole runs of samples: the hold time, the
//! window's length, and the indifference to where blocks are cut.

use vstd::prelude::*;
use crate::config::OsciConfig;
use crate::engine::{process, run, step, Acquisition, EngineState, lemma_run_outcome};
use crate::sample::Sample;
use crate::trigger::{Trigger, TriggerMode};
use crate::window::resized;

verus! {

/// While the clock reads no more than the hold time past the last trigger
/// event, no sample fires the trigger: the count of events, the displayed
/// snapshot and the time of the last event stay as they are.
pub proof fn lemma_held_off_run(
    trigger: Trigger,
    before: Acquisition,
    samples: Seq<Sample>,
    times: Seq<u128>,
)
    requires
        times.len() == samples.len(),
        forall|i: int|
            0 <= i < times.len() ==> times[i] <= before.engine.last_trigger_time
                + trigger.hold_time,
    ensures
        run(trigger, before, samples, times).fired == before.fired,
        run(trigger, before, samples, times).display == before.display,
        run(trigger, before, samples, times).engine.last_trigger_time
            == before.engine.last_trigger_time,
    decreases samples.len(),
{
    if samples.len() > 0 {
        lemma_held_off_run(trigger, before, samples.drop_last(), times.drop_last());
        assert(times.last() == times[times.len() - 1]);
    }
}

/// Of two crossings no more than the hold time apart, only the first is
/// published. The first sample fires at `first_at`; whatever samples follow
/// up to `second_at`, and however the signal moves at `second`, the display
/// keeps the snapshot of the first crossing and no further event is counted.
pub proof fn lemma_second_crossing_held_off(
    trigger: Trigger,
    before: Acquisition,
    first: Sample,
    first_at: u128,
    between: Seq<Sample>,
    between_at: Seq<u128>,
    second: Sample,
    second_at: u128,
)
    requires
        trigger.spec_test(
            before.engine.last_trigger_time,
            first_at,
            before.engine.carry,
            first,
        ),
        between_at.len() == between.len(),
        forall|i: int| 0 <= i < between_at.len() ==> between_at[i] <= second_at,
        second_at <= first_at + trigger.hold_time,
    ensures
        step(trigger, before, first, first_at).fired == before.fired + 1,
        step(trigger, before, first, first_at).display == before.engine.window,
        step(
            trigger,
            run(trigger, step(trigger, before, first, first_at), between, between_at),
            second,
            second_at,
        ).fired == before.fired + 1,
        step(
            trigger,
            run(trigger, step(trigger, before, first, first_at), between, between_at),
            second,
            second_at,
        ).display == before.engine.window,
{
    let after_first = step(trigger, before, first, first_at);
    lemma_held_off_run(trigger, after_first, between, between_at);
}

/// Between two trigger events the display buffer holds one snapshot: over
/// any run of samples in which the trigger does not fire, what a read of the
/// display returns stays the same.
pub proof fn lemma_display_kept_without_trigger(
    trigger: Trigger,
    before: Acquisition,
    samples: Seq<Sample>,
    times: Seq<u128>,
)
    requires
        run(trigger, before, samples, times).fired == before.fired,
    ensures
        run(trigger, before, samples, times).display == before.display,
{
    lemma_run_outcome(trigger, before, samples, times);
}

/// After a block has been processed the window has the configured length,
/// whatever its length was before and whatever the block held.
pub proof fn lemma_window_length_follows_config(
    config: OsciConfig,
    engine: EngineState,
    display: Seq<Sample>,
    block: Seq<Sample>,
    times: Seq<u128>,
)
    ensures
        process(config, engine, display, block, times).engine.window.len() == config.buffer_size,
{
    let start = Acquisition {
        engine: EngineState {
            window: resized(engine.window, config.buffer_size as nat),
            carry: engine.carry,
            last_trigger_time: engine.last_trigger_time,
        },
        display,
        fired: 0,
    };
    lemma_run_outcome(config.trigger, start, block, times);
}

/// Stepping through two runs one after the other is stepping through their
/// concatenation.
pub proof fn lemma_run_concat(
    trigger: Trigger,
    before: Acquisition,
    first: Seq<Sample>,
    first_at: Seq<u128>,
    second: Seq<Sample>,
    second_at: Seq<u128>,
)
    requires
        first_at.len() == first.len(),
        second_at.len() == second.len(),
    ensures
        run(trigger, run(trigger, before, first, first_at), second, second_at) == run(
            trigger,
            before,
            first + second,
            first_at + second_at,
        ),
    decreases second.len(),
{
    if second.len() == 0 {
        assert(first + second =~= first);
        assert(first_at + second_at =~= first_at);
    } else {
        lemma_run_concat(
            trigger,
            before,
            first,
            first_at,
            second.drop_last(),
            second_at.drop_last(),
        );
        assert((first + second).drop_last() =~= first + second.drop_last());
        assert((first_at + second_at).drop_last() =~= first_at + second_at.drop_last());
    }
}

/// The count of trigger events that a run starts from is carried along and
/// changes nothing else.
pub proof fn lemma_run_counts_from(
    trigger: Trigger,
    before: Acquisition,
    samples: Seq<Sample>,
    times: Seq<u128>,
    count: nat,
)
    ensures
        run(
            trigger,
            Acquisition { engine: before.engine, display: before.display, fired: count },
            samples,
            times,
        ) == (Acquisition {
            engine: run(trigger, before, samples, times).engine,
            display: run(trigger, before, samples, times).display,
            fired: (run(trigger, before, samples, times).fired - before.fired + count) as nat,
        }),
        run(trigger, before, samples, times).fired >= before.fired,
    decreases samples.len(),
{
    if samples.len() > 0 {
        lemma_run_counts_from(trigger, before, samples.drop_last(), times.drop_last(), count);
    }
}

/// Where a stream is cut into blocks does not matter. Two blocks processed
/// one after the other under one configuration leave the engine and the
/// display as the two processed as one block would, with as many trigger
/// events in all. So the step from the last sample of one block to the first
/// sample of the next is tested once, like every step inside a block.
pub proof fn lemma_blocks_join(
    config: OsciConfig,
    engine: EngineState,
    display: Seq<Sample>,
    first: Seq<Sample>,
    first_at: Seq<u128>,
    second: Seq<Sample>,
    second_at: Seq<u128>,
)
    requires
        first_at.len() == first.len(),
        second_at.len() == second.len(),
    ensures
        ({
            let after_first = process(config, engine, display, first, first_at);
            let after_second = process(
                config,
                after_first.engine,
                after_first.display,
                second,
                second_at,
            );
            let joined = process(config, engine, display, first + second, first_at + second_at);
            &&& after_second.engine == joined.engine
            &&& after_second.display == joined.display
            &&& after_first.fired + after_second.fired == joined.fired
        }),
{
    let start = Acquisition {
        engine: EngineState {
            window: resized(engine.window, config.buffer_size as nat),
            carry: engine.carry,
            last_trigger_time: engine.last_trigger_time,
        },
        display,
        fired: 0,
    };
    let after_first = run(config.trigger, start, first, first_at);
    lemma_run_outcome(config.trigger, start, first, first_at);
    assert(resized(after_first.engine.window, config.buffer_size as nat)
        =~= after_first.engine.window);
    lemma_run_concat(config.trigger, start, first, first_at, second, second_at);
    lemma_run_counts_from(config.trigger, after_first, second, second_at, 0);
}

/// A rising crossing that straddles two blocks is detected exactly once.
/// The first block ends below the level and the second begins above it, and
/// the hold time has passed when the second block's first sample is taken:
/// then that sample fires the trigger, once, and what is published is the
/// window as the first block left it.
pub proof fn lemma_crossing_between_blocks(
    config: OsciConfig,
    engine: EngineState,
    display: Seq<Sample>,
    first: Seq<Sample>,
    first_at: Seq<u128>,
    second: Seq<Sample>,
    second_at: Seq<u128>,
)
    requires
        first.len() > 0,
        second.len() > 0,
        first_at.len() == first.len(),
        second_at.len() == second.len(),
        config.trigger.trigger_mode == TriggerMode::RisingEdge,
        first.last().spec_lt(config.trigger.trigger_level),
        config.trigger.trigger_level.spec_lt(second.first()),
        config.trigger.spec_hold_time_passed(
            process(config, engine, display, first, first_at).engine.last_trigger_time,
            second_at.first(),
        ),
    ensures
        ({
            let after_first = process(config, engine, display, first, first_at);
            let crossing = process(
                config,
                after_first.engine,
                after_first.display,
                second.take(1),
                second_at.take(1),
            );
            &&& crossing.fired == 1
            &&& crossing.display == after_first.engine.window
            &&& crossing.engine.last_trigger_time == second_at.first()
        }),
{
    let start = Acquisition {
        engine: EngineState {
            window: resized(engine.window, config.buffer_size as nat),
            carry: engine.carry,
            last_trigger_time: engine.last_trigger_time,
        },
        display,
        fired: 0,
    };
    let after_first = run(config.trigger, start, first, first_at);
    lemma_run_outcome(config.trigger, start, first, first_at);
    assert(resized(after_first.engine.window, config.buffer_size as nat)
        =~= after_first.engine.window);
    let restart = Acquisition {
        engine: after_first.engine,
        display: after_first.display,
        fired: 0,
    };
    let one = second.take(1);
    let one_at = second_at.take(1);
    assert(one.drop_last() =~= Seq::<Sample>::empty());
    assert(one.last() == second.first());
    assert(one_at.last() == second_at.first());
    assert(run(config.trigger, restart, one.drop_last(), one_at.drop_last()) == restart);
}

} // verus!
