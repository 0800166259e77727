//! The acquisition engine: window, trigger state and the scan of each block.

use vstd::prelude::*;
use vstd::slice::slice_to_vec;
use crate::clock::Clock;
use crate::config::OsciConfig;
use crate::display::DisplayBuffer;
use crate::pairs::{adjacent_pairs, tuple_windows};
use crate::sample::Sample;
use crate::trigger::Trigger;
use crate::window::{advanced, resized, zeros, SlidingWindow};

verus! {

/// What the engine carries from one sample to the next.
pub ghost struct EngineState {
    /// The sliding window, oldest sample first.
    pub window: Seq<Sample>,
    /// The last sample seen: the lower end of the next step of the signal.
    pub carry: Sample,
    /// The clock's reading at the last trigger event, or at the engine's
    /// start while there was none.
    pub last_trigger_time: u128,
}

/// The engine together with what it has shown: its state, the display
/// buffer's contents, and the number of trigger events counted so far.
pub ghost struct Acquisition {
    pub engine: EngineState,
    pub display: Seq<Sample>,
    pub fired: nat,
}

/// One sample, taken at clock reading `now`. The trigger is tested on the
/// step from the carried sample to `value`. Where it fires, the window as it
/// stands before `value` enters becomes the displayed snapshot and `now` the
/// time of the last trigger event. Then the window moves on by `value`.
pub open spec fn step(trigger: Trigger, before: Acquisition, value: Sample, now: u128) -> Acquisition {
    let fires = trigger.spec_test(
        before.engine.last_trigger_time,
        now,
        before.engine.carry,
        value,
    );
    Acquisition {
        engine: EngineState {
            window: advanced(before.engine.window, value),
            carry: value,
            last_trigger_time: if fires {
                now
            } else {
                before.engine.last_trigger_time
            },
        },
        display: if fires {
            before.engine.window
        } else {
            before.display
        },
        fired: if fires {
            before.fired + 1
        } else {
            before.fired
        },
    }
}

/// A run of samples, each with the clock reading at which it was taken,
/// stepped through in order.
pub open spec fn run(trigger: Trigger, before: Acquisition, samples: Seq<Sample>, times: Seq<u128>) -> Acquisition
    recommends
        times.len() == samples.len(),
    decreases samples.len(),
{
    if samples.len() == 0 {
        before
    } else {
        step(
            trigger,
            run(trigger, before, samples.drop_last(), times.drop_last()),
            samples.last(),
            times.last(),
        )
    }
}

/// One block under one configuration: the window is brought to the configured
/// length, then the block's samples are stepped through, counting trigger
/// events from zero.
pub open spec fn process(
    config: OsciConfig,
    engine: EngineState,
    display: Seq<Sample>,
    block: Seq<Sample>,
    times: Seq<u128>,
) -> Acquisition
    recommends
        times.len() == block.len(),
{
    run(
        config.trigger,
        Acquisition {
            engine: EngineState {
                window: resized(engine.window, config.buffer_size as nat),
                carry: engine.carry,
                last_trigger_time: engine.last_trigger_time,
            },
            display,
            fired: 0,
        },
        block,
        times,
    )
}

/// The window after `samples` have entered it one by one: the samples of
/// `window` followed by `samples`, cut to the most recent `window.len()`.
pub open spec fn fed(window: Seq<Sample>, samples: Seq<Sample>) -> Seq<Sample> {
    (window + samples).subrange(samples.len() as int, (window.len() + samples.len()) as int)
}

/// Stepping through a run that ends in `value` is stepping through the run
/// before it and then taking `value`.
pub proof fn lemma_run_push(
    trigger: Trigger,
    before: Acquisition,
    samples: Seq<Sample>,
    times: Seq<u128>,
    value: Sample,
    now: u128,
)
    ensures
        run(trigger, before, samples.push(value), times.push(now)) == step(
            trigger,
            run(trigger, before, samples, times),
            value,
            now,
        ),
{
    assert(samples.push(value).drop_last() =~= samples);
    assert(times.push(now).drop_last() =~= times);
}

/// What a run of samples leaves behind, whatever the clock read: the window
/// holds the most recent samples, the carried sample is the last one taken,
/// and there are at most as many trigger events as samples. Where no trigger
/// fired, the display and the time of the last trigger event are untouched.
pub proof fn lemma_run_outcome(
    trigger: Trigger,
    before: Acquisition,
    samples: Seq<Sample>,
    times: Seq<u128>,
)
    ensures
        run(trigger, before, samples, times).engine.window == fed(before.engine.window, samples),
        run(trigger, before, samples, times).engine.window.len() == before.engine.window.len(),
        run(trigger, before, samples, times).engine.carry == if samples.len() == 0 {
            before.engine.carry
        } else {
            samples.last()
        },
        before.fired <= run(trigger, before, samples, times).fired <= before.fired + samples.len(),
        run(trigger, before, samples, times).fired == before.fired ==> {
            &&& run(trigger, before, samples, times).display == before.display
            &&& run(trigger, before, samples, times).engine.last_trigger_time
                == before.engine.last_trigger_time
        },
    decreases samples.len(),
{
    if samples.len() == 0 {
        assert(fed(before.engine.window, samples) =~= before.engine.window);
    } else {
        lemma_run_outcome(trigger, before, samples.drop_last(), times.drop_last());
        assert(advanced(fed(before.engine.window, samples.drop_last()), samples.last()) =~= fed(
            before.engine.window,
            samples,
        ));
    }
}

/// The acquisition engine.
pub struct Engine {
    window: SlidingWindow,
    carry: Sample,
    last_trigger_time: u128,
}

impl View for Engine {
    type V = EngineState;

    closed spec fn view(&self) -> EngineState {
        EngineState {
            window: self.window@,
            carry: self.carry,
            last_trigger_time: self.last_trigger_time,
        }
    }
}

impl Engine {
    /// An engine started at clock reading `now`: a window of `window_len`
    /// zeros, a carried sample of zero, and the hold time counted from `now`.
    pub fn new(window_len: usize, now: u128) -> (engine: Engine)
        ensures
            engine@ == (EngineState {
                window: zeros(window_len as nat),
                carry: Sample::spec_zero(),
                last_trigger_time: now,
            }),
    {
        Engine { window: SlidingWindow::new(window_len), carry: Sample::zero(), last_trigger_time: now }
    }

    /// Answers a matching step seen at clock reading `now`. Where more than
    /// the hold time has passed since the last trigger event, the trigger
    /// fires: the window is published to `display` and `now` becomes the time
    /// of the last trigger event. Otherwise nothing changes. Returns whether
    /// the trigger fired.
    pub fn fire_if_due(&mut self, trigger: &Trigger, now: u128, display: &mut DisplayBuffer) -> (fired:
        bool)
        ensures
            fired == trigger.spec_hold_time_passed(old(self)@.last_trigger_time, now),
            final(self)@ == (EngineState {
                window: old(self)@.window,
                carry: old(self)@.carry,
                last_trigger_time: if fired {
                    now
                } else {
                    old(self)@.last_trigger_time
                },
            }),
            final(display)@ == if fired {
                old(self)@.window
            } else {
                old(display)@
            },
    {
        let fired = trigger.hold_time_passed(self.last_trigger_time, now);
        if fired {
            self.last_trigger_time = now;
            display.publish(self.window.snapshot());
        }
        fired
    }

    /// Takes one sample at clock reading `now`: tests the trigger on the step
    /// from the carried sample to `value`, publishes the window to `display`
    /// where it fires, and moves the window on. Returns whether it fired.
    pub fn step(&mut self, trigger: &Trigger, value: Sample, now: u128, display: &mut DisplayBuffer) -> (fired:
        bool)
        ensures
            fired == trigger.spec_test(old(self)@.last_trigger_time, now, old(self)@.carry, value),
            (Acquisition {
                engine: final(self)@,
                display: final(display)@,
                fired: if fired {
                    1nat
                } else {
                    0nat
                },
            }) == step(
                *trigger,
                Acquisition { engine: old(self)@, display: old(display)@, fired: 0 },
                value,
                now,
            ),
    {
        let fired = trigger.edge_matches(self.carry, value) && self.fire_if_due(
            trigger,
            now,
            display,
        );
        self.window.advance(value);
        self.carry = value;
        fired
    }

    /// Brings the window to length `len`: its oldest samples leave where it
    /// was longer, zeros enter before its oldest sample where it was shorter.
    pub fn resize_window(&mut self, len: usize)
        ensures
            final(self)@ == (EngineState {
                window: resized(old(self)@.window, len as nat),
                carry: old(self)@.carry,
                last_trigger_time: old(self)@.last_trigger_time,
            }),
            final(self)@.window.len() == len,
    {
        if len != self.window.len() {
            self.window.resize(len);
        } else {
            assert(resized(self.window@, len as nat) =~= self.window@);
        }
    }

    /// Takes one block under one configuration. The window is brought to the
    /// configured length. Then every step of the signal, from the carried
    /// sample through the block's samples, is tested against the trigger; on
    /// a step that matches, the clock is read, and where the hold time has
    /// passed the window is published to `display`. After each step the
    /// window moves on by the step's upper sample. Returns the number of
    /// trigger events.
    ///
    /// The outcome is that of [`process`] for some clock readings, one for
    /// each sample. What does not depend on the clock is stated besides.
    pub fn process_block(
        &mut self,
        config: &OsciConfig,
        block: &[Sample],
        clock: &Clock,
        display: &mut DisplayBuffer,
    ) -> (fired: usize)
        ensures
            exists|times: Seq<u128>|
                #![trigger process(*config, old(self)@, old(display)@, block@, times)]
                times.len() == block@.len() && (Acquisition {
                    engine: final(self)@,
                    display: final(display)@,
                    fired: fired as nat,
                }) == process(*config, old(self)@, old(display)@, block@, times),
            final(self)@.window == fed(
                resized(old(self)@.window, config.buffer_size as nat),
                block@,
            ),
            final(self)@.window.len() == config.buffer_size,
            final(self)@.carry == if block@.len() == 0 {
                old(self)@.carry
            } else {
                block@.last()
            },
            fired <= block@.len(),
            fired == 0 ==> final(display)@ == old(display)@ && final(self)@.last_trigger_time == old(
                self,
            )@.last_trigger_time,
    {
        self.resize_window(config.buffer_size);
        let ghost start = Acquisition { engine: self@, display: display@, fired: 0 };
        let mut input: Vec<Sample> = slice_to_vec(block);
        input.insert(0, self.carry);
        let pairs = tuple_windows(&input);
        let ghost mut times: Seq<u128> = Seq::empty();
        let mut fired: usize = 0;
        let mut index: usize = 0;
        assert(block@.subrange(0, 0) =~= Seq::<Sample>::empty());
        while index < pairs.len()
            invariant
                input@ == seq![start.engine.carry] + block@,
                pairs@ == adjacent_pairs(input@),
                index <= pairs@.len(),
                pairs@.len() == block@.len(),
                times.len() == index,
                fired <= index,
                run(config.trigger, start, block@.subrange(0, index as int), times) == (Acquisition {
                    engine: EngineState {
                        window: self.window@,
                        carry: input@[index as int],
                        last_trigger_time: self.last_trigger_time,
                    },
                    display: display@,
                    fired: fired as nat,
                }),
            decreases pairs@.len() - index,
        {
            let (prev, value) = pairs[index];
            let ghost mut taken_at: u128 = 0;
            if config.trigger.edge_matches(prev, value) {
                let now = clock.now();
                proof {
                    taken_at = now;
                }
                if self.fire_if_due(&config.trigger, now, display) {
                    fired += 1;
                }
            }
            self.window.advance(value);
            proof {
                lemma_run_push(
                    config.trigger,
                    start,
                    block@.subrange(0, index as int),
                    times,
                    value,
                    taken_at,
                );
                assert(block@.subrange(0, index as int).push(value) =~= block@.subrange(
                    0,
                    index + 1,
                ));
                times = times.push(taken_at);
            }
            index += 1;
        }
        self.carry = input[input.len() - 1];
        proof {
            assert(block@.subrange(0, index as int) =~= block@);
            lemma_run_outcome(config.trigger, start, block@, times);
            assert(process(*config, old(self)@, old(display)@, block@, times) == run(
                config.trigger,
                start,
                block@,
                times,
            ));
        }
        fired
    }

    /// A copy of the window's samples, oldest first.
    pub fn window(&self) -> (samples: Vec<Sample>)
        ensures
            samples@ == self@.window,
    {
        self.window.snapshot()
    }

    /// The number of samples in the window.
    pub fn window_len(&self) -> (len: usize)
        ensures
            len == self@.window.len(),
    {
        self.window.len()
    }

    /// The last sample taken: the lower end of the next step of the signal.
    pub fn carry(&self) -> (sample: Sample)
        ensures
            sample == self@.carry,
    {
        self.carry
    }

    /// The clock's reading at the last trigger event, or at the engine's
    /// start while there was none.
    pub fn last_trigger_time(&self) -> (time: u128)
        ensures
            time == self@.last_trigger_time,
    {
        self.last_trigger_time
    }
}

} // verus!
