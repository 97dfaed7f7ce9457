//! The sampler: it walks the trajectories of one frame and lets every landing
//! brighten the accumulation buffer. A trajectory reaches it as the pixel
//! coordinates of its successive states; one that was abandoned is shorter.

use vstd::prelude::*;
use crate::buffer::AccumulationBuffer;

verus! {

/// How much of the trajectories handed to the sampler goes into one frame.
#[derive(Clone, Copy, Debug, PartialEq, Eq, Structural)]
pub struct SimulationParameters {
    /// Number of steps of one trajectory.
    pub iterations_per_sample: usize,
    /// Number of trajectories of one frame.
    pub samples_per_frame: usize,
}

/// The landings of one trajectory that count: its first `iterations`, or all
/// of them where it has fewer.
pub open spec fn steps_taken(path: Seq<(u32, u32)>, iterations: nat) -> Seq<(u32, u32)> {
    if path.len() <= iterations {
        path
    } else {
        path.take(iterations as int)
    }
}

/// The landings of one frame in the order in which they are applied: those of
/// the first `samples` trajectories, each cut to `iterations` steps.
pub open spec fn frame_path(trajectories: Seq<Seq<(u32, u32)>>, samples: nat, iterations: nat) -> Seq<(u32, u32)>
    decreases trajectories.len(),
{
    if trajectories.len() == 0 {
        Seq::empty()
    } else if trajectories.len() > samples {
        frame_path(trajectories.drop_last(), samples, iterations)
    } else {
        frame_path(trajectories.drop_last(), samples, iterations) + steps_taken(trajectories.last(), iterations)
    }
}

/// The trajectories as sequences of landings.
pub open spec fn spec_paths(trajectories: Seq<Vec<(u32, u32)>>) -> Seq<Seq<(u32, u32)>> {
    trajectories.map_values(|path: Vec<(u32, u32)>| path@)
}

/// Trajectories past the first `samples` add nothing to a frame.
pub proof fn lemma_frame_path_ignores_surplus(
    trajectories: Seq<Seq<(u32, u32)>>,
    samples: nat,
    iterations: nat,
)
    requires
        trajectories.len() >= samples,
    ensures
        frame_path(trajectories, samples, iterations) == frame_path(
            trajectories.take(samples as int),
            samples,
            iterations,
        ),
    decreases trajectories.len(),
{
    if trajectories.len() > samples {
        lemma_frame_path_ignores_surplus(trajectories.drop_last(), samples, iterations);
        assert(trajectories.drop_last().take(samples as int) == trajectories.take(samples as int));
    } else {
        assert(trajectories.take(samples as int) == trajectories);
    }
}

/// A frame holds at most `samples * iterations` landings, and exactly that
/// many when there are at least `samples` trajectories and none of the first
/// `samples` is shorter than `iterations`.
pub proof fn lemma_frame_path_len(trajectories: Seq<Seq<(u32, u32)>>, samples: nat, iterations: nat)
    ensures
        frame_path(trajectories, samples, iterations).len() <= samples * iterations,
        trajectories.len() >= samples && (forall|i: int|
            0 <= i < samples ==> (#[trigger] trajectories[i]).len() >= iterations) ==> frame_path(
            trajectories,
            samples,
            iterations,
        ).len() == samples * iterations,
    decreases trajectories.len(),
{
    let n = trajectories.len();
    if n == 0 {
        assert(samples * iterations >= 0) by (nonlinear_arith);
        assert(samples == 0 ==> samples * iterations == 0) by (nonlinear_arith);
    } else if n > samples {
        lemma_frame_path_len(trajectories.drop_last(), samples, iterations);
    } else {
        let rest = trajectories.drop_last();
        lemma_frame_path_within(rest, samples, iterations);
        assert(frame_path(rest, samples, iterations).len() <= (n - 1) * iterations);
        assert((n - 1) * iterations + iterations <= samples * iterations) by (nonlinear_arith)
            requires
                1 <= n <= samples,
        ;
        if n == samples && (forall|i: int| 0 <= i < samples ==> (#[trigger] trajectories[i]).len() >= iterations) {
            assert forall|i: int| 0 <= i < rest.len() implies (#[trigger] rest[i]).len() >= iterations by {
                assert(rest[i] == trajectories[i]);
            }
            lemma_frame_path_full(rest, samples, iterations);
            assert(trajectories.last() == trajectories[n - 1]);
            assert((n - 1) * iterations + iterations == samples * iterations) by (nonlinear_arith)
                requires
                    n == samples,
            ;
        }
    }
}

/// With no more trajectories than `samples`, a frame holds at most
/// `iterations` landings for each of them.
proof fn lemma_frame_path_within(trajectories: Seq<Seq<(u32, u32)>>, samples: nat, iterations: nat)
    requires
        trajectories.len() <= samples,
    ensures
        frame_path(trajectories, samples, iterations).len() <= trajectories.len() * iterations,
    decreases trajectories.len(),
{
    let n = trajectories.len();
    if n > 0 {
        lemma_frame_path_within(trajectories.drop_last(), samples, iterations);
        assert((n - 1) * iterations + iterations == n * iterations) by (nonlinear_arith);
    }
}

/// With no more trajectories than `samples`, and none shorter than
/// `iterations`, a frame holds exactly `iterations` landings for each.
proof fn lemma_frame_path_full(trajectories: Seq<Seq<(u32, u32)>>, samples: nat, iterations: nat)
    requires
        trajectories.len() <= samples,
        forall|i: int| 0 <= i < trajectories.len() ==> (#[trigger] trajectories[i]).len() >= iterations,
    ensures
        frame_path(trajectories, samples, iterations).len() == trajectories.len() * iterations,
    decreases trajectories.len(),
{
    let n = trajectories.len();
    if n > 0 {
        let rest = trajectories.drop_last();
        assert forall|i: int| 0 <= i < rest.len() implies (#[trigger] rest[i]).len() >= iterations by {
            assert(rest[i] == trajectories[i]);
        }
        lemma_frame_path_full(rest, samples, iterations);
        assert(trajectories.last() == trajectories[n - 1]);
        assert((n - 1) * iterations + iterations == n * iterations) by (nonlinear_arith);
    }
}

/// Plots the landings of one trajectory, first to last, up to `iterations` of
/// them.
pub fn run_trajectory(buffer: &mut AccumulationBuffer, path: &Vec<(u32, u32)>, iterations: usize)
    ensures
        final(buffer)@ == old(buffer)@.traced(steps_taken(path@, iterations as nat)),
{
    let steps = if path.len() <= iterations {
        path.len()
    } else {
        iterations
    };
    let mut i: usize = 0;
    while i < steps
        invariant
            i <= steps <= path.len(),
            buffer@ == old(buffer)@.traced(path@.take(i as int)),
        decreases steps - i,
    {
        let (x, y) = path[i];
        buffer.plot(x, y);
        proof {
            let upto = path@.take(i + 1);
            assert(upto.drop_last() == path@.take(i as int));
            assert(upto.last() == path@[i as int]);
        }
        i += 1;
    }
    assert(path@.take(path.len() as int) == path@);
}

/// Runs the trajectories of one frame: the first `samples_per_frame` of those
/// given, each for at most `iterations_per_sample` steps, in the order given.
pub fn run_sampler(
    params: &SimulationParameters,
    buffer: &mut AccumulationBuffer,
    trajectories: &Vec<Vec<(u32, u32)>>,
)
    ensures
        final(buffer)@ == old(buffer)@.traced(
            frame_path(
                spec_paths(trajectories@),
                params.samples_per_frame as nat,
                params.iterations_per_sample as nat,
            ),
        ),
{
    let ghost paths = spec_paths(trajectories@);
    let ghost limit = params.samples_per_frame as nat;
    let ghost iterations = params.iterations_per_sample as nat;
    let samples = if trajectories.len() <= params.samples_per_frame {
        trajectories.len()
    } else {
        params.samples_per_frame
    };
    let mut s: usize = 0;
    while s < samples
        invariant
            s <= samples <= trajectories.len(),
            samples <= limit,
            paths == spec_paths(trajectories@),
            iterations == params.iterations_per_sample as nat,
            buffer@ == old(buffer)@.traced(frame_path(paths.take(s as int), limit, iterations)),
        decreases samples - s,
    {
        run_trajectory(buffer, &trajectories[s], params.iterations_per_sample);
        proof {
            let upto = paths.take(s + 1);
            assert(upto.drop_last() == paths.take(s as int));
            assert(upto.last() == trajectories@[s as int]@);
            crate::grid::lemma_traced_concat(
                old(buffer)@,
                frame_path(paths.take(s as int), limit, iterations),
                steps_taken(upto.last(), iterations),
            );
        }
        s += 1;
    }
    proof {
        if trajectories.len() <= params.samples_per_frame {
            assert(paths.take(samples as int) == paths);
        } else {
            lemma_frame_path_ignores_surplus(paths, limit, iterations);
        }
    }
}

} // verus!
