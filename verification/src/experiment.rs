//! Search strategies that run the simulation kernel many times and keep the
//! configuration with the highest score.
use crate::model::Reaction;
use crate::simulation::{Simulation, SimulationParameters, SimulationState};
use vstd::prelude::*;

verus! {

/// ObjectiveScore is a measure of how a Simulation performed according to an
/// objective function. This is used to find approximate global optimizations.
/// Scores are whole numbers; a higher score is better.
pub type ObjectiveScore = i64;

/// Whether `simulation` is what a run to the end makes of a simulation
/// that was built from `parameters`.
pub open spec fn is_evaluation<H: Fn(&SimulationState) -> bool + Copy>(
    parameters: SimulationParameters<H>,
    simulation: Simulation<H>,
) -> bool {
    &&& simulation.wf()
    &&& simulation.halt_check == parameters.halt_check
    &&& exists|worlds: Seq<SimulationState>, trace: Seq<Seq<Reaction>>|
        Simulation::<H>::is_run(
            parameters.halt_check,
            parameters@.starting_state(),
            worlds,
            trace,
            simulation.state@,
        )
}

/// Builds a simulation from the parameters and runs it to its end.
pub fn evaluate<H: Fn(&SimulationState) -> bool + Copy>(parameters: &SimulationParameters<H>) -> (simulation:
    Simulation<H>)
    requires
        forall|state: SimulationState| call_requires(parameters.halt_check, (&state,)),
    ensures
        is_evaluation(*parameters, simulation),
{
    let mut simulation = Simulation::from_parameters(parameters);
    simulation.run();
    simulation
}

/// Whether `best` is the place of the highest of the scores, and the first
/// place that holds it.
pub open spec fn is_first_best(scores: Seq<ObjectiveScore>, best: int) -> bool {
    &&& 0 <= best < scores.len()
    &&& forall|i: int| 0 <= i < scores.len() ==> scores[i] <= scores[best]
    &&& forall|i: int| 0 <= i < best ==> scores[i] < scores[best]
}

/// Whether `samples` and `scores` tell of a search by sampling: each sample
/// is the evaluation of parameters that the generator gave, and each score
/// is what the objective function gave for that sample.
pub open spec fn is_sampling<H, G, O>(
    generator: G,
    objective_function: O,
    samples: Seq<Simulation<H>>,
    scores: Seq<ObjectiveScore>,
) -> bool where
    H: Fn(&SimulationState) -> bool + Copy,
    G: Fn() -> SimulationParameters<H>,
    O: Fn(&Simulation<H>) -> ObjectiveScore,
 {
    &&& samples.len() == scores.len()
    &&& forall|i: int|
        0 <= i < samples.len() ==> {
            &&& exists|parameters: SimulationParameters<H>|
                call_ensures(generator, (), parameters) && is_evaluation(
                    parameters,
                    #[trigger] samples[i],
                )
            &&& call_ensures(objective_function, (&samples[i],), scores[i])
        }
}

/// Given a function that generates various configurations of
/// SimulationParameters, run many simulation replications with varying
/// SimulationParameters. The parameters are varied by calling the generator.
/// The generator may, for example, randomly vary multiple fields of the
/// parameters. This function tries to approximate the globally optimal
/// parameters by running the simulation as many times as you specify
/// (replications_limit), and finds the Simulation that yielded the highest
/// score from the provided objective_function; of several with that score,
/// the first.
///
/// The simplest and most common objective function is to return negative
/// simulation time. An objective function that returns negative simulation time
/// will find the Simulation that completed in the least ticks of DiscreteTime.
pub fn monte_carlo_experiment<H, G, O>(
    simulation_parameters_generator: G,
    replications_limit: u32,
    objective_function: O,
) -> (best: Option<Simulation<H>>) where
    H: Fn(&SimulationState) -> bool + Copy,
    G: Fn() -> SimulationParameters<H>,
    O: Fn(&Simulation<H>) -> ObjectiveScore,

    requires
        call_requires(simulation_parameters_generator, ()),
        forall|parameters: SimulationParameters<H>, state: SimulationState|
            call_ensures(simulation_parameters_generator, (), parameters) ==> call_requires(
                parameters.halt_check,
                (&state,),
            ),
        forall|simulation: Simulation<H>| call_requires(objective_function, (&simulation,)),
    ensures
        replications_limit == 0 <==> best is None,
        best is Some ==> exists|samples: Seq<Simulation<H>>, scores: Seq<ObjectiveScore>, place: int|
            {
                &&& samples.len() == replications_limit
                &&& is_sampling(simulation_parameters_generator, objective_function, samples, scores)
                &&& is_first_best(scores, place)
                &&& best == Some(samples[place])
            },
{
    let mut approximate_optimum: Option<Simulation<H>> = None;
    let mut high_score: ObjectiveScore = i64::MIN;
    let ghost mut samples: Seq<Simulation<H>> = Seq::empty();
    let ghost mut scores: Seq<ObjectiveScore> = Seq::empty();
    let ghost mut place: int = 0;
    let mut i: u32 = 0;
    while i < replications_limit
        invariant
            i <= replications_limit,
            call_requires(simulation_parameters_generator, ()),
            forall|parameters: SimulationParameters<H>, state: SimulationState|
                call_ensures(simulation_parameters_generator, (), parameters) ==> call_requires(
                    parameters.halt_check,
                    (&state,),
                ),
            forall|simulation: Simulation<H>| call_requires(objective_function, (&simulation,)),
            samples.len() == i,
            is_sampling(simulation_parameters_generator, objective_function, samples, scores),
            i == 0 <==> approximate_optimum is None,
            i > 0 ==> {
                &&& is_first_best(scores, place)
                &&& approximate_optimum == Some(samples[place])
                &&& high_score == scores[place]
            },
        decreases replications_limit - i,
    {
        let parameters = simulation_parameters_generator();
        let simulation = evaluate(&parameters);
        let score = objective_function(&simulation);
        let ghost earlier_samples = samples;
        let ghost earlier_scores = scores;
        proof {
            samples = samples.push(simulation);
            scores = scores.push(score);
            assert forall|j: int| 0 <= j < samples.len() implies {
                &&& exists|parameters: SimulationParameters<H>|
                    call_ensures(simulation_parameters_generator, (), parameters)
                        && is_evaluation(parameters, #[trigger] samples[j])
                &&& call_ensures(objective_function, (&samples[j],), scores[j])
            } by {
                if j < earlier_samples.len() {
                    assert(samples[j] == earlier_samples[j]);
                    assert(scores[j] == earlier_scores[j]);
                } else {
                    assert(call_ensures(simulation_parameters_generator, (), parameters)
                        && is_evaluation(parameters, samples[j]));
                }
            }
        }
        let better = match &approximate_optimum {
            Some(_) => score > high_score,
            None => true,
        };
        if better {
            approximate_optimum = Some(simulation);
            high_score = score;
            proof {
                place = i as int;
            }
        }
        i += 1;
    }
    approximate_optimum
}

/// The temperature of a cooling schedule, in whole units of the caller's
/// choice. Only a temperature above zero lets the search take a candidate
/// that is no better than what it has.
pub type Temperature = i64;

/// A chance of `numerator` in `denominator`.
#[derive(Clone, Copy, Debug, PartialEq, Eq, Structural)]
pub struct Odds {
    pub numerator: u32,
    pub denominator: u32,
}

impl Odds {
    /// No draw takes this chance: it is none in any number, or in none.
    pub open spec fn is_never(self) -> bool {
        self.numerator == 0 || self.denominator == 0
    }

    /// Every draw takes this chance: it is all in some number, or more.
    pub open spec fn is_certain(self) -> bool {
        self.denominator > 0 && self.numerator >= self.denominator
    }

    /// Whether the chance is taken, where a draw with these odds came out
    /// as `hit`.
    pub open spec fn taken(self, hit: bool) -> bool {
        self.is_certain() || (!self.is_never() && hit)
    }

    /// Whether a draw with these odds can come out as `hit`.
    pub open spec fn allows(self, hit: bool) -> bool {
        &&& self.is_never() ==> !hit
        &&& self.is_certain() ==> hit
    }
}

/// `rand::random_ratio` draws true with a chance of `numerator` in
/// `denominator`, from the generator of the calling thread. It panics on a
/// denominator of zero and on a numerator above the denominator, which the
/// precondition keeps out. Of the outcome this states what holds of every
/// draw: a chance of none never comes out true, and a chance of all always
/// does.
pub assume_specification[ rand::random_ratio ](numerator: u32, denominator: u32) -> (hit: bool)
    requires
        denominator > 0,
        numerator <= denominator,
    ensures
        numerator == 0 ==> !hit,
        numerator == denominator ==> hit,
;

/// By how much the candidate's score falls short of the current score.
pub open spec fn score_drop(current_score: ObjectiveScore, candidate_score: ObjectiveScore) -> u64 {
    if candidate_score <= current_score {
        (current_score - candidate_score) as u64
    } else {
        0
    }
}

/// The Metropolis criterion: a candidate with a strictly higher score is
/// taken; any other candidate is taken only at a temperature above zero, and
/// then only if the draw takes the chance that the odds give.
pub open spec fn metropolis(
    current_score: ObjectiveScore,
    candidate_score: ObjectiveScore,
    temperature: Temperature,
    odds: Odds,
    hit: bool,
) -> bool {
    candidate_score > current_score || (temperature > 0 && odds.taken(hit))
}

/// Decides by the Metropolis criterion, given the odds at this temperature
/// and how the draw came out.
pub fn accepts_candidate(
    current_score: ObjectiveScore,
    candidate_score: ObjectiveScore,
    temperature: Temperature,
    odds: Odds,
    hit: bool,
) -> (accept: bool)
    ensures
        accept == metropolis(current_score, candidate_score, temperature, odds, hit),
{
    if candidate_score > current_score {
        true
    } else if temperature <= 0 {
        false
    } else if odds.denominator > 0 && odds.numerator >= odds.denominator {
        true
    } else if odds.numerator == 0 || odds.denominator == 0 {
        false
    } else {
        hit
    }
}

/// Whether `accept` is a decision that the Metropolis criterion allows on
/// these scores at this temperature, with the odds that `acceptance_odds`
/// gives for the drop in score.
pub open spec fn follows_metropolis<A: Fn(u64, Temperature) -> Odds>(
    acceptance_odds: A,
    current_score: ObjectiveScore,
    candidate_score: ObjectiveScore,
    temperature: Temperature,
    accept: bool,
) -> bool {
    if candidate_score > current_score {
        accept
    } else if temperature <= 0 {
        !accept
    } else {
        exists|odds: Odds, hit: bool|
            {
                &&& call_ensures(
                    acceptance_odds,
                    (score_drop(current_score, candidate_score), temperature),
                    odds,
                )
                &&& odds.allows(hit)
                &&& accept == odds.taken(hit)
            }
    }
}

/// Decides whether the search moves on to a candidate. A candidate with a
/// strictly higher score is taken. Any other candidate is refused at a
/// temperature of zero or below; above zero the odds are asked of
/// `acceptance_odds`, for the drop in score and the temperature, and a
/// random draw with those odds decides.
pub fn decide_acceptance<A: Fn(u64, Temperature) -> Odds>(
    acceptance_odds: &A,
    current_score: ObjectiveScore,
    candidate_score: ObjectiveScore,
    temperature: Temperature,
) -> (accept: bool)
    requires
        forall|drop: u64, positive: Temperature|
            positive > 0 ==> call_requires(*acceptance_odds, (drop, positive)),
    ensures
        follows_metropolis(*acceptance_odds, current_score, candidate_score, temperature, accept),
{
    let placeholder = Odds { numerator: 0, denominator: 1 };
    if candidate_score > current_score || temperature <= 0 {
        return accepts_candidate(current_score, candidate_score, temperature, placeholder, false);
    }
    let drop: u64 = (current_score as i128 - candidate_score as i128) as u64;
    let odds = acceptance_odds(drop, temperature);
    let hit = if odds.denominator > 0 && odds.numerator <= odds.denominator {
        rand::random_ratio(odds.numerator, odds.denominator)
    } else {
        odds.denominator > 0
    };
    let accept = accepts_candidate(current_score, candidate_score, temperature, odds, hit);
    assert(odds.allows(hit) && accept == odds.taken(hit));
    accept
}

/// Where a search by annealing stands: the parameters that it perturbs
/// next, and the best that it has seen, each with its score.
pub struct Annealing<P> {
    /// The parameters that the next candidate is made from.
    pub current: P,
    /// The score of the current parameters.
    pub current_score: ObjectiveScore,
    /// The best parameters seen, unless the current ones are the best.
    pub earlier_best: Option<P>,
    /// The score of the best parameters seen.
    pub best_score: ObjectiveScore,
}

/// The mathematical value of an [`Annealing`].
pub struct AnnealingView<P> {
    pub current: P,
    pub current_score: ObjectiveScore,
    pub best: P,
    pub best_score: ObjectiveScore,
}

impl<P> AnnealingView<P> {
    /// Where a search starts: its first parameters are the current ones
    /// and the best.
    pub open spec fn started(initial: P, score: ObjectiveScore) -> AnnealingView<P> {
        AnnealingView { current: initial, current_score: score, best: initial, best_score: score }
    }

    /// Where the search stands after a candidate: one that was accepted is
    /// the current one from now on, and the best one too if its score is
    /// strictly above the best so far; one that was refused changes nothing.
    pub open spec fn stepped(
        self,
        candidate: P,
        candidate_score: ObjectiveScore,
        accept: bool,
    ) -> AnnealingView<P> {
        if !accept {
            self
        } else if candidate_score > self.best_score {
            AnnealingView {
                current: candidate,
                current_score: candidate_score,
                best: candidate,
                best_score: candidate_score,
            }
        } else {
            AnnealingView { current: candidate, current_score: candidate_score, ..self }
        }
    }
}

impl<P> View for Annealing<P> {
    type V = AnnealingView<P>;

    open spec fn view(&self) -> AnnealingView<P> {
        AnnealingView {
            current: self.current,
            current_score: self.current_score,
            best: match self.earlier_best {
                Some(best) => best,
                None => self.current,
            },
            best_score: self.best_score,
        }
    }
}

impl<P> Annealing<P> {
    /// A search that starts at `initial`, which has this score.
    pub fn start(initial: P, score: ObjectiveScore) -> (search: Self)
        ensures
            search@ == AnnealingView::started(initial, score),
    {
        Annealing { current: initial, current_score: score, earlier_best: None, best_score: score }
    }

    /// Takes in a candidate with its score and the decision on it.
    pub fn step(self, candidate: P, candidate_score: ObjectiveScore, accept: bool) -> (next: Self)
        ensures
            next@ == self@.stepped(candidate, candidate_score, accept),
    {
        if !accept {
            self
        } else if candidate_score > self.best_score {
            Annealing {
                current: candidate,
                current_score: candidate_score,
                earlier_best: None,
                best_score: candidate_score,
            }
        } else {
            let Annealing { current, current_score, earlier_best, best_score } = self;
            let kept = match earlier_best {
                Some(best) => best,
                None => current,
            };
            Annealing {
                current: candidate,
                current_score: candidate_score,
                earlier_best: Some(kept),
                best_score,
            }
        }
    }

    /// The best parameters that the search has seen.
    pub fn into_best(self) -> (best: P)
        ensures
            best == self@.best,
    {
        match self.earlier_best {
            Some(best) => best,
            None => self.current,
        }
    }
}

/// Whether `score` is what the objective function gave for an evaluation of
/// `parameters`.
pub open spec fn is_score_of<H, O>(
    objective_function: O,
    parameters: SimulationParameters<H>,
    score: ObjectiveScore,
) -> bool where H: Fn(&SimulationState) -> bool + Copy, O: Fn(&Simulation<H>) -> ObjectiveScore {
    exists|simulation: Simulation<H>|
        is_evaluation(parameters, simulation) && call_ensures(
            objective_function,
            (&simulation,),
            score,
        )
}

/// Evaluates the parameters and scores the simulation that comes of it.
pub fn score_parameters<H, O>(objective_function: &O, parameters: &SimulationParameters<H>) -> (score:
    ObjectiveScore) where
    H: Fn(&SimulationState) -> bool + Copy,
    O: Fn(&Simulation<H>) -> ObjectiveScore,

    requires
        forall|state: SimulationState| call_requires(parameters.halt_check, (&state,)),
        forall|simulation: Simulation<H>| call_requires(*objective_function, (&simulation,)),
    ensures
        is_score_of(*objective_function, *parameters, score),
{
    let simulation = evaluate(parameters);
    objective_function(&simulation)
}

/// What a search by annealing went through: where it stood before each
/// candidate and after the last, and for each candidate the temperature,
/// the candidate, its score and whether it was accepted.
pub struct AnnealingTrace<H> {
    pub stages: Seq<AnnealingView<SimulationParameters<H>>>,
    pub temperatures: Seq<Temperature>,
    pub candidates: Seq<SimulationParameters<H>>,
    pub scores: Seq<ObjectiveScore>,
    pub accepted: Seq<bool>,
}

/// Whether iteration `k + 1` of `trace` is a step of a search by annealing
/// with these functions: the temperature is what the schedule gave for the
/// iteration; the candidate is what the perturbation made of the parameters
/// that were current; its score is what the objective function gave for an
/// evaluation of it; the decision on it follows the Metropolis criterion; and
/// the next stage comes of this one by that decision.
pub open spec fn is_annealing_step<H, P, O, F, A>(
    perturb_function: P,
    objective_function: O,
    summon_chaotic_flux: F,
    acceptance_odds: A,
    trace: AnnealingTrace<H>,
    k: int,
) -> bool where
    H: Fn(&SimulationState) -> bool + Copy,
    P: Fn(&SimulationParameters<H>) -> SimulationParameters<H>,
    O: Fn(&Simulation<H>) -> ObjectiveScore,
    F: Fn(u32) -> Temperature,
    A: Fn(u64, Temperature) -> Odds,
 {
    &&& call_ensures(summon_chaotic_flux, ((k + 1) as u32,), trace.temperatures[k])
    &&& call_ensures(perturb_function, (&trace.stages[k].current,), trace.candidates[k])
    &&& is_score_of(objective_function, trace.candidates[k], trace.scores[k])
    &&& follows_metropolis(
        acceptance_odds,
        trace.stages[k].current_score,
        trace.scores[k],
        trace.temperatures[k],
        trace.accepted[k],
    )
    &&& trace.stages[k + 1] == trace.stages[k].stepped(
        trace.candidates[k],
        trace.scores[k],
        trace.accepted[k],
    )
}

/// Whether `trace` tells of a search by annealing with these functions:
/// it starts at parameters that the generator gave, with their score; the
/// candidate of iteration `k`, counted from 1, is what the perturbation made
/// of the parameters that were current then; its score is what the objective
/// function gave for an evaluation of it; the decision on it follows the
/// Metropolis criterion at the temperature that the schedule gave for `k`;
/// and each stage comes of the one before by that decision.
pub open spec fn is_annealing<H, G, P, O, F, A>(
    initial_parameters_generator: G,
    perturb_function: P,
    objective_function: O,
    summon_chaotic_flux: F,
    acceptance_odds: A,
    trace: AnnealingTrace<H>,
) -> bool where
    H: Fn(&SimulationState) -> bool + Copy,
    G: Fn() -> SimulationParameters<H>,
    P: Fn(&SimulationParameters<H>) -> SimulationParameters<H>,
    O: Fn(&Simulation<H>) -> ObjectiveScore,
    F: Fn(u32) -> Temperature,
    A: Fn(u64, Temperature) -> Odds,
 {
    let first = trace.stages[0];
    &&& trace.stages.len() == trace.candidates.len() + 1
    &&& trace.temperatures.len() == trace.candidates.len()
    &&& trace.scores.len() == trace.candidates.len()
    &&& trace.accepted.len() == trace.candidates.len()
    &&& first == AnnealingView::started(first.current, first.current_score)
    &&& call_ensures(initial_parameters_generator, (), first.current)
    &&& is_score_of(objective_function, first.current, first.current_score)
    &&& forall|k: int|
        0 <= k < trace.candidates.len() ==> #[trigger] is_annealing_step(
            perturb_function,
            objective_function,
            summon_chaotic_flux,
            acceptance_odds,
            trace,
            k,
        )
}

/// Looks to find a global optimum by simulated annealing, a probabilistic
/// approximation method.
///
/// The search starts at the parameters that the generator gives. In each of
/// `replications_limit` iterations, counted from 1, it asks the cooling
/// schedule `summon_chaotic_flux` for the temperature of the iteration, makes
/// a candidate by perturbing the current parameters, evaluates and scores it,
/// and decides by the Metropolis criterion whether the candidate becomes the
/// current one: always if its score is strictly higher; never at a
/// temperature of zero or below; otherwise by a random draw with the odds
/// that `acceptance_odds` gives for the drop in score and the temperature.
/// It returns the parameters with the highest score among the first and the
/// accepted ones, and of several with that score the first.
pub fn simulated_annealing_experiment<H, G, P, O, F, A>(
    initial_parameters_generator: G,
    perturb_function: P,
    objective_function: O,
    summon_chaotic_flux: F,
    acceptance_odds: A,
    replications_limit: u32,
) -> (best: Option<SimulationParameters<H>>) where
    H: Fn(&SimulationState) -> bool + Copy,
    G: Fn() -> SimulationParameters<H>,
    P: Fn(&SimulationParameters<H>) -> SimulationParameters<H>,
    O: Fn(&Simulation<H>) -> ObjectiveScore,
    F: Fn(u32) -> Temperature,
    A: Fn(u64, Temperature) -> Odds,

    requires
        call_requires(initial_parameters_generator, ()),
        forall|parameters: SimulationParameters<H>|
            call_requires(perturb_function, (&parameters,)),
        forall|parameters: SimulationParameters<H>, state: SimulationState|
            call_ensures(initial_parameters_generator, (), parameters) ==> call_requires(
                parameters.halt_check,
                (&state,),
            ),
        forall|
            parameters: SimulationParameters<H>,
            candidate: SimulationParameters<H>,
            state: SimulationState,
        |
            call_ensures(perturb_function, (&parameters,), candidate) ==> call_requires(
                candidate.halt_check,
                (&state,),
            ),
        forall|simulation: Simulation<H>| call_requires(objective_function, (&simulation,)),
        forall|iteration: u32| call_requires(summon_chaotic_flux, (iteration,)),
        forall|drop: u64, positive: Temperature|
            positive > 0 ==> call_requires(acceptance_odds, (drop, positive)),
    ensures
        best is Some,
        exists|trace: AnnealingTrace<H>|
            {
                &&& trace.candidates.len() == replications_limit
                &&& is_annealing(
                    initial_parameters_generator,
                    perturb_function,
                    objective_function,
                    summon_chaotic_flux,
                    acceptance_odds,
                    trace,
                )
                &&& best == Some(trace.stages.last().best)
            },
{
    let initial = initial_parameters_generator();
    let initial_score = score_parameters(&objective_function, &initial);
    let mut search = Annealing::start(initial, initial_score);
    let ghost mut trace = AnnealingTrace::<H> {
        stages: seq![search@],
        temperatures: Seq::empty(),
        candidates: Seq::empty(),
        scores: Seq::empty(),
        accepted: Seq::empty(),
    };
    let mut done: u32 = 0;
    while done < replications_limit
        invariant
            done <= replications_limit,
            forall|parameters: SimulationParameters<H>|
                call_requires(perturb_function, (&parameters,)),
            forall|
                parameters: SimulationParameters<H>,
                candidate: SimulationParameters<H>,
                state: SimulationState,
            |
                call_ensures(perturb_function, (&parameters,), candidate) ==> call_requires(
                    candidate.halt_check,
                    (&state,),
                ),
            forall|simulation: Simulation<H>| call_requires(objective_function, (&simulation,)),
            forall|iteration: u32| call_requires(summon_chaotic_flux, (iteration,)),
            forall|drop: u64, positive: Temperature|
                positive > 0 ==> call_requires(acceptance_odds, (drop, positive)),
            trace.candidates.len() == done,
            trace.stages.last() == search@,
            is_annealing(
                initial_parameters_generator,
                perturb_function,
                objective_function,
                summon_chaotic_flux,
                acceptance_odds,
                trace,
            ),
        decreases replications_limit - done,
    {
        let k = done + 1;
        let chaotic_flux = summon_chaotic_flux(k);
        let candidate = perturb_function(&search.current);
        let candidate_score = score_parameters(&objective_function, &candidate);
        let accept = decide_acceptance(
            &acceptance_odds,
            search.current_score,
            candidate_score,
            chaotic_flux,
        );
        let ghost earlier = trace;
        let ghost stage = search@;
        search = search.step(candidate, candidate_score, accept);
        proof {
            trace = AnnealingTrace {
                stages: earlier.stages.push(search@),
                temperatures: earlier.temperatures.push(chaotic_flux),
                candidates: earlier.candidates.push(candidate),
                scores: earlier.scores.push(candidate_score),
                accepted: earlier.accepted.push(accept),
            };
            assert(trace.stages[0] == earlier.stages[0]);
            assert forall|j: int| 0 <= j < trace.candidates.len() implies #[trigger] is_annealing_step(
                perturb_function,
                objective_function,
                summon_chaotic_flux,
                acceptance_odds,
                trace,
                j,
            ) by {
                if j < earlier.candidates.len() {
                    assert(is_annealing_step(
                        perturb_function,
                        objective_function,
                        summon_chaotic_flux,
                        acceptance_odds,
                        earlier,
                        j,
                    ));
                    assert(trace.candidates[j] == earlier.candidates[j]);
                    assert(trace.stages[j] == earlier.stages[j]);
                    assert(trace.stages[j + 1] == earlier.stages[j + 1]);
                    assert(trace.temperatures[j] == earlier.temperatures[j]);
                    assert(trace.scores[j] == earlier.scores[j]);
                    assert(trace.accepted[j] == earlier.accepted[j]);
                } else {
                    assert(trace.stages[j] == stage);
                    assert(trace.stages[j + 1] == search@);
                    assert((j + 1) as u32 == k);
                }
            }
        }
        done += 1;
    }
    Some(search.into_best())
}

} // verus!
