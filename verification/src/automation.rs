//! Automation: controllers that write computed values into a target node's
//! parameters once per sample, strictly before that node processes the
//! sample.

use vstd::prelude::*;
use crate::module::{SoundModule, SamplingParameters, Parameter};
use crate::signal::SignalGenerator;
use crate::filter::Filter;

verus! {

/// A controller modifies a piece of equipment once per sample. `ctl_rel`
/// relates the controller's states and the target's states across one update.
pub trait Controller<E: SoundModule>: SoundModule {
    /// What one update does to the controller and to its target.
    spec fn ctl_rel(pre: Self, post: Self, target_pre: E, target_post: E) -> bool;

    /// Apply this step's parameter writes to the target.
    fn update(&mut self, target: &mut E)
        requires
            old(self).inv(),
            old(target).inv(),
        ensures
            final(self).inv(),
            final(target).inv(),
            Self::ctl_rel(*old(self), *final(self), *old(target), *final(target)),
    ;
}

/// The controller that changes nothing.
#[derive(Debug)]
pub struct NopController<E>(pub std::marker::PhantomData<E>);

impl<E> NopController<E> {
    pub fn new() -> (r: NopController<E>) {
        NopController(std::marker::PhantomData)
    }
}

impl<E> SoundModule for NopController<E> {
    open spec fn inv(&self) -> bool {
        true
    }

    open spec fn reset_rel(pre: Self, post: Self) -> bool {
        post == pre
    }

    open spec fn config_rel(pre: Self, post: Self, rate: u32) -> bool {
        post == pre
    }

    fn reset(&mut self) {
    }

    fn set_sampling_parameters(&mut self, _params: &SamplingParameters) {
    }
}

impl<E: SoundModule> Controller<E> for NopController<E> {
    open spec fn ctl_rel(pre: Self, post: Self, target_pre: E, target_post: E) -> bool {
        post == pre && target_post == target_pre
    }

    fn update(&mut self, _target: &mut E) {
    }
}

/// Two controllers applied in order, left first.
#[derive(Debug, Clone)]
pub struct ChainController<C1, C2>(pub C1, pub C2);

impl<C1: SoundModule, C2: SoundModule> SoundModule for ChainController<C1, C2> {
    open spec fn inv(&self) -> bool {
        self.0.inv() && self.1.inv()
    }

    open spec fn reset_rel(pre: Self, post: Self) -> bool {
        C1::reset_rel(pre.0, post.0) && C2::reset_rel(pre.1, post.1)
    }

    open spec fn config_rel(pre: Self, post: Self, rate: u32) -> bool {
        C1::config_rel(pre.0, post.0, rate) && C2::config_rel(pre.1, post.1, rate)
    }

    fn reset(&mut self) {
        self.0.reset();
        self.1.reset();
    }

    fn set_sampling_parameters(&mut self, params: &SamplingParameters) {
        self.0.set_sampling_parameters(params);
        self.1.set_sampling_parameters(params);
    }
}

impl<E: SoundModule, C1: Controller<E>, C2: Controller<E>> Controller<E> for ChainController<
    C1,
    C2,
> {
    open spec fn ctl_rel(pre: Self, post: Self, target_pre: E, target_post: E) -> bool {
        exists|target_mid: E|
            {
                &&& #[trigger] C1::ctl_rel(pre.0, post.0, target_pre, target_mid)
                &&& #[trigger] C2::ctl_rel(pre.1, post.1, target_mid, target_post)
            }
    }

    fn update(&mut self, target: &mut E) {
        self.0.update(target);
        let ghost target_mid = *target;
        self.1.update(target);
        proof {
            assert(C1::ctl_rel(old(self).0, self.0, *old(target), target_mid));
            assert(C2::ctl_rel(old(self).1, self.1, target_mid, *target));
        }
    }
}

/// Chain a further controller after this one, applied left to right.
pub trait ControllerExt<E: SoundModule>: Controller<E> {
    fn then<C: Controller<E>>(self, next: C) -> (r: ChainController<Self, C>)
        ensures
            r.0 == self,
            r.1 == next,
    ;
}

impl<E: SoundModule, C1: Controller<E>> ControllerExt<E> for C1 {
    fn then<C: Controller<E>>(self, next: C) -> (r: ChainController<Self, C>) {
        ChainController(self, next)
    }
}

/// Controls one parameter of the target: each update samples the driving
/// generator once and writes the value through the parameter handle.
#[derive(Debug, Clone)]
pub struct GeneratorController<Param, Gen> {
    pub param: Param,
    pub value_gen: Gen,
}

/// Whether `param` accepts every value that a generator of type `G` can
/// produce, whatever state it is in.
pub open spec fn param_accepts_generated<P: Parameter, G: SignalGenerator<Output = P::Value>>(
    param: P,
) -> bool {
    forall|g1: G, g2: G, out: P::Value|
        #[trigger] G::gen_rel(g1, g2, out) ==> param.value_ok(out)
}

impl<P, G: SoundModule> SoundModule for GeneratorController<P, G> where
    P: Parameter,
    G: SignalGenerator<Output = P::Value>,
 {
    open spec fn inv(&self) -> bool {
        self.value_gen.inv() && param_accepts_generated::<P, G>(self.param)
    }

    open spec fn reset_rel(pre: Self, post: Self) -> bool {
        G::reset_rel(pre.value_gen, post.value_gen) && post.param == pre.param
    }

    open spec fn config_rel(pre: Self, post: Self, rate: u32) -> bool {
        G::config_rel(pre.value_gen, post.value_gen, rate) && post.param == pre.param
    }

    fn reset(&mut self) {
        self.value_gen.reset();
    }

    fn set_sampling_parameters(&mut self, params: &SamplingParameters) {
        self.value_gen.set_sampling_parameters(params);
    }
}

impl<P, G> Controller<P::Target> for GeneratorController<P, G> where
    P: Parameter,
    G: SignalGenerator<Output = P::Value>,
 {
    open spec fn ctl_rel(
        pre: Self,
        post: Self,
        target_pre: P::Target,
        target_post: P::Target,
    ) -> bool {
        &&& post.param == pre.param
        &&& exists|v: P::Value|
            {
                &&& #[trigger] G::gen_rel(pre.value_gen, post.value_gen, v)
                &&& target_post == pre.param.set_spec(target_pre, v)
            }
    }

    fn update(&mut self, target: &mut P::Target) {
        let value = self.value_gen.next();
        proof {
            assert(G::gen_rel(old(self).value_gen, self.value_gen, value));
            assert(self.param.value_ok(value));
        }
        self.param.set(target, value);
    }
}

/// A piece of equipment whose parameters are set through automation: every
/// pull lets the controller update the equipment first, so the write at step
/// `n` is observed by the equipment while it processes step `n`.
#[derive(Debug, Clone)]
pub struct Automated<E, C> {
    pub equipment: E,
    pub controller: C,
}

impl<E: SoundModule, C> Automated<E, C> {
    /// Drive one more parameter of the equipment from a generator, sampled
    /// once per step after the existing controllers have run.
    pub fn with_generated_param<P, G>(self, param: P, generator: G) -> (r: Automated<
        E,
        ChainController<C, GeneratorController<P, G>>,
    >) where P: Parameter<Target = E>, G: SignalGenerator<Output = P::Value>
        ensures
            r.equipment == self.equipment,
            r.controller.0 == self.controller,
            r.controller.1.param == param,
            r.controller.1.value_gen == generator,
    {
        Automated {
            equipment: self.equipment,
            controller: ChainController(
                self.controller,
                GeneratorController { param, value_gen: generator },
            ),
        }
    }
}

/// Wrap a node for automation, starting with the controller that changes
/// nothing.
pub trait AutomationExt: SoundModule {
    fn automated(self) -> (r: Automated<Self, NopController<Self>>)
        ensures
            r.equipment == self,
    {
        Automated { equipment: self, controller: NopController(std::marker::PhantomData) }
    }
}

impl<E: SoundModule> AutomationExt for E {

}

impl<E: SoundModule, C: SoundModule> SoundModule for Automated<E, C> {
    open spec fn inv(&self) -> bool {
        self.equipment.inv() && self.controller.inv()
    }

    open spec fn reset_rel(pre: Self, post: Self) -> bool {
        E::reset_rel(pre.equipment, post.equipment) && C::reset_rel(pre.controller, post.controller)
    }

    open spec fn config_rel(pre: Self, post: Self, rate: u32) -> bool {
        E::config_rel(pre.equipment, post.equipment, rate) && C::config_rel(
            pre.controller,
            post.controller,
            rate,
        )
    }

    fn reset(&mut self) {
        self.equipment.reset();
        self.controller.reset();
    }

    fn set_sampling_parameters(&mut self, params: &SamplingParameters) {
        self.equipment.set_sampling_parameters(params);
        self.controller.set_sampling_parameters(params);
    }
}

impl<E: SignalGenerator, C: Controller<E>> SignalGenerator for Automated<E, C> {
    type Output = E::Output;

    /// The controller updates the equipment first; the updated equipment
    /// produces this step's sample.
    open spec fn gen_rel(pre: Self, post: Self, out: E::Output) -> bool {
        exists|equipment_mid: E|
            {
                &&& #[trigger] C::ctl_rel(
                    pre.controller,
                    post.controller,
                    pre.equipment,
                    equipment_mid,
                )
                &&& E::gen_rel(equipment_mid, post.equipment, out)
            }
    }

    fn next(&mut self) -> (r: E::Output) {
        self.controller.update(&mut self.equipment);
        let ghost equipment_mid = self.equipment;
        let r = self.equipment.next();
        proof {
            assert(C::ctl_rel(old(self).controller, self.controller, old(self).equipment, equipment_mid));
            assert(E::gen_rel(equipment_mid, self.equipment, r));
        }
        r
    }
}

impl<E: Filter, C: Controller<E>> Filter for Automated<E, C> {
    type Input = E::Input;

    type Output = E::Output;

    /// The controller updates the equipment first; the updated equipment
    /// filters this step's sample.
    open spec fn filter_rel(pre: Self, post: Self, input: E::Input, out: E::Output) -> bool {
        exists|equipment_mid: E|
            {
                &&& #[trigger] C::ctl_rel(
                    pre.controller,
                    post.controller,
                    pre.equipment,
                    equipment_mid,
                )
                &&& E::filter_rel(equipment_mid, post.equipment, input, out)
            }
    }

    fn filter(&mut self, input: E::Input) -> (r: E::Output) {
        self.controller.update(&mut self.equipment);
        let ghost equipment_mid = self.equipment;
        let r = self.equipment.filter(input);
        proof {
            assert(C::ctl_rel(old(self).controller, self.controller, old(self).equipment, equipment_mid));
            assert(E::filter_rel(equipment_mid, self.equipment, input, r));
        }
        r
    }
}

/// The automation ordering guarantee: when a generator-driven controller
/// writes a value at some step, the equipment observes exactly that value
/// while producing that same step's output — never the previous or the next
/// step's write.
pub proof fn lemma_automation_order<E, P, G>(
    pre: Automated<E, GeneratorController<P, G>>,
    post: Automated<E, GeneratorController<P, G>>,
    out: E::Output,
) where
    E: SignalGenerator,
    P: Parameter<Target = E>,
    G: SignalGenerator<Output = P::Value>,

    requires
        Automated::<E, GeneratorController<P, G>>::gen_rel(pre, post, out),
    ensures
        exists|v: P::Value, gen_mid: G|
            {
                &&& #[trigger] G::gen_rel(pre.controller.value_gen, gen_mid, v)
                &&& E::gen_rel(pre.controller.param.set_spec(pre.equipment, v), post.equipment, out)
            },
{
    let equipment_mid = choose|equipment_mid: E|
        {
            &&& #[trigger] GeneratorController::<P, G>::ctl_rel(
                pre.controller,
                post.controller,
                pre.equipment,
                equipment_mid,
            )
            &&& E::gen_rel(equipment_mid, post.equipment, out)
        };
    let v = choose|v: P::Value|
        {
            &&& #[trigger] G::gen_rel(pre.controller.value_gen, post.controller.value_gen, v)
            &&& equipment_mid == pre.controller.param.set_spec(pre.equipment, v)
        };
    assert(G::gen_rel(pre.controller.value_gen, post.controller.value_gen, v));
    assert(E::gen_rel(pre.controller.param.set_spec(pre.equipment, v), post.equipment, out));
}

} // verus!
