//! Knobs: shared control values with one writer and any number of
//! reader-generators, all on one thread.

use vstd::prelude::*;
use std::rc::Rc;
use std::cell::Cell;
use crate::module::{SoundModule, SamplingParameters};
use crate::signal::SignalGenerator;

verus! {

/// The standard library's single-threaded interior-mutable cell, declared so
/// that a shared handle to it can be held in fields; Verus sees nothing
/// inside it.
#[verifier::external_type_specification]
#[verifier::external_body]
#[verifier::reject_recursive_types(T)]
pub struct ExCell<T: ?Sized>(Cell<T>);

/// A knob holds a value used to set parameters in a signal generator. The
/// knob is the cell's only writer; `mirror` records the last value written.
#[verifier::reject_recursive_types(T)]
pub struct Knob<T: Copy> {
    value: Rc<Cell<T>>,
    mirror: Ghost<T>,
}

/// A generator reading its value from a knob. Many such readers may share one
/// knob, all reflecting the latest write; which value a read returns depends
/// on the knob's writes, so a read promises nothing of it.
#[verifier::reject_recursive_types(T)]
#[derive(Clone)]
pub struct KnobGenerator<T: Copy> {
    value: Rc<Cell<T>>,
}

impl<T: Copy> Knob<T> {
    /// The most recently written value.
    pub closed spec fn mirror_spec(&self) -> T {
        self.mirror@
    }

    /// Relies on Rc::new and Cell::new: the fresh cell holds `initial` and
    /// only this knob can write it.
    #[verifier::external_body]
    pub fn new(initial: T) -> (r: Knob<T>)
        ensures
            r.mirror_spec() == initial,
    {
        Knob { value: Rc::new(Cell::new(initial)), mirror: Ghost(initial) }
    }

    /// Relies on Rc::clone: a read-only view of the same cell.
    #[verifier::external_body]
    pub fn as_generator(&self) -> (r: KnobGenerator<T>) {
        KnobGenerator { value: Rc::clone(&self.value) }
    }

    /// Relies on Cell::set: writes the shared cell, which every reader
    /// observes from now on.
    #[verifier::external_body]
    pub fn set(&mut self, value: T)
        ensures
            final(self).mirror_spec() == value,
    {
        self.value.set(value);
    }

    /// Relies on Cell::get, and on this knob being the cell's only writer:
    /// a read observes the most recently written value.
    #[verifier::external_body]
    pub fn get(&self) -> (r: T)
        ensures
            r == self.mirror_spec(),
    {
        self.value.get()
    }
}

impl<T: Copy> KnobGenerator<T> {
    /// Relies on Cell::get: the cell's current value; which value that is
    /// depends on the knob's writes, so nothing is promised of it.
    #[verifier::external_body]
    fn read(&self) -> T {
        self.value.get()
    }
}

impl<T: Copy> SoundModule for KnobGenerator<T> {
    open spec fn inv(&self) -> bool {
        true
    }

    open spec fn reset_rel(pre: Self, post: Self) -> bool {
        post == pre
    }

    open spec fn config_rel(pre: Self, post: Self, rate: u32) -> bool {
        post == pre
    }

    fn reset(&mut self) {
    }

    fn set_sampling_parameters(&mut self, _params: &SamplingParameters) {
    }
}

impl<T: Copy> SignalGenerator for KnobGenerator<T> {
    type Output = T;

    /// Reading leaves the generator unchanged; the value read is whatever the
    /// knob last wrote, which the reader's own state cannot pin down.
    open spec fn gen_rel(pre: Self, post: Self, out: T) -> bool {
        post == pre
    }

    fn next(&mut self) -> (r: T) {
        self.read()
    }
}

} // verus!
