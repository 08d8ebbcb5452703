//! Things that tests share: each is created when it is first used.
use crate::memory_manager;
use crate::mmtk::{addressable, large_object_space_start, MMTKBuilder, IMMIX_SPACE_START, MMTK};
use crate::plan::lxr::global::LXR;
use crate::plan::lxr::mutator::{new_lxr_mutator, Mutator};
use crate::policy::lxr::immixspace::NoHooks;
use crate::util::options::{GCTriggerSelector, Options};
use crate::util::test_util::mock_vm::{lemma_alignments, MockVM};
use crate::vm::binding::VMBinding;
use vstd::prelude::*;

verus! {

/// What a fixture holds.
pub trait FixtureContent: Sized {
    fn create() -> Self;
}

/// Calls `func` on what `content` refers to.
fn call_on<T, F: Fn(&mut T)>(content: &mut T, func: F)
    requires
        forall|m: &mut T| *m == *old(content) ==> #[trigger] call_requires(func, (m,)),
    ensures
        exists|m: &mut T|
            *m == *old(content) && *final(m) == *final(content) && #[trigger] call_ensures(
                func,
                (m,),
                (),
            ),
{
    func(content)
}

/// Whether `content` is what a fixture that held `before` has to work with: that, or something
/// just created.
pub open spec fn ready<T: FixtureContent>(before: Option<Box<T>>, content: T) -> bool {
    match before {
        Some(c) => content == *c,
        None => call_ensures(T::create, (), content),
    }
}

/// A fixture whose content is only read, once it is there.
pub struct Fixture<T: FixtureContent> {
    pub content: Option<Box<T>>,
}

impl<T: FixtureContent> Fixture<T> {
    /// A fixture that has created nothing yet.
    pub fn new() -> (f: Self)
        ensures
            f.content is None,
    {
        Fixture { content: None }
    }

    /// Creates the content if there is none.
    pub fn initialize(&mut self)
        ensures
            final(self).content matches Some(c) && ready(old(self).content, *c),
    {
        if self.content.is_none() {
            self.content = Some(Box::new(T::create()));
        }
    }

    /// Calls `func` on the content, which is there.
    pub fn read<F: Fn(&T)>(&self, func: F)
        requires
            self.content is Some,
            call_requires(func, (&*self.content->0,)),
        ensures
            call_ensures(func, (&*self.content->0,), ()),
    {
        match &self.content {
            Some(c) => func(&**c),
            None => {},
        }
    }

    /// Calls `func` on the content, which is created first if there is none.
    pub fn with_fixture<F: Fn(&T)>(&mut self, func: F)
        requires
            forall|c: &T|
                ready(old(self).content, *c) ==> #[trigger] call_requires(func, (c,)),
        ensures
            final(self).content matches Some(c) && ready(old(self).content, *c) && call_ensures(
                func,
                (&*c,),
                (),
            ),
    {
        self.initialize();
        self.read(func)
    }
}

impl<T: FixtureContent> Default for Fixture<T> {
    fn default() -> (f: Self)
        ensures
            f.content is None,
    {
        Self::new()
    }
}

/// A fixture that one test at a time uses.
pub struct SerialFixture<T: FixtureContent> {
    pub content: Option<Box<T>>,
}

impl<T: FixtureContent> SerialFixture<T> {
    /// A fixture that has created nothing yet.
    pub fn new() -> (f: Self)
        ensures
            f.content is None,
    {
        SerialFixture { content: None }
    }

    /// Calls `func` on the content, which is created first if there is none.
    pub fn with_fixture<F: Fn(&T)>(&mut self, func: F)
        requires
            forall|c: &T|
                ready(old(self).content, *c) ==> #[trigger] call_requires(func, (c,)),
        ensures
            final(self).content matches Some(c) && ready(old(self).content, *c) && call_ensures(
                func,
                (&*c,),
                (),
            ),
    {
        if self.content.is_none() {
            self.content = Some(Box::new(T::create()));
        }
        match &self.content {
            Some(c) => func(&**c),
            None => {},
        }
    }

    /// Calls `func` on the content, which it may change; the content is created first if there is
    /// none.
    pub fn with_fixture_mut<F: Fn(&mut T)>(&mut self, func: F)
        requires
            forall|m: &mut T|
                ready(old(self).content, *m) ==> #[trigger] call_requires(func, (m,)),
        ensures
            final(self).content is Some,
            exists|m: &mut T|
                ready(old(self).content, *m) && *final(m) == *final(self).content->0
                    && #[trigger] call_ensures(func, (m,), ()),
    {
        if self.content.is_none() {
            self.content = Some(Box::new(T::create()));
        }
        match &mut self.content {
            Some(c) => {
                let content: &mut T = &mut **c;
                call_on(content, func);
            },
            None => {},
        }
    }
}

impl<T: FixtureContent> Default for SerialFixture<T> {
    fn default() -> (f: Self)
        ensures
            f.content is None,
    {
        Self::new()
    }
}

/// The bytes of the heap that a fixture has unless it is asked for another.
pub const MB: usize = 0x10_0000;

/// Whether the spaces of `plan` are those of a heap of `size` bytes.
pub open spec fn laid_out<H>(plan: LXR<H>, size: int) -> bool {
    &&& plan.immix_space.immix.common.start == IMMIX_SPACE_START
    &&& plan.immix_space.immix.blocks() == size / 32768
    &&& plan.los.los.common.start == large_object_space_start(size)
    &&& plan.los.los.pages() == size / 4096
}

/// An instance of the collector with a heap of `size` bytes, whose collections are disabled.
fn create_mmtk(size: usize) -> (mmtk: MMTK<NoHooks>)
    requires
        addressable(size as int),
    ensures
        mmtk.plan.wf(),
        laid_out(mmtk.plan, size as int),
        mmtk.options.gc_trigger == GCTriggerSelector::FixedHeapSize(size),
        mmtk.context.max_heap_pages == size as int / 4096,
        mmtk.plan.immix_space.immix.pr.free@.len() == size as int / 32768,
        mmtk.initialized,
        !mmtk.collection_enabled,
{
    let builder = MMTKBuilder {
        options: Options { gc_trigger: GCTriggerSelector::FixedHeapSize(size) },
    };
    let mut mmtk = MMTK::new(&builder, size);
    memory_manager::initialize_collection(&mut mmtk);
    memory_manager::disable_collection(&mut mmtk);
    mmtk
}

/// An instance of the collector.
pub struct MMTKSingleton {
    pub mmtk: MMTK<NoHooks>,
}

impl FixtureContent for MMTKSingleton {
    fn create() -> (f: Self)
        ensures
            f.mmtk.plan.wf(),
            f.mmtk.options.gc_trigger == GCTriggerSelector::FixedHeapSize(MB),
            f.mmtk.initialized,
            !f.mmtk.collection_enabled,
    {
        MMTKSingleton { mmtk: create_mmtk(MB) }
    }
}

/// An instance of the collector with a mutator.
pub struct MutatorFixture {
    pub mmtk: MMTK<NoHooks>,
    pub mutator: Box<Mutator<MockVM>>,
}

impl FixtureContent for MutatorFixture {
    fn create() -> (f: Self)
        ensures
            f.created_with(MB),
    {
        Self::create_with_heapsize(MB)
    }
}

impl MutatorFixture {
    /// Whether the fixture is as it is created with a heap of `size` bytes, for a virtual machine
    /// that aligns to multiples of 4 bytes, up to 64.
    pub open spec fn created_with(&self, size: usize) -> bool {
        &&& self.mmtk.plan.wf()
        &&& laid_out(self.mmtk.plan, size as int)
        &&& self.mmtk.options.gc_trigger == GCTriggerSelector::FixedHeapSize(size)
        &&& self.mmtk.context.max_heap_pages == size as int / 4096
        &&& self.mmtk.plan.immix_space.immix.pr.free@.len() == size as int / 32768
        &&& self.mmtk.initialized
        &&& !self.mmtk.collection_enabled
        &&& new_lxr_mutator(*self.mutator, 0, self.mmtk)
        &&& memory_manager::mutator_wf(*self.mutator, self.mmtk.plan)
        &&& MockVM::MIN_ALIGNMENT == 4
        &&& MockVM::MAX_ALIGNMENT == 64
    }

    /// An instance with a heap of `size` bytes, and a mutator.
    pub fn create_with_heapsize(size: usize) -> (f: Self)
        requires
            addressable(size as int),
        ensures
            f.created_with(size),
    {
        proof {
            lemma_alignments();
        }
        let mmtk = create_mmtk(size);
        let mutator = memory_manager::bind_mutator::<MockVM, NoHooks>(&mmtk, 0);
        MutatorFixture { mmtk, mutator }
    }
}

} // verus!
