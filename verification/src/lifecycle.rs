//! Orderly shutdown of what was started, and the start-up guard.

use vstd::prelude::*;

verus! {

/// How often something was closed.
pub struct CloseCount {
    pub times: nat,
}

/// Something that can be shut down, and keeps count of it.
pub trait Closeable {
    /// How often this was closed so far.
    spec fn closed(&self) -> CloseCount;

    /// Shuts this down.
    fn close(&mut self)
        ensures
            final(self).closed().times == old(self).closed().times + 1,
    ;
}

/// Whether `after` was closed once more than `before`.
pub open spec fn closed_once_more<C: Closeable>(before: C, after: C) -> bool {
    after.closed().times == before.closed().times + 1
}

/// Keeps what was started and closes it in reverse order.
pub struct BaseCloseable<C> {
    list: Vec<C>,
    done: Vec<C>,
}

impl<C: Closeable> BaseCloseable<C> {
    /// The registered items that are still open, oldest first.
    pub closed spec fn items(&self) -> Seq<C> {
        self.list@
    }

    /// The items that were closed, in the order in which they were closed.
    pub closed spec fn closed_items(&self) -> Seq<C> {
        self.done@
    }

    pub fn new() -> (b: Self)
        ensures
            b.items() == Seq::<C>::empty(),
            b.closed_items() == Seq::<C>::empty(),
    {
        Self { list: Vec::new(), done: Vec::new() }
    }

    /// Registers `c`, to be closed before all that was registered earlier.
    pub fn add(&mut self, c: C)
        ensures
            final(self).items() == old(self).items().push(c),
            final(self).closed_items() == old(self).closed_items(),
    {
        self.list.push(c);
    }

    /// How many registered items are still open.
    pub fn len(&self) -> (n: usize)
        ensures
            n == self.items().len(),
    {
        self.list.len()
    }

    /// How many items were closed.
    pub fn closed_len(&self) -> (n: usize)
        ensures
            n == self.closed_items().len(),
    {
        self.done.len()
    }

    /// Closes every registered item once, the last registered first, and
    /// moves each to the closed items as it is closed: the item closed as
    /// the `i`-th of this call is the one registered as the `i`-th from the
    /// end. No item is left open: a second call closes nothing.
    pub fn close(&mut self)
        ensures
            final(self).items() == Seq::<C>::empty(),
            final(self).closed_items().len() == old(self).closed_items().len()
                + old(self).items().len(),
            final(self).closed_items().take(old(self).closed_items().len() as int)
                == old(self).closed_items(),
            forall|k: int|
                old(self).closed_items().len() <= k < final(self).closed_items().len()
                    ==> closed_once_more(
                    old(self).items()[old(self).items().len() - 1 - (k - old(
                        self,
                    ).closed_items().len())],
                    #[trigger] final(self).closed_items()[k],
                ),
    {
        let ghost open = self.list@;
        let ghost shut = self.done@;
        while self.list.len() > 0
            invariant
                self.list@.len() <= open.len(),
                self.list@ == open.take(self.list@.len() as int),
                self.done@.len() == shut.len() + open.len() - self.list@.len(),
                self.done@.take(shut.len() as int) == shut,
                forall|k: int|
                    shut.len() <= k < self.done@.len() ==> closed_once_more(
                        open[open.len() - 1 - (k - shut.len())],
                        #[trigger] self.done@[k],
                    ),
            decreases self.list@.len(),
        {
            let ghost before = self.done@;
            match self.list.pop() {
                Some(mut c) => {
                    c.close();
                    self.done.push(c);
                    assert(self.done@.take(shut.len() as int) =~= before.take(shut.len() as int));
                },
                None => {},
            }
        }
        assert(self.list@ =~= Seq::<C>::empty());
    }
}

/// Why the gateway refuses to start.
#[derive(Debug, Clone, Copy, PartialEq, Eq, Structural)]
pub enum GuardError {
    /// No platform is switched on in the settings.
    NoPlatformEnabled,
}

impl GuardError {
    /// The text to show to the operator.
    pub fn message(&self) -> (m: &'static str)
        ensures
            m@ == "No platform enabled! Please enable them in /config/application.toml"@,
    {
        "No platform enabled! Please enable them in /config/application.toml"
    }
}

/// Refuses to start a gateway that would serve no platform.
pub struct PlatformGuard;

impl PlatformGuard {
    /// Passes exactly when some platform is switched on.
    pub fn ensure(enabled_any: bool) -> (r: Result<(), GuardError>)
        ensures
            r is Ok <==> enabled_any,
            r matches Err(e) ==> e == GuardError::NoPlatformEnabled,
    {
        if !enabled_any {
            return Err(GuardError::NoPlatformEnabled);
        }
        Ok(())
    }
}

/// Marks the start-up phase that brings the platforms up.
pub struct StartPlatforms;

} // verus!
