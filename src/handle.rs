use vstd::prelude::*;
use crate::error::TokenizerError;

verus! {

/// An analyzer instance together with its part-of-speech table, read once
/// when the analyzer was built.
pub struct LoadedAnalyzer<A> {
    pub analyzer: A,
    pub pos_table: Vec<Vec<String>>,
}

/// The shared analyzer: uninitialized until one load succeeds, then ready
/// with that instance for good.
pub struct AnalyzerHandle<A> {
    loaded: Option<LoadedAnalyzer<A>>,
}

/// The state and result of initialization from `state`, where `loaded` is
/// what a load would give. A ready handle ignores it.
pub open spec fn init_step<A>(
    state: Option<LoadedAnalyzer<A>>,
    loaded: Result<LoadedAnalyzer<A>, TokenizerError>,
) -> (Option<LoadedAnalyzer<A>>, Result<(), TokenizerError>) {
    if state is Some {
        (state, Ok(()))
    } else {
        match loaded {
            Ok(l) => (Some(l), Ok(())),
            Err(e) => (None, Err(e)),
        }
    }
}

impl<A> AnalyzerHandle<A> {
    /// The loaded analyzer, if initialization has succeeded.
    pub closed spec fn state(&self) -> Option<LoadedAnalyzer<A>> {
        self.loaded
    }

    /// An uninitialized handle.
    pub fn new() -> (r: Self)
        ensures
            r.state() is None,
    {
        AnalyzerHandle { loaded: None }
    }

    /// Whether initialization has succeeded.
    pub fn is_ready(&self) -> (r: bool)
        ensures
            r == self.state() is Some,
    {
        self.loaded.is_some()
    }

    /// Applies the outcome of a load: a ready handle keeps its instance and
    /// succeeds; an uninitialized one becomes ready on success and stays
    /// uninitialized with the load's error otherwise.
    pub fn install(&mut self, loaded: Result<LoadedAnalyzer<A>, TokenizerError>) -> (r: Result<
        (),
        TokenizerError,
    >)
        ensures
            (final(self).state(), r) == init_step(old(self).state(), loaded),
    {
        if self.loaded.is_some() {
            return Ok(());
        }
        match loaded {
            Ok(l) => {
                self.loaded = Some(l);
                Ok(())
            },
            Err(e) => Err(e),
        }
    }

    /// Initializes the handle with `load`, which is called only when the
    /// handle is not ready yet.
    pub fn initialize<F: FnOnce() -> Result<LoadedAnalyzer<A>, TokenizerError>>(
        &mut self,
        load: F,
    ) -> (r: Result<(), TokenizerError>)
        requires
            old(self).state() is None ==> load.requires(()),
        ensures
            old(self).state() is Some ==> final(self).state() == old(self).state() && r == Ok::<
                (),
                TokenizerError,
            >(()),
            old(self).state() is None ==> exists|loaded|
                load.ensures((), loaded) && (final(self).state(), r) == #[trigger] init_step(
                    old(self).state(),
                    loaded,
                ),
    {
        if self.loaded.is_some() {
            return Ok(());
        }
        let loaded = load();
        self.install(loaded)
    }

    /// The loaded analyzer; `DictLoadError` while uninitialized.
    pub fn analyzer(&self) -> (r: Result<&LoadedAnalyzer<A>, TokenizerError>)
        ensures
            self.state() is None ==> r == Err::<&LoadedAnalyzer<A>, TokenizerError>(
                TokenizerError::DictLoadError,
            ),
            self.state() matches Some(l) ==> r matches Ok(a) && *a == l,
    {
        match &self.loaded {
            Some(l) => Ok(l),
            None => Err(TokenizerError::DictLoadError),
        }
    }
}

/// Initializing twice: the first successful load wins, and the second call
/// succeeds and keeps that instance, whatever a second load would give.
pub proof fn lemma_initialize_idempotent<A>(
    first: LoadedAnalyzer<A>,
    second: Result<LoadedAnalyzer<A>, TokenizerError>,
)
    ensures
        ({
            let (after_first, r1) = init_step(None, Ok(first));
            let (after_second, r2) = init_step(after_first, second);
            &&& r1 == Ok::<(), TokenizerError>(())
            &&& r2 == Ok::<(), TokenizerError>(())
            &&& after_first == Some(first)
            &&& after_second == after_first
        }),
{
}

} // verus!
