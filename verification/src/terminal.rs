//! Taking over the terminal, and giving it back.

use vstd::prelude::*;

verus! {

broadcast use vstd::string::group_string_axioms;

/// Why the terminal could not be taken over or given back. The text is what the
/// system said.
#[derive(Debug, Clone, PartialEq, Eq)]
pub enum TerminalError {
    Setup(String),
    Teardown(String),
}

/// How an error reads.
pub open spec fn terminal_error_text(error: TerminalError) -> Seq<char> {
    match error {
        TerminalError::Setup(s) => "failed to enter raw mode + alternate screen: "@ + s@,
        TerminalError::Teardown(s) => "failed to restore terminal: "@ + s@,
    }
}

impl TerminalError {
    /// The message for the operator.
    pub fn message(&self) -> (r: String)
        ensures
            r@ == terminal_error_text(*self),
    {
        let mut out: String = String::new();
        match self {
            TerminalError::Setup(s) => {
                out.append("failed to enter raw mode + alternate screen: ");
                out.append(s.as_str());
            },
            TerminalError::Teardown(s) => {
                out.append("failed to restore terminal: ");
                out.append(s.as_str());
            },
        }
        assert(out@ =~= terminal_error_text(*self));
        out
    }
}

/// A terminal that can be taken over and given back.
pub trait TerminalBackend {
    /// Take the terminal over.
    fn enter(&mut self) -> Result<(), TerminalError>;

    /// Give the terminal back.
    fn leave(&mut self) -> Result<(), TerminalError>;
}

/// A terminal that was taken over, and is given back once.
#[derive(Debug)]
pub struct TerminalGuard<B: TerminalBackend> {
    backend: B,
    cleaned: bool,
}

/// Whether a guard can come of another by giving the terminal back: it is given
/// back then, and one that was given back before stays as it is.
pub open spec fn given_back<B: TerminalBackend>(
    before: TerminalGuard<B>,
    after: TerminalGuard<B>,
) -> bool {
    after.spent() && (before.spent() ==> after.held() == before.held())
}

impl<B: TerminalBackend> TerminalGuard<B> {
    /// The terminal.
    pub closed spec fn held(self) -> B {
        self.backend
    }

    /// Whether the terminal was given back.
    pub closed spec fn spent(self) -> bool {
        self.cleaned
    }

    /// Take a terminal over. Where that fails there is nothing to give back.
    pub fn with_backend(backend: B) -> (r: Result<TerminalGuard<B>, TerminalError>)
        ensures
            match r {
                Ok(guard) => !guard.spent() && exists|b: &mut B, done: Result<(), TerminalError>|
                    #[trigger] call_ensures(B::enter, (b,), done) && done is Ok && *b == backend
                        && *final(b) == guard.held(),
                Err(error) => exists|b: &mut B, done: Result<(), TerminalError>| #[trigger]
                    call_ensures(B::enter, (b,), done) && done == Err::<(), TerminalError>(error)
                        && *b == backend,
            },
    {
        let mut taken: B = backend;
        let done: Result<(), TerminalError> = taken.enter();
        match done {
            Ok(()) => Ok(TerminalGuard { backend: taken, cleaned: false }),
            Err(error) => Err(error),
        }
    }

    /// Whether the terminal was given back.
    pub fn is_cleaned(&self) -> (r: bool)
        ensures
            r == self.spent(),
    {
        self.cleaned
    }

    /// The terminal.
    pub fn backend(&self) -> (r: &B)
        ensures
            *r == self.held(),
    {
        &self.backend
    }

    /// Give the terminal back. It is given back at most once; whether or not
    /// that works, it is not tried again.
    pub fn cleanup(&mut self) -> (r: Result<(), TerminalError>)
        ensures
            given_back(*old(self), *final(self)),
            old(self).spent() ==> r is Ok,
            !old(self).spent() ==> exists|b: &mut B| #[trigger]
                call_ensures(B::leave, (b,), r) && *b == old(self).held() && *final(b) == final(self).held(),
    {
        if self.cleaned {
            return Ok(());
        }
        self.cleaned = true;
        self.backend.leave()
    }

    /// Give the terminal back if that was not done yet, without regard to
    /// whether it works. This is for the end of the guard's life.
    pub fn release(&mut self)
        ensures
            given_back(*old(self), *final(self)),
            !old(self).spent() ==> exists|b: &mut B, done: Result<(), TerminalError>| #[trigger]
                call_ensures(B::leave, (b,), done) && *b == old(self).held() && *final(b) == final(self).held(),
    {
        let _ = self.cleanup();
    }
}

/// However often a terminal is given back, only the first time finds it not given
/// back yet, and nothing changes in it afterwards.
pub proof fn a_terminal_is_given_back_once<B: TerminalBackend>(guards: Seq<TerminalGuard<B>>)
    requires
        guards.len() >= 2,
        !guards[0].spent(),
        forall|i: int|
            #![trigger guards[i]]
            0 <= i < guards.len() - 1 ==> given_back(guards[i], guards[i + 1]),
    ensures
        forall|i: int|
            #![trigger guards[i]]
            0 <= i < guards.len() ==> (!guards[i].spent() <==> i == 0),
        forall|i: int|
            #![trigger guards[i]]
            1 <= i < guards.len() ==> guards[i].held() == guards[1].held(),
    decreases guards.len(),
{
    let last = guards.len() - 1;
    assert(given_back(guards[last - 1], guards[last - 1 + 1]));
    if guards.len() > 2 {
        let front = guards.drop_last();
        assert forall|i: int|
            #![trigger front[i]]
            0 <= i < front.len() - 1 implies given_back(front[i], front[i + 1]) by {
            assert(given_back(guards[i], guards[i + 1]));
        }
        a_terminal_is_given_back_once(front);
        assert forall|i: int|
            #![trigger guards[i]]
            0 <= i < last implies guards[i] == front[i] by {}
        assert(front[1] == guards[1]);
        assert(front[last - 1] == guards[last - 1]);
    }
}

/// Whether an outcome is that of leaving the alternate screen and raw mode.
pub open spec fn left_with(
    screen: Result<(), String>,
    raw: Result<(), String>,
    outcome: Result<(), TerminalError>,
) -> bool {
    &&& outcome is Ok <==> screen is Ok && raw is Ok
    &&& screen is Err ==> outcome == Err::<(), TerminalError>(
        TerminalError::Teardown(screen->Err_0),
    )
    &&& screen is Ok && raw is Err ==> outcome == Err::<(), TerminalError>(
        TerminalError::Teardown(raw->Err_0),
    )
}

/// Leaving works only where both parts of it do. Otherwise the error is about leaving,
/// and says what was said first.
pub proof fn the_first_failure_counts(
    screen: Result<(), String>,
    raw: Result<(), String>,
    outcome: Result<(), TerminalError>,
)
    requires
        left_with(screen, raw, outcome),
    ensures
        outcome is Err <==> screen is Err || raw is Err,
        outcome matches Err(error) ==> error is Teardown,
        screen matches Err(said) ==> (outcome matches Err(TerminalError::Teardown(s)) && s == said),
        raw matches Err(said) ==> screen is Ok ==> (outcome matches Err(
            TerminalError::Teardown(s),
        ) && s == said),
{
}

/// The outcome of leaving the alternate screen and raw mode, both of which are
/// always tried: the first failure counts.
pub fn teardown_outcome(screen: Result<(), String>, raw: Result<(), String>) -> (r: Result<
    (),
    TerminalError,
>)
    ensures
        left_with(screen, raw, r),
{
    match (screen, raw) {
        (Ok(()), Ok(())) => Ok(()),
        (Err(e), _) => Err(TerminalError::Teardown(e)),
        (_, Err(e)) => Err(TerminalError::Teardown(e)),
    }
}

/// A message says whether the terminal could not be taken over or not be given back,
/// and quotes what the system said.
pub proof fn terminal_errors_quote_the_system(said: String)
    ensures
        terminal_error_text(TerminalError::Setup(said))
            == "failed to enter raw mode + alternate screen: "@ + said@,
        terminal_error_text(TerminalError::Teardown(said)) == "failed to restore terminal: "@
            + said@,
{
}

} // verus!
