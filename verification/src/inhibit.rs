//! Keeps the system from going to sleep while audio plays.
//!
//! The lock is a child process: it holds as long as the child runs, and the child runs as long as
//! its input is open.
use vstd::prelude::*;
use vstd::string::*;

use crate::text;

verus! {

/// The arguments of the program that takes the lock.
pub open spec fn lock_arguments() -> Seq<Seq<char>> {
    seq![
        "--what=sleep"@,
        "--who=jellyfin-tui"@,
        "--why=Playing audio"@,
        "--mode=block"@,
        "cat"@,
    ]
}

/// Holds the sleep lock. `C` is a handle on the child that holds it, `S` the input of the child.
pub struct SleepInhibitor<C, S> {
    child: Option<C>,
    stdin: Option<S>,
    available: bool,
}

/// What is known of the lock.
pub struct Lock<C, S> {
    pub child: Option<C>,
    pub stdin: Option<S>,
    /// Whether the system has the program that takes locks.
    pub available: bool,
}

impl<C, S> Lock<C, S> {
    /// No lock is held.
    pub open spec fn free(available: bool) -> Lock<C, S> {
        Lock { child: None, stdin: None, available }
    }

    /// A lock is held only where it can be taken, and no input is kept of a child that is not.
    pub open spec fn valid(self) -> bool {
        &&& self.child is Some ==> self.available
        &&& self.stdin is Some ==> self.child is Some
    }

    /// Whether a child has to be started for the lock: where locks can be had and none is held.
    pub open spec fn wants_child(self) -> bool {
        self.available && self.child is None
    }

    /// The lock once a child was started, with its input, or could not be started.
    pub open spec fn started(self, child: Option<(C, Option<S>)>) -> Lock<C, S> {
        match child {
            Some((child, stdin)) => Lock { child: Some(child), stdin, ..self },
            None => self,
        }
    }

    /// The lock once it was given up.
    pub open spec fn released(self) -> Lock<C, S> {
        Lock { child: None, stdin: None, ..self }
    }
}

impl<C, S> View for SleepInhibitor<C, S> {
    type V = Lock<C, S>;

    closed spec fn view(&self) -> Lock<C, S> {
        Lock { child: self.child, stdin: self.stdin, available: self.available }
    }
}

impl<C, S> SleepInhibitor<C, S> {
    /// Starts without a lock. `probe` is what came of asking the program that takes locks for its
    /// version: whether it reported success, or an error where it could not be run.
    pub fn new<E>(probe: Result<bool, E>) -> (inhibitor: Self)
        ensures
            inhibitor@ == Lock::<C, S>::free(probe is Ok && probe->Ok_0),
            inhibitor@.wants_child() <==> (probe matches Ok(success) && success),
            inhibitor@.valid(),
    {
        let available = match probe {
            Ok(success) => success,
            Err(_) => false,
        };
        SleepInhibitor { child: None, stdin: None, available }
    }

    /// Asks for the lock. Answers with the arguments of the program that has to be started, if any;
    /// the caller starts it and hands it to `attach`.
    pub fn acquire(&mut self) -> (args: Option<Vec<String>>)
        ensures
            final(self)@ == old(self)@,
            match args {
                Some(args) => old(self)@.wants_child() && text::texts(args@) == lock_arguments(),
                None => !old(self)@.wants_child(),
            },
    {
        if !self.available || self.child.is_some() {
            return None;
        }
        let mut args: Vec<String> = Vec::new();
        args.push("--what=sleep".to_string());
        args.push("--who=jellyfin-tui".to_string());
        args.push("--why=Playing audio".to_string());
        args.push("--mode=block".to_string());
        args.push("cat".to_string());
        assert(text::texts(args@) =~= lock_arguments());
        Some(args)
    }

    /// Takes note of the child that was started for the lock, with its input, or that none could be
    /// started.
    pub fn attach(&mut self, child: Option<(C, Option<S>)>)
        ensures
            final(self)@ == old(self)@.started(child),
    {
        if let Some((child, stdin)) = child {
            self.stdin = stdin;
            self.child = Some(child);
        }
    }

    /// Gives the lock up. Answers with what is left of it: the input, to be closed first, and the
    /// child, to be ended.
    pub fn release(&mut self) -> (rest: (Option<S>, Option<C>))
        ensures
            final(self)@ == old(self)@.released(),
            rest == (old(self)@.stdin, old(self)@.child),
    {
        let stdin = self.stdin.take();
        let child = self.child.take();
        (stdin, child)
    }
}

/// What is known of the lock stays true over asking for it, starting a child and giving it up.
pub proof fn law_lock_stays_valid<C, S>(
    lock: Lock<C, S>,
    child: Option<(C, Option<S>)>,
    available: bool,
)
    requires
        lock.valid(),
        child is Some ==> lock.wants_child(),
    ensures
        Lock::<C, S>::free(available).valid(),
        lock.started(child).valid(),
        lock.released().valid(),
{
}

/// One child at most: while a lock is held, and where none can be had, asking for it starts
/// nothing.
pub proof fn law_one_child<C, S>(lock: Lock<C, S>, child: C, stdin: Option<S>)
    ensures
        !lock.started(Some((child, stdin))).wants_child(),
        !lock.available ==> !lock.wants_child() && !lock.released().wants_child(),
        lock.started(None) == lock,
{
}

/// Giving the lock up undoes taking it, and giving it up twice is the same as once.
pub proof fn law_release_undoes_acquire<C, S>(lock: Lock<C, S>, child: C, stdin: Option<S>)
    requires
        lock.valid(),
        lock.wants_child(),
    ensures
        lock.started(Some((child, stdin))).released() == lock,
        lock.released() == lock,
        lock.started(Some((child, stdin))).released().wants_child(),
{
}

/// The lock that is asked for blocks sleep, in the name of the player and with its reason, for as
/// long as a child runs that copies its input.
pub proof fn law_lock_blocks_sleep()
    ensures
        lock_arguments().len() == 5,
        lock_arguments()[0] == "--what=sleep"@,
        lock_arguments()[1] == "--who=jellyfin-tui"@,
        lock_arguments()[2] == "--why=Playing audio"@,
        lock_arguments()[3] == "--mode=block"@,
        lock_arguments()[4] == "cat"@,
{
}

/// A child is wanted exactly where locks can be had and none is held. Started, it is the one that is
/// held, with its own input; given up, neither is left. Whether locks can be had never changes.
pub proof fn law_lock_holds_its_child<C, S>(
    lock: Lock<C, S>,
    child: C,
    stdin: Option<S>,
    available: bool,
)
    ensures
        lock.wants_child() <==> lock.available && lock.child is None,
        lock.started(Some((child, stdin))).child == Some(child),
        lock.started(Some((child, stdin))).stdin == stdin,
        lock.started(Some((child, stdin))).available == lock.available,
        lock.released().child is None,
        lock.released().stdin is None,
        lock.released().available == lock.available,
        Lock::<C, S>::free(available).child is None,
        Lock::<C, S>::free(available).stdin is None,
        Lock::<C, S>::free(available).available == available,
{
}

/// What is known of the lock is what the fields hold.
proof fn lemma_lock_is_the_fields<C, S>(inhibitor: SleepInhibitor<C, S>)
    ensures
        inhibitor@.child == inhibitor.child,
        inhibitor@.stdin == inhibitor.stdin,
        inhibitor@.available == inhibitor.available,
{
}

} // verus!
