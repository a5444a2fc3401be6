use vstd::prelude::*;

verus! {

/// A command together with whether it was issued here (`original`) or
/// received from another player; only original commands are sent to the
/// other players.
#[derive(Clone, Copy, Debug)]
pub struct CommandWrapper<T> {
    pub inner: T,
    pub original: bool,
}

impl<T> CommandWrapper<T> {
    /// A command issued here.
    pub fn new(inner: T) -> (r: Self)
        ensures
            r.inner == inner,
            r.original,
    {
        Self { inner, original: true }
    }

    /// The same command with its payload transformed by `f`; where it was
    /// issued does not change.
    pub fn map<F, U>(self, f: F) -> (r: CommandWrapper<U>)
        where
            F: FnOnce(T) -> U,
        requires
            f.requires((self.inner,)),
        ensures
            f.ensures((self.inner,), r.inner),
            r.original == self.original,
    {
        CommandWrapper { inner: f(self.inner), original: self.original }
    }
}

/// Something that can be queued and executed as a command.
pub trait Command: Sized {
    /// The command wrapped as issued here.
    fn wrap(self) -> (r: CommandWrapper<Self>)
        ensures
            r.inner == self,
            r.original,
    {
        CommandWrapper::new(self)
    }
}

} // verus!
