//! The slot that holds the connection to the liquidity provider while it is up.
use vstd::prelude::*;

verus! {

/// Holds the current connection to the liquidity provider, or nothing while none is up.
pub struct ConnectionContainer<C> {
    connection: Option<C>,
}

impl<C> View for ConnectionContainer<C> {
    type V = Option<C>;

    closed spec fn view(&self) -> Option<C> {
        self.connection
    }
}

impl<C> ConnectionContainer<C> {
    /// A container that holds no connection.
    pub fn new() -> (container: Self)
        ensures
            container@ == None::<C>,
    {
        ConnectionContainer { connection: None }
    }

    /// Holds `connection` from now on, in place of any earlier one.
    pub fn init_connection(&mut self, connection: C)
        ensures
            final(self)@ == Some(connection),
    {
        self.connection = Some(connection);
    }

    /// Drops the connection held, if any.
    pub fn remove_connection(&mut self)
        ensures
            final(self)@ == None::<C>,
    {
        self.connection = None;
    }

    /// The connection held, if any.
    pub fn get_connection(&self) -> (connection: Option<&C>)
        ensures
            connection is Some <==> self@ is Some,
            connection matches Some(c) ==> *c == self@.unwrap(),
    {
        match &self.connection {
            Some(c) => Some(c),
            None => None,
        }
    }
}

} // verus!
