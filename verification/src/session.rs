use vstd::prelude::*;

use crate::error::{JkError, Result};
use crate::module::{MybmmModule, Transport};
use crate::pack::MybmmPack;

verus! {

/// A pack bound to a module and, once one is attached, a transport.
pub struct JkSession {
    pub pp: MybmmPack,
    pub tp: MybmmModule,
    pub tp_handle: Option<Box<dyn Transport>>,
}

impl JkSession {
    /// A session over the module's own transport for the pack's target. Modules of this
    /// library provide none, so this fails with the module's transport error.
    pub fn new(pp: MybmmPack, tp: MybmmModule) -> (r: Result<Self>)
        ensures
            r matches Err(JkError::TransportError(m)) && m@ == "No transport implementation provided"@,
    {
        let handle = tp.new_transport(pp.target.as_str(), pp.opts.as_str())?;
        Ok(JkSession { pp, tp, tp_handle: Some(handle) })
    }

    /// Open the transport; an error where none is attached.
    pub fn open(&mut self) -> (r: Result<()>)
        ensures
            old(self).tp_handle is None ==> r matches Err(JkError::TransportNotInitialized),
            old(self).tp_handle is None ==> final(self).tp_handle is None,
            old(self).tp_handle is Some ==> final(self).tp_handle is Some,
            final(self).pp == old(self).pp,
            final(self).tp == old(self).tp,
    {
        match self.tp_handle {
            Some(ref mut handle) => handle.open(),
            None => Err(JkError::TransportNotInitialized),
        }
    }

    /// Close the transport; an error where none is attached.
    pub fn close(&mut self) -> (r: Result<()>)
        ensures
            old(self).tp_handle is None ==> r matches Err(JkError::TransportNotInitialized),
            old(self).tp_handle is None ==> final(self).tp_handle is None,
            old(self).tp_handle is Some ==> final(self).tp_handle is Some,
            final(self).pp == old(self).pp,
            final(self).tp == old(self).tp,
    {
        match self.tp_handle {
            Some(ref mut handle) => handle.close(),
            None => Err(JkError::TransportNotInitialized),
        }
    }

    /// Charge (1), discharge (2) and balance (4) control requests are accepted and have
    /// no effect; so are unknown operations.
    pub fn control(&mut self, op: u32, action: u32) -> (r: Result<()>)
        ensures
            r is Ok,
            *final(self) == *old(self),
    {
        Ok(())
    }
}

} // verus!
